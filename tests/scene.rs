use rayscii::binary32::MAX_FINITE;
use rayscii::color::{Color, SceneError};
use rayscii::scene::{blend_channels, check_blend_constant, nearest, Sample};

fn sample(d: f32, c: Color) -> Sample {
    Sample { distance: d.to_bits(), color: c }
}

fn rgb(r: u8, g: u8, b: u8) -> Color {
    Color::TrueColor { r, g, b }
}

#[test]
fn empty_scene_is_far_and_white() {
    let r = nearest(&Vec::new());
    assert_eq!(r, Sample { distance: MAX_FINITE, color: Color::White });
}

#[test]
fn nearest_node_wins() {
    let s = vec![sample(5.0, rgb(1, 0, 0)), sample(2.0, rgb(0, 1, 0)), sample(3.0, rgb(0, 0, 1))];
    assert_eq!(nearest(&s), sample(2.0, rgb(0, 1, 0)));
}

#[test]
fn negative_distance_is_nearest() {
    let s = vec![sample(0.5, rgb(1, 0, 0)), sample(-4.0, rgb(0, 1, 0))];
    assert_eq!(nearest(&s), sample(-4.0, rgb(0, 1, 0)));
}

#[test]
fn tie_goes_to_first_node() {
    let s = vec![sample(9.0, rgb(9, 9, 9)), sample(3.0, rgb(1, 0, 0)), sample(3.0, rgb(0, 1, 0))];
    for _ in 0..3 {
        assert_eq!(nearest(&s).color, rgb(1, 0, 0));
    }
}

#[test]
fn tie_between_zeros_goes_to_first_node() {
    let s = vec![sample(-0.0, rgb(1, 0, 0)), sample(0.0, rgb(0, 1, 0))];
    let r = nearest(&s);
    assert_eq!(r.color, rgb(1, 0, 0));
    assert_eq!(r.distance, (-0.0f32).to_bits());
}

#[test]
fn repeated_evaluation_is_identical() {
    let s = vec![sample(7.5, rgb(4, 5, 6)), sample(1.25, rgb(7, 8, 9)), sample(f32::NAN, rgb(0, 0, 0))];
    let first = nearest(&s);
    let second = nearest(&s);
    assert_eq!(first, second);
    assert_eq!(first, sample(1.25, rgb(7, 8, 9)));
}

#[test]
fn nan_distance_is_never_chosen() {
    let s = vec![sample(f32::NAN, rgb(1, 0, 0)), sample(8.0, rgb(0, 1, 0))];
    assert_eq!(nearest(&s), sample(8.0, rgb(0, 1, 0)));
    let only_nan = vec![sample(f32::NAN, rgb(1, 0, 0))];
    assert_eq!(nearest(&only_nan), Sample { distance: MAX_FINITE, color: Color::White });
}

#[test]
fn nodes_at_or_beyond_the_largest_distance_are_far() {
    let s = vec![sample(f32::MAX, rgb(1, 0, 0)), sample(f32::INFINITY, rgb(0, 1, 0))];
    assert_eq!(nearest(&s), Sample { distance: MAX_FINITE, color: Color::White });
}

#[test]
fn blend_constant_must_be_positive() {
    assert_eq!(check_blend_constant(30.0f32.to_bits()), Ok(()));
    assert_eq!(check_blend_constant(f32::MIN_POSITIVE.to_bits()), Ok(()));
    for k in [0.0f32, -0.0, -1.0, f32::NAN, f32::NEG_INFINITY] {
        assert_eq!(
            check_blend_constant(k.to_bits()),
            Err(SceneError::BlendConstantNotPositive { k: k.to_bits() })
        );
    }
}

#[test]
fn blend_needs_two_true_colors() {
    assert_eq!(blend_channels(rgb(255, 100, 100), rgb(150, 150, 255)), Ok(((255, 100, 100), (150, 150, 255))));
    assert_eq!(
        blend_channels(Color::White, rgb(1, 2, 3)),
        Err(SceneError::FirstChildUnresolved { color: Color::White })
    );
    assert_eq!(
        blend_channels(Color::Black, Color::White),
        Err(SceneError::FirstChildUnresolved { color: Color::Black })
    );
    assert_eq!(
        blend_channels(rgb(1, 2, 3), Color::Black),
        Err(SceneError::SecondChildUnresolved { color: Color::Black })
    );
}

#[test]
fn channels_of_colors() {
    assert_eq!(rgb(230, 255, 230).channels(), Some((230, 255, 230)));
    assert_eq!(Color::White.channels(), None);
    assert_eq!(Color::Black.channels(), None);
}
