use rayscii::color::{Color, SceneError};
use rayscii::shade::{surface_shading, Shading};

fn bits(x: f32) -> u32 {
    x.to_bits()
}

#[test]
fn lit_true_color_is_scaled() {
    let c = Color::TrueColor { r: 10, g: 20, b: 30 };
    assert_eq!(surface_shading(c, bits(50.0), bits(50.0)), Ok(Shading::Lit { r: 10, g: 20, b: 30 }));
}

#[test]
fn shadowed_true_color_is_attenuated() {
    let c = Color::TrueColor { r: 10, g: 20, b: 30 };
    assert_eq!(
        surface_shading(c, bits(12.0), bits(50.0)),
        Ok(Shading::Shadowed { r: 10, g: 20, b: 30 })
    );
}

#[test]
fn lit_named_color_is_kept() {
    assert_eq!(
        surface_shading(Color::White, bits(60.0), bits(50.0)),
        Ok(Shading::Unchanged { color: Color::White })
    );
}

#[test]
fn shadowed_named_color_is_an_error() {
    assert_eq!(
        surface_shading(Color::Black, bits(1.0), bits(50.0)),
        Err(SceneError::ShadedUnresolved { color: Color::Black })
    );
}
