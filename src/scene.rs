//! Aggregation of a scene: which of the top-level nodes is nearest to a query
//! point, and the checks that a smooth union makes on its inputs.
use vstd::prelude::*;
use crate::binary32::{MAX_FINITE, ZERO, is_nan, scaled_value, value_lt, less_than};
use crate::color::{Color, SceneError, channels_of};

verus! {

/// What one node reports at a query point: its signed distance, as binary32
/// bits, and its colour.
#[derive(Clone, Copy, Debug, PartialEq, Eq, Structural)]
pub struct Sample {
    pub distance: u32,
    pub color: Color,
}

/// What the scan reports when no node is nearer than the largest finite
/// distance.
pub open spec fn far_sample() -> Sample {
    Sample { distance: MAX_FINITE, color: Color::White }
}

/// Some node is nearer than the largest finite distance.
pub open spec fn has_near(s: Seq<Sample>) -> bool {
    exists|j: int| 0 <= j < s.len() && value_lt(#[trigger] s[j].distance, MAX_FINITE)
}

/// Node `i` is the one the scan keeps: it is nearer than the largest finite
/// distance, no node is nearer, and every node before it is strictly farther.
/// NaN distances are never chosen and never displace a choice.
pub open spec fn is_nearest(s: Seq<Sample>, i: int) -> bool {
    &&& 0 <= i < s.len()
    &&& value_lt(s[i].distance, MAX_FINITE)
    &&& forall|j: int|
        0 <= j < s.len() && !is_nan(#[trigger] s[j].distance) ==> scaled_value(s[i].distance)
            <= scaled_value(s[j].distance)
    &&& forall|j: int|
        0 <= j < i && !is_nan(#[trigger] s[j].distance) ==> scaled_value(s[i].distance)
            < scaled_value(s[j].distance)
}

/// The sample that a scene reports at a point, given what each of its nodes
/// reports there, in order.
pub open spec fn scene_sample(s: Seq<Sample>) -> Sample {
    if has_near(s) {
        s[choose|i: int| is_nearest(s, i)]
    } else {
        far_sample()
    }
}

/// At most one node is the nearest: the scan's choice is fixed by the samples
/// alone, so evaluating the same samples again reports the same sample.
pub proof fn lemma_nearest_unique(s: Seq<Sample>, i: int, j: int)
    requires
        is_nearest(s, i),
        is_nearest(s, j),
    ensures
        i == j,
{
    if i < j {
        assert(scaled_value(s[j].distance) < scaled_value(s[i].distance));
    } else if j < i {
        assert(scaled_value(s[i].distance) < scaled_value(s[j].distance));
    }
}

/// Two nodes at exactly the same distance, nearer than every other node: the
/// scene reports the one that comes first.
pub proof fn lemma_tie_goes_to_first(s: Seq<Sample>, i: int, j: int)
    requires
        0 <= i < j < s.len(),
        value_lt(s[i].distance, MAX_FINITE),
        !is_nan(s[j].distance),
        scaled_value(s[i].distance) == scaled_value(s[j].distance),
        forall|k: int|
            0 <= k < s.len() && k != i && k != j && !is_nan(#[trigger] s[k].distance)
                ==> scaled_value(s[i].distance) < scaled_value(s[k].distance),
    ensures
        scene_sample(s) == s[i],
{
    assert(is_nearest(s, i));
    assert(has_near(s));
    let c = choose|c: int| is_nearest(s, c);
    lemma_nearest_unique(s, i, c);
}

/// The nearest node's sample, scanning the nodes in order and keeping a node
/// only when it is strictly nearer than the one kept so far, starting from the
/// largest finite distance and white.
pub fn nearest(samples: &Vec<Sample>) -> (r: Sample)
    ensures
        r == scene_sample(samples@),
{
    let mut best: Option<usize> = None;
    let mut i: usize = 0;
    while i < samples.len()
        invariant
            i <= samples.len(),
            best.is_none() ==> forall|j: int|
                0 <= j < i ==> !value_lt(#[trigger] samples@[j].distance, MAX_FINITE),
            best.is_some() ==> ({
                let b = best.unwrap() as int;
                &&& b < i
                &&& value_lt(samples@[b].distance, MAX_FINITE)
                &&& forall|j: int|
                    0 <= j < i && !is_nan(#[trigger] samples@[j].distance) ==> scaled_value(
                        samples@[b].distance,
                    ) <= scaled_value(samples@[j].distance)
                &&& forall|j: int|
                    0 <= j < b && !is_nan(#[trigger] samples@[j].distance) ==> scaled_value(
                        samples@[b].distance,
                    ) < scaled_value(samples@[j].distance)
            }),
        decreases samples.len() - i,
    {
        let current = match best {
            Some(b) => samples[b].distance,
            None => MAX_FINITE,
        };
        if less_than(samples[i].distance, current) {
            best = Some(i);
        }
        i = i + 1;
    }
    match best {
        Some(b) => {
            proof {
                let s = samples@;
                assert(is_nearest(s, b as int));
                assert(has_near(s));
                let c = choose|c: int| is_nearest(s, c);
                lemma_nearest_unique(s, b as int, c);
            }
            samples[b]
        },
        None => Sample { distance: MAX_FINITE, color: Color::White },
    }
}

/// Checks the blend constant of a smooth union: it must be a positive number,
/// since the blend divides by twice its value.
pub fn check_blend_constant(k: u32) -> (r: Result<(), SceneError>)
    ensures
        r is Ok <==> value_lt(ZERO, k),
        r is Err ==> r == Err::<(), SceneError>(SceneError::BlendConstantNotPositive { k }),
{
    if less_than(ZERO, k) {
        Ok(())
    } else {
        Err(SceneError::BlendConstantNotPositive { k })
    }
}

/// The RGB channels of the two colours that a smooth union blends. Both must be
/// concrete triples; the first that is not is reported.
pub fn blend_channels(first: Color, second: Color) -> (r: Result<
    ((u8, u8, u8), (u8, u8, u8)),
    SceneError,
>)
    ensures
        match (channels_of(first), channels_of(second)) {
            (Some(a), Some(b)) => r == Ok::<_, SceneError>((a, b)),
            (None, _) => r == Err::<((u8, u8, u8), (u8, u8, u8)), _>(
                SceneError::FirstChildUnresolved { color: first },
            ),
            (Some(_), None) => r == Err::<((u8, u8, u8), (u8, u8, u8)), _>(
                SceneError::SecondChildUnresolved { color: second },
            ),
        },
{
    match first.channels() {
        None => Err(SceneError::FirstChildUnresolved { color: first }),
        Some(a) => match second.channels() {
            None => Err(SceneError::SecondChildUnresolved { color: second }),
            Some(b) => Ok((a, b)),
        },
    }
}

} // verus!
