//! Sphere tracing: the decisions taken at each step of a march along a ray, and
//! the march itself.
//!
//! The march reads the scene through two functions supplied by the caller: the
//! scene's sample at a distance along the ray, and the sum of two distances.
//! Both work on binary32 bits.
use vstd::prelude::*;
use crate::binary32::{MAX_FINITE, ZERO, value_lt, less_than};
use crate::color::Color;
use crate::scene::Sample;

verus! {

/// What a march step decides.
#[derive(Clone, Copy, Debug, PartialEq, Eq, Structural)]
pub enum MarchStep {
    /// The sample is within the hit threshold: the march ends on a surface.
    Hit,
    /// The advanced distance is beyond the maximum: the march ends in a miss.
    Miss,
    /// The march goes on from the advanced distance.
    Advance,
}

/// The state a ray accumulates while it is marched: the closest surface
/// distance seen so far, the colour seen there, and the steps taken.
#[derive(Clone, Copy, Debug, PartialEq, Eq, Structural)]
pub struct MarchTrack {
    pub closest_miss: u32,
    pub color: Color,
    pub march_count: u32,
}

/// The decision of one step, from the scene's distance at the current point,
/// the distance along the ray after advancing by it, the maximum distance and
/// the hit threshold.
pub open spec fn step_verdict(
    distance: u32,
    advanced: u32,
    max_distance: u32,
    hit_threshold: u32,
) -> MarchStep {
    if value_lt(distance, hit_threshold) {
        MarchStep::Hit
    } else if value_lt(max_distance, advanced) {
        MarchStep::Miss
    } else {
        MarchStep::Advance
    }
}

/// The state after one step: the sample becomes the closest one when it is
/// strictly nearer than the closest so far, whatever the step decides, and the
/// step count grows when the march goes on.
pub open spec fn next_track(
    track: MarchTrack,
    sample: Sample,
    advanced: u32,
    max_distance: u32,
    hit_threshold: u32,
) -> MarchTrack {
    let closer = value_lt(sample.distance, track.closest_miss);
    MarchTrack {
        closest_miss: if closer {
            sample.distance
        } else {
            track.closest_miss
        },
        color: if closer {
            sample.color
        } else {
            track.color
        },
        march_count: if step_verdict(sample.distance, advanced, max_distance, hit_threshold)
            == MarchStep::Advance {
            (track.march_count + 1) as u32
        } else {
            track.march_count
        },
    }
}

/// One step of a march as it was taken: the distance along the ray, the
/// scene's sample there, and the distance after advancing by that sample.
pub struct MarchRecord {
    pub at: u32,
    pub sample: Sample,
    pub advanced: u32,
}

pub open spec fn record_verdict(rec: MarchRecord, max_distance: u32, hit_threshold: u32) -> MarchStep {
    step_verdict(rec.sample.distance, rec.advanced, max_distance, hit_threshold)
}

/// `t` is what the two functions handed back along a march from distance
/// zero: each step starts where the previous one advanced to.
pub open spec fn is_march_trace<F: Fn(u32) -> Sample, G: Fn(u32, u32) -> u32>(
    sample_at: F,
    advance: G,
    t: Seq<MarchRecord>,
) -> bool {
    &&& forall|k: int|
        0 <= k < t.len() ==> sample_at.ensures((#[trigger] t[k].at,), t[k].sample)
            && advance.ensures((t[k].at, t[k].sample.distance), t[k].advanced)
    &&& t.len() > 0 ==> t[0].at == ZERO
    &&& forall|k: int| 0 <= k < t.len() - 1 ==> #[trigger] t[k + 1].at == t[k].advanced
}

/// The march stops exactly where the verdicts say: every step but the last
/// goes on, and the last ends the march unless the steps ran out.
pub open spec fn march_ends(
    t: Seq<MarchRecord>,
    max_iterations: u32,
    max_distance: u32,
    hit_threshold: u32,
) -> bool {
    &&& t.len() <= max_iterations
    &&& forall|k: int|
        0 <= k < t.len() - 1 ==> record_verdict(#[trigger] t[k], max_distance, hit_threshold)
            == MarchStep::Advance
    &&& t.len() < max_iterations ==> t.len() > 0 && record_verdict(
        t.last(),
        max_distance,
        hit_threshold,
    ) != MarchStep::Advance
}

/// The distance a march reports: zero when no step was taken, the distance of
/// the hit, the maximum on a miss, or the last advanced distance when the steps
/// ran out.
pub open spec fn march_result(t: Seq<MarchRecord>, max_distance: u32, hit_threshold: u32) -> u32 {
    if t.len() == 0 {
        ZERO
    } else {
        match record_verdict(t.last(), max_distance, hit_threshold) {
            MarchStep::Hit => t.last().at,
            MarchStep::Miss => max_distance,
            MarchStep::Advance => t.last().advanced,
        }
    }
}

/// The tracked state after the steps of `t`.
pub open spec fn track_after(
    start: MarchTrack,
    t: Seq<MarchRecord>,
    max_distance: u32,
    hit_threshold: u32,
) -> MarchTrack
    decreases t.len(),
{
    if t.len() == 0 {
        start
    } else {
        let rec = t.last();
        next_track(
            track_after(start, t.drop_last(), max_distance, hit_threshold),
            rec.sample,
            rec.advanced,
            max_distance,
            hit_threshold,
        )
    }
}

impl MarchTrack {
    /// The state of a ray that has not been marched: nothing seen yet (the
    /// largest finite distance), white, no steps.
    pub fn new() -> (r: MarchTrack)
        ensures
            r.closest_miss == MAX_FINITE,
            r.color == Color::White,
            r.march_count == 0,
    {
        MarchTrack { closest_miss: MAX_FINITE, color: Color::White, march_count: 0 }
    }

    /// One step of the march.
    pub fn step(&mut self, sample: Sample, advanced: u32, max_distance: u32, hit_threshold: u32) -> (r:
        MarchStep)
        requires
            old(self).march_count < u32::MAX,
        ensures
            r == step_verdict(sample.distance, advanced, max_distance, hit_threshold),
            *final(self) == next_track(*old(self), sample, advanced, max_distance, hit_threshold),
    {
        if less_than(sample.distance, self.closest_miss) {
            self.color = sample.color;
            self.closest_miss = sample.distance;
        }
        if less_than(sample.distance, hit_threshold) {
            MarchStep::Hit
        } else if less_than(max_distance, advanced) {
            MarchStep::Miss
        } else {
            self.march_count = self.march_count + 1;
            MarchStep::Advance
        }
    }
}

/// Extending a trace by a step taken where the last one advanced to.
proof fn lemma_trace_push<F: Fn(u32) -> Sample, G: Fn(u32, u32) -> u32>(
    sample_at: F,
    advance: G,
    t: Seq<MarchRecord>,
    rec: MarchRecord,
)
    requires
        is_march_trace(sample_at, advance, t),
        sample_at.ensures((rec.at,), rec.sample),
        advance.ensures((rec.at, rec.sample.distance), rec.advanced),
        rec.at == (if t.len() == 0 {
            ZERO
        } else {
            t.last().advanced
        }),
    ensures
        is_march_trace(sample_at, advance, t.push(rec)),
{
    let u = t.push(rec);
    assert forall|k: int| 0 <= k < u.len() implies sample_at.ensures((#[trigger] u[k].at,), u[k].sample)
        && advance.ensures((u[k].at, u[k].sample.distance), u[k].advanced) by {
        if k < t.len() {
            assert(u[k] == t[k]);
        }
    }
    assert forall|k: int| 0 <= k < u.len() - 1 implies #[trigger] u[k + 1].at == u[k].advanced by {
        assert(u[k] == t[k]);
        if k + 1 < t.len() {
            assert(u[k + 1] == t[k + 1]);
        }
    }
}

/// The tracked state after one more step.
proof fn lemma_track_push(
    start: MarchTrack,
    t: Seq<MarchRecord>,
    rec: MarchRecord,
    max_distance: u32,
    hit_threshold: u32,
)
    ensures
        track_after(start, t.push(rec), max_distance, hit_threshold) == next_track(
            track_after(start, t, max_distance, hit_threshold),
            rec.sample,
            rec.advanced,
            max_distance,
            hit_threshold,
        ),
{
    assert(t.push(rec).drop_last() =~= t);
}

/// Marches a ray from distance zero for at most `max_iterations` steps.
///
/// `sample_at(d)` is the scene's sample at distance `d` along the ray, and
/// `advance(d, s)` is `d + s`. Whatever they return, the result and the final
/// state are those of the steps taken on what they returned: the distance of
/// the hit, `max_distance` on a miss, or the distance reached when the steps
/// run out.
pub fn ray_march<F, G>(
    track: &mut MarchTrack,
    sample_at: F,
    advance: G,
    max_iterations: u32,
    max_distance: u32,
    hit_threshold: u32,
) -> (r: u32) where F: Fn(u32) -> Sample, G: Fn(u32, u32) -> u32
    requires
        old(track).march_count + max_iterations <= u32::MAX,
        forall|d: u32| sample_at.requires((d,)),
        forall|d: u32, s: u32| advance.requires((d, s)),
    ensures
        exists|t: Seq<MarchRecord>|
            {
                &&& is_march_trace(sample_at, advance, t)
                &&& march_ends(t, max_iterations, max_distance, hit_threshold)
                &&& r == march_result(t, max_distance, hit_threshold)
                &&& *final(track) == track_after(*old(track), t, max_distance, hit_threshold)
            },
{
    let ghost start = *track;
    let ghost mut t: Seq<MarchRecord> = Seq::empty();
    let mut distance: u32 = ZERO;
    let mut i: u32 = 0;
    while i < max_iterations
        invariant
            i <= max_iterations,
            t.len() == i,
            track.march_count == start.march_count + i,
            start == *old(track),
            start.march_count + max_iterations <= u32::MAX,
            is_march_trace(sample_at, advance, t),
            forall|k: int|
                0 <= k < t.len() ==> record_verdict(#[trigger] t[k], max_distance, hit_threshold)
                    == MarchStep::Advance,
            distance == (if t.len() == 0 {
                ZERO
            } else {
                t.last().advanced
            }),
            *track == track_after(start, t, max_distance, hit_threshold),
            forall|d: u32| sample_at.requires((d,)),
            forall|d: u32, s: u32| advance.requires((d, s)),
        decreases max_iterations - i,
    {
        let sample = sample_at(distance);
        let advanced = advance(distance, sample.distance);
        let ghost rec = MarchRecord { at: distance, sample, advanced };
        proof {
            lemma_trace_push(sample_at, advance, t, rec);
            lemma_track_push(start, t, rec, max_distance, hit_threshold);
        }
        let ghost before = t;
        proof {
            t = t.push(rec);
            assert forall|k: int| 0 <= k < t.len() - 1 implies record_verdict(
                #[trigger] t[k],
                max_distance,
                hit_threshold,
            ) == MarchStep::Advance by {
                assert(t[k] == before[k]);
            }
        }
        let verdict = track.step(sample, advanced, max_distance, hit_threshold);
        assert(t.last() == rec);
        assert(record_verdict(rec, max_distance, hit_threshold) == verdict);
        assert(*track == track_after(start, t, max_distance, hit_threshold));
        match verdict {
            MarchStep::Hit => {
                assert(march_ends(t, max_iterations, max_distance, hit_threshold));
                assert(distance == march_result(t, max_distance, hit_threshold));
                return distance;
            },
            MarchStep::Miss => {
                assert(march_ends(t, max_iterations, max_distance, hit_threshold));
                assert(max_distance == march_result(t, max_distance, hit_threshold));
                return max_distance;
            },
            MarchStep::Advance => {
                distance = advanced;
            },
        }
        i = i + 1;
    }
    proof {
        if t.len() > 0 {
            assert(record_verdict(t[t.len() - 1], max_distance, hit_threshold)
                == MarchStep::Advance);
        }
    }
    assert(march_ends(t, max_iterations, max_distance, hit_threshold));
    assert(distance == march_result(t, max_distance, hit_threshold));
    distance
}

} // verus!
