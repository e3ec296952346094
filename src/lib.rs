//! The decisions of a sphere-tracing renderer for character-grid displays.
//!
//! Scene distances are binary32 numbers that the caller computes; they reach
//! this library as bit patterns, and every decision taken on them here (which
//! node is nearest, when a march hits, misses or runs out of steps, whether a
//! point is in shadow, whether a blend constant is usable) is proved to match
//! the comparison of the values they encode.
pub mod binary32;
pub mod color;
pub mod scene;
pub mod march;
pub mod shade;

use vstd::prelude::*;

verus! {

/// The size of the character grid that a frame is rendered into.
pub struct Screen {
    pub width: u32,
    pub height: u32,
}

impl Screen {
    pub fn new(width: u32, height: u32) -> (r: Screen)
        ensures
            r.width == width,
            r.height == height,
    {
        Screen { width, height }
    }
}

} // verus!
