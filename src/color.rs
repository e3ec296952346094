//! Colours carried by scene nodes, and the errors raised when a colour cannot
//! be used where a concrete RGB triple is needed.
use vstd::prelude::*;

verus! {

/// A colour: a concrete RGB triple, or one of the named colours that stand in
/// before a node has been given one.
#[derive(Clone, Copy, Debug, PartialEq, Eq, Structural)]
pub enum Color {
    White,
    Black,
    TrueColor { r: u8, g: u8, b: u8 },
}

/// The RGB channels of a colour, where it has them.
pub open spec fn channels_of(c: Color) -> Option<(u8, u8, u8)> {
    match c {
        Color::TrueColor { r, g, b } => Some((r, g, b)),
        _ => None,
    }
}

impl Color {
    /// The RGB channels, or `None` for a named colour.
    pub fn channels(&self) -> (r: Option<(u8, u8, u8)>)
        ensures
            r == channels_of(*self),
    {
        match *self {
            Color::TrueColor { r, g, b } => Some((r, g, b)),
            _ => None,
        }
    }
}

/// Why a scene cannot be built or evaluated.
#[derive(Clone, Copy, Debug, PartialEq, Eq, Structural)]
pub enum SceneError {
    /// A smooth union's blend constant is not a positive number.
    BlendConstantNotPositive { k: u32 },
    /// The first child of a smooth union carries a named colour.
    FirstChildUnresolved { color: Color },
    /// The second child of a smooth union carries a named colour.
    SecondChildUnresolved { color: Color },
    /// A surface in shadow carries a named colour, so it cannot be dimmed.
    ShadedUnresolved { color: Color },
}

} // verus!
