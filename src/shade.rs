//! How a surface point is coloured once its shadow ray has been marched.
use vstd::prelude::*;
use crate::binary32::{value_lt, less_than};
use crate::color::{Color, SceneError, channels_of};

verus! {

/// How the colour of a surface point is formed.
#[derive(Clone, Copy, Debug, PartialEq, Eq, Structural)]
pub enum Shading {
    /// The light is reached: the channels are scaled by the diffuse brightness.
    Lit { r: u8, g: u8, b: u8 },
    /// The shadow ray stopped short of the light: the channels are scaled by
    /// the diffuse brightness, attenuated by the penumbra.
    Shadowed { r: u8, g: u8, b: u8 },
    /// The light is reached and the colour is a named one: it is kept as is.
    Unchanged { color: Color },
}

/// The shadow ray stopped short of the light.
pub open spec fn in_shadow(reached: u32, light_distance: u32) -> bool {
    value_lt(reached, light_distance)
}

/// Decides how a surface point of colour `color` is shaded, given how far its
/// shadow ray got (`reached`) and the distance to the light, as binary32 bits.
/// A point in shadow must carry a concrete RGB colour.
pub fn surface_shading(color: Color, reached: u32, light_distance: u32) -> (r: Result<
    Shading,
    SceneError,
>)
    ensures
        match (channels_of(color), in_shadow(reached, light_distance)) {
            (Some((cr, cg, cb)), true) => r == Ok::<_, SceneError>(
                Shading::Shadowed { r: cr, g: cg, b: cb },
            ),
            (Some((cr, cg, cb)), false) => r == Ok::<_, SceneError>(
                Shading::Lit { r: cr, g: cg, b: cb },
            ),
            (None, true) => r == Err::<Shading, _>(SceneError::ShadedUnresolved { color }),
            (None, false) => r == Ok::<_, SceneError>(Shading::Unchanged { color }),
        },
{
    let shadowed = less_than(reached, light_distance);
    match color.channels() {
        Some((cr, cg, cb)) => {
            if shadowed {
                Ok(Shading::Shadowed { r: cr, g: cg, b: cb })
            } else {
                Ok(Shading::Lit { r: cr, g: cg, b: cb })
            }
        },
        None => {
            if shadowed {
                Err(SceneError::ShadedUnresolved { color })
            } else {
                Ok(Shading::Unchanged { color })
            }
        },
    }
}

} // verus!
