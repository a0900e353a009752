//! RGB colors as passed along with every cell draw.

use vstd::prelude::*;

verus! {

/// An RGB color with 8-bit channels. Colors are opaque to the drawing logic:
/// they are attached to draws unchanged, and a later draw to the same cell
/// simply wins.
#[derive(Clone, Copy, Debug, PartialEq, Eq, Structural)]
pub struct Rgb {
    pub r: u8,
    pub g: u8,
    pub b: u8,
}

/// Creates an RGB color from its three channels.
pub fn rgb(r: u8, g: u8, b: u8) -> (c: Rgb)
    ensures
        c == (Rgb { r, g, b }),
{
    Rgb { r, g, b }
}

} // verus!
