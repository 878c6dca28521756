//! Display colours of the elements, as 8-bit RGBA channels.

use vstd::prelude::*;

verus! {

/// A colour with 8 bits per channel.
#[derive(Copy, Clone, Debug, PartialEq, Eq, Structural)]
pub struct Color {
    pub r: u8,
    pub g: u8,
    pub b: u8,
    pub a: u8,
}

impl Color {
    pub open spec fn white() -> Color {
        Color { r: 255, g: 255, b: 255, a: 255 }
    }

    pub open spec fn blue() -> Color {
        Color { r: 0, g: 0, b: 255, a: 255 }
    }
}

} // verus!
