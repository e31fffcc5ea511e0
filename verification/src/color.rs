use vstd::prelude::*;

verus! {

/// An 8-bit-per-channel RGBA color.
#[derive(Clone, Copy, Debug, PartialEq, Eq, Structural)]
pub struct Color {
    pub r: u8,
    pub g: u8,
    pub b: u8,
    pub a: u8,
}

impl Color {
    pub open spec fn opaque_spec(r: u8, g: u8, b: u8) -> Color {
        Color { r, g, b, a: 255 }
    }

    /// A fully opaque color with the given channels.
    pub fn opaque(r: u8, g: u8, b: u8) -> (c: Color)
        ensures
            c == Self::opaque_spec(r, g, b),
    {
        Color { r, g, b, a: 255 }
    }

    pub fn red() -> (c: Color)
        ensures
            c == Self::opaque_spec(255, 0, 0),
    {
        Color::opaque(255, 0, 0)
    }

    pub fn green() -> (c: Color)
        ensures
            c == Self::opaque_spec(0, 255, 0),
    {
        Color::opaque(0, 255, 0)
    }

    pub fn blue() -> (c: Color)
        ensures
            c == Self::opaque_spec(0, 0, 255),
    {
        Color::opaque(0, 0, 255)
    }
}

} // verus!
