//! Colors of pixels.
use vstd::prelude::*;

verus! {

/// A color with red, green, blue and alpha channels.
#[derive(Debug, Clone, Copy, PartialEq, Eq, Hash, Structural)]
pub struct Color {
    pub r: u8,
    pub g: u8,
    pub b: u8,
    pub a: u8,
}

impl Color {
    /// Opaque blue.
    pub fn blue() -> (res: Color)
        ensures
            res == (Color { r: 0, g: 0, b: 255, a: 255 }),
    {
        Color { r: 0, g: 0, b: 255, a: 255 }
    }

    /// Opaque red.
    pub fn red() -> (res: Color)
        ensures
            res == (Color { r: 255, g: 0, b: 0, a: 255 }),
    {
        Color { r: 255, g: 0, b: 0, a: 255 }
    }

    /// An opaque color.
    pub fn rgb(r: u8, g: u8, b: u8) -> (res: Color)
        ensures
            res == (Color { r, g, b, a: 255 }),
    {
        Color { r, g, b, a: 255 }
    }
}

} // verus!
