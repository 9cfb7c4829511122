use vstd::prelude::*;

verus! {

/// A single pixel: four 8-bit channels, red, green, blue, alpha.
#[derive(Clone, Copy, PartialEq, Eq, Structural, Debug)]
pub struct Pixel {
    pub r: u8,
    pub g: u8,
    pub b: u8,
    pub a: u8,
}

impl Pixel {
    /// The fully transparent black pixel a fresh canvas is filled with.
    pub open spec fn transparent_spec() -> Pixel {
        Pixel { r: 0, g: 0, b: 0, a: 0 }
    }

    /// The fully transparent black pixel a fresh canvas is filled with.
    pub fn transparent() -> (p: Pixel)
        ensures
            p == Pixel::transparent_spec(),
    {
        Pixel { r: 0, g: 0, b: 0, a: 0 }
    }
}

} // verus!
