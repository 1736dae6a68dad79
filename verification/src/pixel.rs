//! The pixel contract buffers are generic over, and a few concrete pixel
//! types.
//!
//! A pixel is any plain `Copy` value with a designated blank value; the blank
//! value is what [`crate::buffer::ImgBuf::new`] fills a fresh buffer with.
//! Channel-array access, colour spaces and packed encodings live outside this
//! core and work through these same types.

use vstd::prelude::*;

verus! {

/// Trait for types that can be stored as the pixels of an image buffer.
pub trait Pixel: Sized + Copy {
    /// The blank value, at the specification level.
    spec fn spec_default_pixel() -> Self;

    /// Returns the blank value that a freshly allocated buffer is filled
    /// with.
    fn default_pixel() -> (r: Self)
        ensures
            r == Self::spec_default_pixel(),
    ;
}

impl Pixel for u8 {
    open spec fn spec_default_pixel() -> u8 {
        0
    }

    fn default_pixel() -> u8 {
        0
    }
}

impl Pixel for u16 {
    open spec fn spec_default_pixel() -> u16 {
        0
    }

    fn default_pixel() -> u16 {
        0
    }
}

impl Pixel for u32 {
    open spec fn spec_default_pixel() -> u32 {
        0
    }

    fn default_pixel() -> u32 {
        0
    }
}

/// An RGB pixel with three 8-bit channels.
#[derive(Debug, Clone, Copy, PartialEq, Eq, Structural)]
pub struct Rgb8 {
    pub r: u8,
    pub g: u8,
    pub b: u8,
}

impl Pixel for Rgb8 {
    open spec fn spec_default_pixel() -> Rgb8 {
        Rgb8 { r: 0, g: 0, b: 0 }
    }

    fn default_pixel() -> Rgb8 {
        Rgb8 { r: 0, g: 0, b: 0 }
    }
}

/// An RGBA pixel with four 8-bit channels.
#[derive(Debug, Clone, Copy, PartialEq, Eq, Structural)]
pub struct Rgba8 {
    pub r: u8,
    pub g: u8,
    pub b: u8,
    pub a: u8,
}

impl Pixel for Rgba8 {
    open spec fn spec_default_pixel() -> Rgba8 {
        Rgba8 { r: 0, g: 0, b: 0, a: 0 }
    }

    fn default_pixel() -> Rgba8 {
        Rgba8 { r: 0, g: 0, b: 0, a: 0 }
    }
}

} // verus!
