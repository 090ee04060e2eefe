//! Pixels: four 8-bit channels, and the luma on which pixels are compared.

use vstd::prelude::*;

verus! {

/// A pixel with red, green, blue and alpha channel.
#[derive(Clone, Copy, Debug, PartialEq, Eq, Structural)]
pub struct Rgba {
    pub r: u8,
    pub g: u8,
    pub b: u8,
    pub a: u8,
}

/// The luma that the `image` crate computes for an RGBA pixel with the given
/// channels.
pub uninterp spec fn rgba_luma(r: u8, g: u8, b: u8, a: u8) -> u8;

/// Calls `image::Pixel::to_luma` on the `image::Rgba<u8>` with the channels of
/// `p`, and takes the single channel of the `image::Luma<u8>` that comes back.
/// Trusted: the result is a function of the four channels alone, named
/// `rgba_luma`. Nothing else is claimed of it.
#[verifier::external_body]
fn to_luma(p: Rgba) -> (l: u8)
    ensures
        l == rgba_luma(p.r, p.g, p.b, p.a),
{
    image::Pixel::to_luma(&image::Rgba([p.r, p.g, p.b, p.a])).0[0]
}

impl Rgba {
    /// The luma of the pixel as a specification value.
    pub open spec fn luma_of(self) -> u8 {
        rgba_luma(self.r, self.g, self.b, self.a)
    }

    /// The pixel with the given channels, in the order red, green, blue,
    /// alpha.
    pub open spec fn of(c: [u8; 4]) -> Rgba {
        Rgba { r: c[0], g: c[1], b: c[2], a: c[3] }
    }

    /// The pixel with the given channels, in the order red, green, blue,
    /// alpha.
    pub fn from_channels(c: [u8; 4]) -> (p: Rgba)
        ensures
            p == Rgba::of(c),
    {
        Rgba { r: c[0], g: c[1], b: c[2], a: c[3] }
    }

    /// The luma of the pixel: its perceptual brightness in `0..=255`.
    pub fn luma(self) -> (l: u8)
        ensures
            l == self.luma_of(),
    {
        to_luma(self)
    }
}

/// The colour with which a differing pixel is painted: red, with no alpha.
pub open spec fn spec_diff_marker() -> Rgba {
    Rgba { r: 255, g: 0, b: 0, a: 0 }
}

/// The colour with which a differing pixel is painted: red, with no alpha.
#[verifier::when_used_as_spec(spec_diff_marker)]
pub fn diff_marker() -> (c: Rgba)
    ensures
        c == spec_diff_marker(),
{
    Rgba { r: 255, g: 0, b: 0, a: 0 }
}

/// The colour with which a bounding box is outlined: green, with no alpha.
pub open spec fn spec_box_marker() -> Rgba {
    Rgba { r: 0, g: 255, b: 0, a: 0 }
}

/// The colour with which a bounding box is outlined: green, with no alpha.
#[verifier::when_used_as_spec(spec_box_marker)]
pub fn box_marker() -> (c: Rgba)
    ensures
        c == spec_box_marker(),
{
    Rgba { r: 0, g: 255, b: 0, a: 0 }
}

/// Whether two pixels, given by their channels, differ in any channel. This
/// is the cheap test that sorts out identical pixels before lumas are
/// compared.
pub fn pixels_differ(p: [u8; 4], q: [u8; 4]) -> (d: bool)
    ensures
        d == (Rgba::of(p) != Rgba::of(q)),
{
    p[0] != q[0] || p[1] != q[1] || p[2] != q[2] || p[3] != q[3]
}

} // verus!
