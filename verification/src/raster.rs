//! Image buffers: a rectangular grid of RGBA pixels, stored row by row.

use vstd::prelude::*;
use vstd::arithmetic::div_mod::lemma_fundamental_div_mod;
use vstd::arithmetic::div_mod::lemma_fundamental_div_mod_converse;
use crate::pixel::Rgba;

verus! {

/// The largest width and the largest height of an image. Pixel coordinates
/// are handed out as `i32`, so neither side may exceed `i32::MAX`.
pub const MAX_SIDE: u32 = 0x7fff_ffff;

/// The mathematical model of an image: its size and its pixels in row-major
/// order, the pixel at `(x, y)` standing at index `y * width + x`.
pub struct Raster {
    pub width: nat,
    pub height: nat,
    pub pixels: Seq<Rgba>,
}

impl Raster {
    /// There is one pixel for every coordinate, and both sides fit a
    /// coordinate.
    pub open spec fn wf(self) -> bool {
        &&& self.width <= MAX_SIDE
        &&& self.height <= MAX_SIDE
        &&& self.pixels.len() == self.width * self.height
    }

    /// Whether `(x, y)` is a coordinate of the image.
    pub open spec fn contains(self, x: int, y: int) -> bool {
        0 <= x < self.width && 0 <= y < self.height
    }

    /// The pixel at `(x, y)`.
    pub open spec fn at(self, x: int, y: int) -> Rgba {
        self.pixels[y * self.width + x]
    }

    /// Whether two images have the same width and the same height.
    pub open spec fn same_size(self, other: Raster) -> bool {
        self.width == other.width && self.height == other.height
    }

    /// The coordinate of the pixel at index `i`.
    pub open spec fn coord(self, i: int) -> (u32, u32) {
        ((i % (self.width as int)) as u32, (i / (self.width as int)) as u32)
    }

    /// All coordinates of the image in row-major order: the whole first row
    /// from left to right, then the second row, and so on.
    pub open spec fn coords(self) -> Seq<(u32, u32)> {
        Seq::new(self.pixels.len(), |i: int| self.coord(i))
    }

    /// The image with the pixel at `(x, y)` replaced by `p`.
    pub open spec fn with_pixel(self, x: int, y: int, p: Rgba) -> Raster {
        Raster { pixels: self.pixels.update(y * self.width + x, p), ..self }
    }
}

/// The image of the given size whose pixels are laid out in `data` row by
/// row, four bytes to the pixel in the order red, green, blue, alpha.
pub open spec fn decode(width: nat, height: nat, data: Seq<u8>) -> Raster {
    Raster {
        width,
        height,
        pixels: Seq::new(
            width * height,
            |i: int| (Rgba { r: data[4 * i], g: data[4 * i + 1], b: data[4 * i + 2], a: data[4 * i + 3] }),
        ),
    }
}

/// A coordinate inside a grid has an index inside the grid's row-major
/// listing.
pub proof fn lemma_index_in_range(width: int, height: int, x: int, y: int)
    requires
        0 <= x < width,
        0 <= y < height,
    ensures
        0 <= y * width + x < width * height,
{
    assert(y * width >= 0) by (nonlinear_arith)
        requires
            y >= 0,
            width > 0,
    ;
    assert((y + 1) * width <= height * width) by (nonlinear_arith)
        requires
            y + 1 <= height,
            width > 0,
    ;
    assert((y + 1) * width == y * width + width) by (nonlinear_arith);
    assert(height * width == width * height) by (nonlinear_arith);
}

/// The index of a coordinate leads back to the coordinate.
pub proof fn lemma_index_to_coord(width: int, x: int, y: int)
    requires
        0 <= x < width,
        0 <= y,
    ensures
        (y * width + x) % width == x,
        (y * width + x) / width == y,
{
    lemma_fundamental_div_mod_converse(y * width + x, width, y, x);
}

/// An index inside a grid's row-major listing belongs to a coordinate inside
/// the grid, and that coordinate leads back to the index.
pub proof fn lemma_coord_in_range(width: int, height: int, i: int)
    requires
        0 <= i < width * height,
        0 <= width,
        0 <= height,
    ensures
        0 <= i % width < width,
        0 <= i / width < height,
        (i / width) * width + i % width == i,
{
    assert(width > 0) by (nonlinear_arith)
        requires
            0 <= i < width * height,
            0 <= width,
    ;
    lemma_fundamental_div_mod(i, width);
    let q = i / width;
    let r = i % width;
    assert(width * q == q * width) by (nonlinear_arith);
    assert(0 <= r < width);
    assert(q >= 0) by (nonlinear_arith)
        requires
            q * width + r == i,
            0 <= i,
            0 <= r < width,
    ;
    assert(q < height) by (nonlinear_arith)
        requires
            q * width + r == i,
            i < width * height,
            0 <= r,
            width > 0,
    ;
}

/// An image buffer. The pixels are stored as bytes, row by row, four bytes to
/// the pixel.
#[derive(Clone, Debug, PartialEq, Eq)]
pub struct Image {
    width: u32,
    height: u32,
    data: Vec<u8>,
}

impl View for Image {
    type V = Raster;

    closed spec fn view(&self) -> Raster {
        decode(self.width as nat, self.height as nat, self.data@)
    }
}

impl Image {
    /// The invariant of an image buffer: the byte buffer holds exactly the
    /// pixels of the grid, and both sides are at most `MAX_SIDE`.
    pub closed spec fn wf(&self) -> bool {
        &&& self.width <= MAX_SIDE
        &&& self.height <= MAX_SIDE
        &&& self.data@.len() == 4 * (self.width * self.height)
    }

    /// The bytes of the buffer.
    pub closed spec fn raw(&self) -> Seq<u8> {
        self.data@
    }

    /// What a well-formed buffer means for its model and its bytes.
    pub proof fn lemma_wf(&self)
        requires
            self.wf(),
        ensures
            self@.wf(),
            self.raw().len() == 4 * (self@.width * self@.height),
            self@ == decode(self@.width, self@.height, self.raw()),
    {
    }

    /// Makes an image of the given size from its bytes. The buffer must hold
    /// exactly `4 * width * height` bytes, and neither side may exceed
    /// `MAX_SIDE`; otherwise there is no image.
    pub fn from_raw(width: u32, height: u32, data: Vec<u8>) -> (r: Option<Image>)
        ensures
            r.is_some() <==> (width <= MAX_SIDE && height <= MAX_SIDE && data@.len() == 4 * (width
                * height)),
            r matches Some(img) ==> img.wf() && img.raw() == data@ && img@ == decode(
                width as nat,
                height as nat,
                data@,
            ),
    {
        if width > MAX_SIDE || height > MAX_SIDE {
            return None;
        }
        assert(width * height <= 0x7fff_ffff * 0x7fff_ffff) by (nonlinear_arith)
            requires
                width <= 0x7fff_ffff,
                height <= 0x7fff_ffff,
        ;
        let area: u64 = (width as u64) * (height as u64);
        let size: u64 = 4 * area;
        if data.len() as u64 != size {
            return None;
        }
        Some(Image { width, height, data })
    }

    /// Gives up the image for its bytes.
    pub fn into_raw(self) -> (data: Vec<u8>)
        requires
            self.wf(),
        ensures
            data@ == self.raw(),
    {
        self.data
    }

    /// The bytes of the image: row by row, four bytes to the pixel.
    pub fn as_raw(&self) -> (data: &Vec<u8>)
        ensures
            data@ == self.raw(),
    {
        &self.data
    }

    /// The width of the image in pixels.
    pub fn width(&self) -> (w: u32)
        ensures
            w == self@.width,
    {
        self.width
    }

    /// The height of the image in pixels.
    pub fn height(&self) -> (h: u32)
        ensures
            h == self@.height,
    {
        self.height
    }

    /// The pixel at `(x, y)`, which must lie inside the image.
    pub fn get_pixel(&self, x: u32, y: u32) -> (p: Rgba)
        requires
            self.wf(),
            self@.contains(x as int, y as int),
        ensures
            p == self@.at(x as int, y as int),
    {
        proof {
            lemma_index_in_range(self.width as int, self.height as int, x as int, y as int);
            assert(self.data@.len() == self.data.len());
            assert(0 <= y * self.width <= y * self.width + x);
        }
        let i: usize = (y as usize) * (self.width as usize) + (x as usize);
        let at: usize = 4 * i;
        Rgba { r: self.data[at], g: self.data[at + 1], b: self.data[at + 2], a: self.data[at + 3] }
    }

    /// Overwrites the pixel at `(x, y)`, which must lie inside the image.
    pub fn put_pixel(&mut self, x: u32, y: u32, p: Rgba)
        requires
            old(self).wf(),
            old(self)@.contains(x as int, y as int),
        ensures
            final(self).wf(),
            final(self)@ == old(self)@.with_pixel(x as int, y as int, p),
    {
        proof {
            lemma_index_in_range(self.width as int, self.height as int, x as int, y as int);
            assert(self.data@.len() == self.data.len());
            assert(0 <= y * self.width <= y * self.width + x);
        }
        let i: usize = (y as usize) * (self.width as usize) + (x as usize);
        let at: usize = 4 * i;
        self.data.set(at, p.r);
        self.data.set(at + 1, p.g);
        self.data.set(at + 2, p.b);
        self.data.set(at + 3, p.a);
        assert(self@.pixels =~= old(self)@.pixels.update(i as int, p));
    }
}

} // verus!
