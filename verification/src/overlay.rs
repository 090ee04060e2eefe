//! The overlay renderer: the outline of a rectangle drawn onto an image.

use vstd::prelude::*;
use crate::error::DiffError;
use crate::geometry::Rect;
use crate::pixel::box_marker;
use crate::pixel::spec_box_marker;
use crate::pixel::Rgba;
use crate::raster::decode;
use crate::raster::Image;
use crate::raster::Raster;

verus! {

/// The largest distance from the origin at which an edge of a rectangle can
/// be drawn. The renderer works on single-precision coordinates, which are
/// exact up to this value.
pub const DRAW_LIMIT: i32 = 0x100_0000;

/// Whether the outline of the rectangle can be drawn: all its edges lie
/// within `DRAW_LIMIT` of the origin.
pub open spec fn drawable(rect: Rect) -> bool {
    &&& -DRAW_LIMIT <= rect.left()
    &&& -DRAW_LIMIT <= rect.top()
    &&& rect.right() <= DRAW_LIMIT
    &&& rect.bottom() <= DRAW_LIMIT
}

/// The image `r` with `color` at every pixel on the outline of `rect`, and
/// unchanged elsewhere. Parts of the outline outside the image are lost.
pub open spec fn outlined(r: Raster, rect: Rect, color: Rgba) -> Raster {
    Raster {
        pixels: Seq::new(
            r.pixels.len(),
            |i: int| if rect.on_outline(r.coord(i).0 as int, r.coord(i).1 as int) { color } else { r.pixels[i] },
        ),
        ..r
    }
}

/// Whether `(x, y)` lies on the rim of a block of pixels that is `width`
/// columns wide and `height` rows high and has `(left, top)` as its first
/// pixel: in the first or the last column of the block, or in its first or
/// its last row.
pub open spec fn on_rim(left: int, top: int, width: int, height: int, x: int, y: int) -> bool {
    &&& left <= x <= left + width - 1
    &&& top <= y <= top + height - 1
    &&& (x == left || x == left + width - 1 || y == top || y == top + height - 1)
}

/// The image `r` with `color` at every pixel on the rim of a block, and
/// unchanged elsewhere.
pub open spec fn rimmed(r: Raster, left: int, top: int, width: int, height: int, color: Rgba) -> Raster {
    Raster {
        pixels: Seq::new(
            r.pixels.len(),
            |i: int| if on_rim(left, top, width, height, r.coord(i).0 as int, r.coord(i).1 as int) { color } else { r.pixels[i] },
        ),
        ..r
    }
}

/// Calls `imageproc::drawing::draw_hollow_rect` on the image, handed over as
/// an `image::RgbaImage`, with the `imageproc::rect::Rect` at `(left, top)`
/// of the given size and the `image::Rgba<u8>` of the same channels, and
/// takes the bytes of the image that comes back.
/// Trusted: the function copies the image and draws on the copy as much of
/// the boundary of the rectangle as lies inside the image, replacing the
/// pixels there by the colour. Such a rectangle is a block of pixels, and
/// its boundary is the rim of the block: it runs through the columns `left`
/// and `left + width - 1` and the rows `top` and `top + height - 1`. The
/// block must not be empty, which the function refuses, and its rim must lie
/// within `DRAW_LIMIT` of the origin, since the function computes in `f32`
/// and `i32`.
#[verifier::external_body]
fn hollow_rect(src: &Image, left: i32, top: i32, width: u32, height: u32, color: Rgba) -> (data:
    Vec<u8>)
    requires
        src.wf(),
        width >= 1,
        height >= 1,
        -DRAW_LIMIT <= left,
        -DRAW_LIMIT <= top,
        left + width - 1 <= DRAW_LIMIT,
        top + height - 1 <= DRAW_LIMIT,
    ensures
        data@.len() == 4 * (src@.width * src@.height),
        decode(src@.width, src@.height, data@) == rimmed(
            src@,
            left as int,
            top as int,
            width as int,
            height as int,
            color,
        ),
{
    let img = image::RgbaImage::from_raw(src.width(), src.height(), src.as_raw().clone()).unwrap();
    let area = imageproc::rect::Rect::at(left, top).of_size(width, height);
    let pixel = image::Rgba([color.r, color.g, color.b, color.a]);
    imageproc::drawing::draw_hollow_rect(&img, area, pixel).into_raw()
}

/// Whether the outline of the rectangle can be drawn.
pub fn is_drawable(rect: Rect) -> (b: bool)
    ensures
        b == drawable(rect),
{
    let limit: i64 = DRAW_LIMIT as i64;
    let right: i64 = rect.x as i64 + rect.width as i64;
    let bottom: i64 = rect.y as i64 + rect.height as i64;
    rect.x as i64 >= -limit && rect.y as i64 >= -limit && right <= limit && bottom <= limit
}

/// Draws the outline of the rectangle onto a copy of the image, in the
/// colour of the box marker. The outline runs along the four edges of the
/// rectangle: the columns `x` and `x + width` and the rows `y` and
/// `y + height`. It replaces the pixels under it; the parts of it that lie
/// outside the image are lost. The image itself is not changed.
///
/// Fails with `RectOutOfRange` where the rectangle is not drawable.
pub fn draw_rect(src: &Image, rect: Rect) -> (r: Result<Image, DiffError>)
    requires
        src.wf(),
    ensures
        !drawable(rect) ==> r is Err && r->Err_0 == DiffError::RectOutOfRange,
        drawable(rect) ==> r is Ok && r->Ok_0.wf() && r->Ok_0@ == outlined(
            src@,
            rect,
            spec_box_marker(),
        ),
{
    if !is_drawable(rect) {
        return Err(DiffError::RectOutOfRange);
    }
    proof {
        src.lemma_wf();
    }
    // The block whose rim is the outline is one column wider and one row
    // higher than the rectangle.
    let data = hollow_rect(src, rect.x, rect.y, rect.width + 1, rect.height + 1, box_marker());
    proof {
        assert(rimmed(
            src@,
            rect.x as int,
            rect.y as int,
            rect.width + 1,
            rect.height + 1,
            spec_box_marker(),
        ).pixels =~= outlined(src@, rect, spec_box_marker()).pixels);
    }
    Ok(Image::from_raw(src.width(), src.height(), data).unwrap())
}

} // verus!
