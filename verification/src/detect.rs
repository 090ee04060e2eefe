//! The diff detector: which pixels of a captured image differ significantly
//! from the reference image, and the marking of those pixels.

use vstd::prelude::*;
use vstd::arithmetic::div_mod::lemma_div_is_ordered_by_denominator;
use crate::error::DiffError;
use crate::geometry::Point;
use crate::listing::lemma_filter_agree;
use crate::listing::lemma_filter_member;
use crate::listing::lemma_filter_none;
use crate::listing::lemma_filter_twice;
use crate::pixel::diff_marker;
use crate::pixel::pixels_differ;
use crate::pixel::spec_diff_marker;
use crate::pixel::Rgba;
use crate::raster::lemma_coord_in_range;
use crate::raster::lemma_index_in_range;
use crate::raster::lemma_index_to_coord;
use crate::raster::Image;
use crate::raster::Raster;

verus! {

/// The threshold that belongs to a significance level: the level divides the
/// range of the luma into that many buckets, and a luma difference counts
/// only if it is larger than one bucket.
pub open spec fn threshold(significance: u8) -> int {
    255int / (significance as int)
}

/// Whether two lumas lie further apart than `level`.
pub open spec fn exceeds(src_luma: u8, dst_luma: u8, level: int) -> bool {
    src_luma - dst_luma > level || dst_luma - src_luma > level
}

/// Whether a reference pixel and a captured pixel differ significantly: the
/// absolute difference of their lumas exceeds the threshold.
pub open spec fn significant(p: Rgba, q: Rgba, significance: u8) -> bool {
    exceeds(p.luma_of(), q.luma_of(), threshold(significance))
}

/// The test "the two images differ at this coordinate in some channel".
pub open spec fn differs_at(a: Raster, b: Raster) -> spec_fn((u32, u32)) -> bool {
    |c: (u32, u32)| a.at(c.0 as int, c.1 as int) != b.at(c.0 as int, c.1 as int)
}

/// The test "the two images differ significantly at this coordinate".
pub open spec fn significant_at(a: Raster, b: Raster, significance: u8) -> spec_fn(
    (u32, u32),
) -> bool {
    |c: (u32, u32)| significant(a.at(c.0 as int, c.1 as int), b.at(c.0 as int, c.1 as int), significance)
}

/// The point that stands for a coordinate.
pub open spec fn to_point(c: (u32, u32)) -> Point {
    Point { x: c.0 as i32, y: c.1 as i32 }
}

/// The points that stand for a sequence of coordinates, in the same order.
pub open spec fn points_of(coords: Seq<(u32, u32)>) -> Seq<Point> {
    Seq::new(coords.len(), |i: int| to_point(coords[i]))
}

/// The coordinates at which the captured image `b` differs significantly from
/// the reference image `a`, in row-major order.
pub open spec fn diff_coords(a: Raster, b: Raster, significance: u8) -> Seq<(u32, u32)> {
    a.coords().filter(significant_at(a, b, significance))
}

/// The points at which the captured image `b` differs significantly from the
/// reference image `a`, in row-major order.
pub open spec fn diff_points(a: Raster, b: Raster, significance: u8) -> Seq<Point> {
    points_of(diff_coords(a, b, significance))
}

/// The image `r` with `color` at every pixel whose point is among `points`,
/// and unchanged elsewhere.
pub open spec fn painted(r: Raster, points: Seq<Point>, color: Rgba) -> Raster {
    Raster {
        pixels: Seq::new(
            r.pixels.len(),
            |i: int| if points.contains(to_point(r.coord(i))) { color } else { r.pixels[i] },
        ),
        ..r
    }
}

/// The captured image `b` with the marker colour at every pixel that differs
/// significantly from the reference image `a`, and unchanged elsewhere.
pub open spec fn marked(a: Raster, b: Raster, significance: u8) -> Raster {
    Raster {
        pixels: Seq::new(
            b.pixels.len(),
            |i: int| if significant(a.pixels[i], b.pixels[i], significance) { spec_diff_marker() } else { b.pixels[i] },
        ),
        ..b
    }
}

/// The threshold of a significance level. Level zero has no threshold and is
/// refused.
pub fn threshold_of(significance: u8) -> (r: Result<u8, DiffError>)
    ensures
        significance == 0 ==> r == Err::<u8, DiffError>(DiffError::InvalidSignificance),
        significance != 0 ==> r.is_ok() && r->Ok_0 as int == threshold(significance),
{
    if significance == 0 {
        Err(DiffError::InvalidSignificance)
    } else {
        Ok(255 / significance)
    }
}

/// Whether two lumas lie further apart than `level`.
pub fn exceeds_threshold(src_luma: u8, dst_luma: u8, level: u8) -> (b: bool)
    ensures
        b == exceeds(src_luma, dst_luma, level as int),
{
    if src_luma > dst_luma {
        src_luma - dst_luma > level
    } else {
        dst_luma - src_luma > level
    }
}

/// Calls `imageproc::utils::pixel_diffs` on the two images, handed over as
/// `image::RgbaImage`, with `pixels_differ` as the test, and takes the
/// coordinates of what it lists.
/// Trusted: the function walks the pixels of both images together in
/// row-major order and lists those at which the test holds, so the result is
/// the row-major sequence of the coordinates at which the images differ in
/// some channel. The images must have the same size.
#[verifier::external_body]
fn differing_coords(a: &Image, b: &Image) -> (coords: Vec<(u32, u32)>)
    requires
        a.wf(),
        b.wf(),
        a@.same_size(b@),
    ensures
        coords@ == a@.coords().filter(differs_at(a@, b@)),
{
    let x = image::RgbaImage::from_raw(a.width(), a.height(), a.as_raw().clone()).unwrap();
    let y = image::RgbaImage::from_raw(b.width(), b.height(), b.as_raw().clone()).unwrap();
    let diffs = imageproc::utils::pixel_diffs(&x, &y, |p, q| pixels_differ((p.2).0, (q.2).0));
    diffs.iter().map(|d| (d.x, d.y)).collect()
}

/// Every listed coordinate of an image lies inside the image, and has the
/// pixel of its index.
pub proof fn lemma_coords(r: Raster, i: int)
    requires
        r.wf(),
        0 <= i < r.pixels.len(),
    ensures
        r.contains(r.coord(i).0 as int, r.coord(i).1 as int),
        r.at(r.coord(i).0 as int, r.coord(i).1 as int) == r.pixels[i],
        r.coord(i).0 == i % (r.width as int),
        r.coord(i).1 == i / (r.width as int),
        to_point(r.coord(i)).x == i % (r.width as int),
        to_point(r.coord(i)).y == i / (r.width as int),
{
    lemma_coord_in_range(r.width as int, r.height as int, i);
}

/// A significant difference is a difference: a pixel that equals its
/// counterpart never exceeds a threshold.
pub proof fn lemma_significant_differs(p: Rgba, q: Rgba, significance: u8)
    requires
        significance > 0,
        significant(p, q, significance),
    ensures
        p != q,
{
    assert(255int / (significance as int) >= 0) by (nonlinear_arith)
        requires
            significance > 0,
    ;
}

/// Listing the significant differences among the coordinates at which the
/// images differ at all gives the significant differences of the images.
proof fn lemma_prefilter(a: Raster, b: Raster, significance: u8)
    requires
        a.wf(),
        significance > 0,
    ensures
        a.coords().filter(differs_at(a, b)).filter(significant_at(a, b, significance))
            == diff_coords(a, b, significance),
{
    let s = a.coords();
    let p = differs_at(a, b);
    let q = significant_at(a, b, significance);
    assert forall|i: int| 0 <= i < s.len() && q(#[trigger] s[i]) implies p(s[i]) by {
        let c = s[i];
        lemma_significant_differs(
            a.at(c.0 as int, c.1 as int),
            b.at(c.0 as int, c.1 as int),
            significance,
        );
    }
    lemma_filter_twice(s, p, q);
}

/// Finds the pixels at which the captured image `dst` differs significantly
/// from the reference image `src`, and lists them as points in row-major
/// order. Neither image is changed.
///
/// Fails with `InvalidSignificance` where the significance level is zero, and
/// otherwise with `DimensionMismatch` where the images differ in size.
pub fn find_diffs(src: &Image, dst: &Image, significance: u8) -> (r: Result<Vec<Point>, DiffError>)
    requires
        src.wf(),
        dst.wf(),
    ensures
        significance == 0 ==> r == Err::<Vec<Point>, DiffError>(DiffError::InvalidSignificance),
        significance != 0 && !src@.same_size(dst@) ==> r == Err::<Vec<Point>, DiffError>(
            DiffError::DimensionMismatch,
        ),
        significance != 0 && src@.same_size(dst@) ==> r.is_ok() && r->Ok_0@ == diff_points(
            src@,
            dst@,
            significance,
        ),
{
    let level: u8 = match threshold_of(significance) {
        Ok(level) => level,
        Err(e) => {
            return Err(e);
        },
    };
    if src.width() != dst.width() || src.height() != dst.height() {
        return Err(DiffError::DimensionMismatch);
    }
    proof {
        src.lemma_wf();
        dst.lemma_wf();
    }
    let coords = differing_coords(src, dst);
    let ghost test = significant_at(src@, dst@, significance);
    let mut points: Vec<Point> = Vec::new();
    let mut k: usize = 0;
    while k < coords.len()
        invariant
            src.wf(),
            dst.wf(),
            src@.wf(),
            dst@.wf(),
            src@.same_size(dst@),
            significance > 0,
            level as int == threshold(significance),
            test == significant_at(src@, dst@, significance),
            coords@ == src@.coords().filter(differs_at(src@, dst@)),
            k <= coords.len(),
            points@ == points_of(coords@.take(k as int).filter(test)),
        decreases coords.len() - k,
    {
        let c = coords[k];
        proof {
            assert(coords@.contains(c));
            lemma_filter_member(src@.coords(), differs_at(src@, dst@), c);
            let i = choose|i: int| 0 <= i < src@.coords().len() && src@.coords()[i] == c;
            lemma_coords(src@, i);
        }
        let p = src.get_pixel(c.0, c.1);
        let q = dst.get_pixel(c.0, c.1);
        let ghost before = coords@.take(k as int);
        proof {
            assert(coords@.take(k + 1) =~= before.push(c));
            Seq::lemma_filter_push(before, c, test);
        }
        if exceeds_threshold(p.luma(), q.luma(), level) {
            points.push(Point { x: c.0 as i32, y: c.1 as i32 });
            assert(points@ =~= points_of(before.filter(test).push(c)));
        }
        k += 1;
    }
    proof {
        assert(coords@.take(k as int) =~= coords@);
        lemma_prefilter(src@, dst@, significance);
    }
    Ok(points)
}

/// Two listed coordinates of an image with the same point are the same
/// index.
proof fn lemma_point_to_index(r: Raster, i: int, j: int)
    requires
        r.wf(),
        0 <= i < r.pixels.len(),
        0 <= j < r.pixels.len(),
        to_point(r.coord(i)) == to_point(r.coord(j)),
    ensures
        i == j,
{
    lemma_coords(r, i);
    lemma_coords(r, j);
    lemma_coord_in_range(r.width as int, r.height as int, i);
    lemma_coord_in_range(r.width as int, r.height as int, j);
}

/// Paints `color` on every listed point that lies inside the image. Points
/// outside the image are passed over. The order of the points and points
/// listed twice make no difference.
pub fn mark_points(image: &mut Image, points: &Vec<Point>, color: Rgba)
    requires
        old(image).wf(),
    ensures
        final(image).wf(),
        final(image)@ == painted(old(image)@, points@, color),
{
    proof {
        image.lemma_wf();
    }
    let width: u32 = image.width();
    let height: u32 = image.height();
    let ghost start = image@;
    let mut k: usize = 0;
    assert(image@ =~= painted(start, points@.take(0), color)) by {
        assert(image@.pixels =~= painted(start, points@.take(0), color).pixels);
    }
    while k < points.len()
        invariant
            image.wf(),
            start.wf(),
            start.width == width,
            start.height == height,
            k <= points.len(),
            image@ == painted(start, points@.take(k as int), color),
        decreases points.len() - k,
    {
        let pt = points[k];
        let ghost before = points@.take(k as int);
        let ghost after = points@.take(k + 1);
        proof {
            assert(after =~= before.push(pt));
            assert forall|q: Point| after.contains(q) <==> (before.contains(q) || q == pt) by {
                if before.contains(q) {
                    let j = choose|j: int| 0 <= j < before.len() && before[j] == q;
                    assert(after[j] == q);
                }
                if q == pt {
                    assert(after[k as int] == q);
                }
            }
        }
        if pt.x >= 0 && pt.y >= 0 && (pt.x as u32) < width && (pt.y as u32) < height {
            let x: u32 = pt.x as u32;
            let y: u32 = pt.y as u32;
            image.put_pixel(x, y, color);
            proof {
                let at = y as int * width as int + x as int;
                lemma_index_in_range(width as int, height as int, x as int, y as int);
                lemma_index_to_coord(width as int, x as int, y as int);
                lemma_coords(start, at);
                assert forall|i: int| 0 <= i < start.pixels.len() implies #[trigger] image@.pixels[i]
                    == painted(start, after, color).pixels[i] by {
                    lemma_coords(start, i);
                    if to_point(start.coord(i)) == pt {
                        lemma_point_to_index(start, i, at);
                    }
                }
                assert(image@.pixels =~= painted(start, after, color).pixels);
            }
        } else {
            proof {
                assert forall|i: int| 0 <= i < start.pixels.len() implies to_point(
                    #[trigger] start.coord(i),
                ) != pt by {
                    lemma_coords(start, i);
                }
                assert(image@.pixels =~= painted(start, after, color).pixels);
            }
        }
        k += 1;
    }
    assert(points@.take(k as int) =~= points@);
}

/// Painting the marker on the listed differences of two images gives the
/// marked image.
pub proof fn lemma_painted_is_marked(a: Raster, b: Raster, significance: u8)
    requires
        a.wf(),
        b.wf(),
        a.same_size(b),
        significance > 0,
    ensures
        painted(b, diff_points(a, b, significance), spec_diff_marker()) == marked(
            a,
            b,
            significance,
        ),
{
    let test = significant_at(a, b, significance);
    let listed = diff_coords(a, b, significance);
    let points = diff_points(a, b, significance);
    assert forall|i: int| 0 <= i < b.pixels.len() implies (points.contains(to_point(b.coord(i)))
        <==> significant(#[trigger] a.pixels[i], b.pixels[i], significance)) by {
        lemma_coords(a, i);
        lemma_coords(b, i);
        let c = a.coords()[i];
        assert(c == b.coord(i));
        if significant(a.pixels[i], b.pixels[i], significance) {
            assert(test(c));
            a.coords().lemma_filter_contains(test, i);
            let j = choose|j: int| 0 <= j < listed.len() && listed[j] == c;
            assert(points[j] == to_point(c));
        }
        if points.contains(to_point(b.coord(i))) {
            let j = choose|j: int| 0 <= j < points.len() && points[j] == to_point(b.coord(i));
            let d = listed[j];
            assert(listed.contains(d));
            lemma_filter_member(a.coords(), test, d);
            let m = choose|m: int| 0 <= m < a.coords().len() && a.coords()[m] == d;
            lemma_coords(a, m);
            lemma_point_to_index(a, m, i);
        }
    }
    assert(painted(b, points, spec_diff_marker()).pixels =~= marked(a, b, significance).pixels);
}

/// Every listed difference lies inside the images, and there are no more of
/// them than pixels.
pub proof fn lemma_diff_points_inside(a: Raster, b: Raster, significance: u8)
    requires
        a.wf(),
    ensures
        diff_points(a, b, significance).len() <= a.pixels.len(),
        forall|k: int|
            0 <= k < diff_points(a, b, significance).len() ==> a.contains(
                (#[trigger] diff_points(a, b, significance)[k]).x as int,
                diff_points(a, b, significance)[k].y as int,
            ),
{
    let test = significant_at(a, b, significance);
    let listed = diff_coords(a, b, significance);
    a.coords().lemma_filter_len(test);
    assert forall|k: int| 0 <= k < diff_points(a, b, significance).len() implies a.contains(
        (#[trigger] diff_points(a, b, significance)[k]).x as int,
        diff_points(a, b, significance)[k].y as int,
    ) by {
        let d = listed[k];
        assert(listed.contains(d));
        lemma_filter_member(a.coords(), test, d);
        let m = choose|m: int| 0 <= m < a.coords().len() && a.coords()[m] == d;
        lemma_coords(a, m);
    }
}

/// Compares the captured image `dst` with the reference image `src`, paints
/// the marker colour on every pixel of `dst` that differs significantly, and
/// returns the points of those pixels in row-major order, the width and the
/// height of the images, and the number of the points.
///
/// Fails with `InvalidSignificance` where the significance level is zero, and
/// otherwise with `DimensionMismatch` where the images differ in size. Where
/// it fails, `dst` is unchanged.
pub fn mark_diffs(src: &Image, dst: &mut Image, significance: u8) -> (r: Result<
    (Vec<Point>, u32, u32, usize),
    DiffError,
>)
    requires
        src.wf(),
        old(dst).wf(),
    ensures
        final(dst).wf(),
        significance == 0 ==> r == Err::<(Vec<Point>, u32, u32, usize), DiffError>(
            DiffError::InvalidSignificance,
        ),
        significance != 0 && !src@.same_size(old(dst)@) ==> r == Err::<
            (Vec<Point>, u32, u32, usize),
            DiffError,
        >(DiffError::DimensionMismatch),
        r.is_err() ==> *final(dst) == *old(dst),
        significance != 0 && src@.same_size(old(dst)@) ==> r.is_ok() && {
            let (points, width, height, count) = r->Ok_0;
            &&& points@ == diff_points(src@, old(dst)@, significance)
            &&& final(dst)@ == marked(src@, old(dst)@, significance)
            &&& width == src@.width
            &&& height == src@.height
            &&& count == points@.len()
        },
{
    let points = match find_diffs(src, dst, significance) {
        Ok(points) => points,
        Err(e) => {
            return Err(e);
        },
    };
    proof {
        src.lemma_wf();
        dst.lemma_wf();
        lemma_painted_is_marked(src@, dst@, significance);
    }
    mark_points(dst, &points, diff_marker());
    let count: usize = points.len();
    Ok((points, src.width(), src.height(), count))
}

/// Two identical images have no differences, at any significance level: no
/// point is listed, and marking changes nothing.
pub proof fn law_identical_images(a: Raster, significance: u8)
    requires
        a.wf(),
        significance > 0,
    ensures
        diff_points(a, a, significance) == Seq::<Point>::empty(),
        diff_points(a, a, significance).len() == 0,
        marked(a, a, significance) == a,
{
    let test = significant_at(a, a, significance);
    assert forall|i: int| 0 <= i < a.coords().len() implies !test(#[trigger] a.coords()[i]) by {
        let c = a.coords()[i];
        if test(c) {
            lemma_significant_differs(
                a.at(c.0 as int, c.1 as int),
                a.at(c.0 as int, c.1 as int),
                significance,
            );
        }
    }
    lemma_filter_none(a.coords(), test);
    assert(diff_points(a, a, significance) =~= Seq::<Point>::empty());
    assert forall|i: int| 0 <= i < a.pixels.len() implies !significant(
        #[trigger] a.pixels[i],
        a.pixels[i],
        significance,
    ) by {
        if significant(a.pixels[i], a.pixels[i], significance) {
            lemma_significant_differs(a.pixels[i], a.pixels[i], significance);
        }
    }
    assert(marked(a, a, significance).pixels =~= a.pixels);
}

/// A marked image compared with itself has no differences: detection on its
/// own output finds nothing more.
pub proof fn law_marked_image_is_stable(a: Raster, b: Raster, significance: u8, again: u8)
    requires
        a.wf(),
        b.wf(),
        a.same_size(b),
        again > 0,
    ensures
        diff_points(marked(a, b, significance), marked(a, b, significance), again).len() == 0,
        marked(marked(a, b, significance), marked(a, b, significance), again) == marked(
            a,
            b,
            significance,
        ),
{
    law_identical_images(marked(a, b, significance), again);
}

/// A higher significance level has a threshold that is no larger.
pub proof fn law_threshold_falls(low: u8, high: u8)
    requires
        0 < low <= high,
    ensures
        0 <= threshold(high) <= threshold(low) <= 255,
{
    lemma_div_is_ordered_by_denominator(255, low as int, high as int);
    assert(255int / (high as int) >= 0) by (nonlinear_arith)
        requires
            high > 0,
    ;
    assert(255int / (low as int) <= 255) by (nonlinear_arith)
        requires
            low > 0,
    ;
}

/// Raising the significance level loses no difference: every point listed at
/// the lower level is listed at the higher level, so the number of marked
/// pixels does not fall as the level rises.
pub proof fn law_significance_monotone(a: Raster, b: Raster, low: u8, high: u8)
    requires
        a.wf(),
        0 < low <= high,
    ensures
        forall|p: Point| #[trigger]
            diff_points(a, b, low).contains(p) ==> diff_points(a, b, high).contains(p),
        diff_points(a, b, low).len() <= diff_points(a, b, high).len(),
{
    let s = a.coords();
    let at_low = significant_at(a, b, low);
    let at_high = significant_at(a, b, high);
    law_threshold_falls(low, high);
    assert forall|i: int| 0 <= i < s.len() && at_low(#[trigger] s[i]) implies at_high(s[i]) by {}
    lemma_filter_twice(s, at_high, at_low);
    s.filter(at_high).lemma_filter_len(at_low);
    assert forall|p: Point| #[trigger]
        diff_points(a, b, low).contains(p) implies diff_points(a, b, high).contains(p) by {
        let low_list = diff_coords(a, b, low);
        let high_list = diff_coords(a, b, high);
        let j = choose|j: int| 0 <= j < low_list.len() && diff_points(a, b, low)[j] == p;
        let c = low_list[j];
        assert(low_list.contains(c));
        lemma_filter_member(s, at_low, c);
        lemma_filter_member(s, at_high, c);
        let m = choose|m: int| 0 <= m < high_list.len() && high_list[m] == c;
        assert(diff_points(a, b, high)[m] == p);
    }
}

/// Two significance levels list the same differences, and so mark equally
/// many pixels, where no pixel has a luma difference that exceeds the
/// threshold of the higher level without exceeding that of the lower.
pub proof fn law_same_diffs_between_levels(a: Raster, b: Raster, low: u8, high: u8)
    requires
        a.wf(),
        b.wf(),
        a.same_size(b),
        0 < low < high,
        forall|i: int|
            0 <= i < a.pixels.len() ==> !(significant(#[trigger] a.pixels[i], b.pixels[i], high)
                && !significant(a.pixels[i], b.pixels[i], low)),
    ensures
        diff_points(a, b, high) == diff_points(a, b, low),
        diff_points(a, b, high).len() <= diff_points(a, b, low).len(),
        marked(a, b, high) == marked(a, b, low),
{
    let s = a.coords();
    let at_low = significant_at(a, b, low);
    let at_high = significant_at(a, b, high);
    law_threshold_falls(low, high);
    assert forall|i: int| 0 <= i < s.len() implies at_low(#[trigger] s[i]) == at_high(s[i]) by {
        lemma_coords(a, i);
        lemma_coords(b, i);
        assert(significant(a.pixels[i], b.pixels[i], low) ==> significant(
            a.pixels[i],
            b.pixels[i],
            high,
        ));
    }
    lemma_filter_agree(s, at_low, at_high);
    assert forall|i: int| 0 <= i < b.pixels.len() implies significant(
        #[trigger] a.pixels[i],
        b.pixels[i],
        low,
    ) == significant(a.pixels[i], b.pixels[i], high) by {}
    assert(marked(a, b, high).pixels =~= marked(a, b, low).pixels);
}

} // verus!
