//! One inspection from end to end: detection, marking, the optional
//! bounding box with its outline, and the defect rate.

use vstd::prelude::*;
use crate::bounding::box_of;
use crate::bounding::is_padded_box;
use crate::bounding::law_box_encloses_points;
use crate::bounding::lemma_padded_box_exists;
use crate::bounding::padded_box;
use crate::bounding::touches_rim;
use crate::detect::diff_coords;
use crate::detect::diff_points;
use crate::detect::find_diffs;
use crate::detect::lemma_coords;
use crate::detect::lemma_diff_points_inside;
use crate::detect::lemma_painted_is_marked;
use crate::detect::mark_points;
use crate::detect::marked;
use crate::detect::significant;
use crate::detect::significant_at;
use crate::detect::to_point;
use crate::error::DiffError;
use crate::geometry::Point;
use crate::geometry::Rect;
use crate::overlay::draw_rect;
use crate::overlay::drawable;
use crate::overlay::is_drawable;
use crate::overlay::outlined;
use crate::pixel::diff_marker;
use crate::pixel::spec_box_marker;
use crate::pixel::spec_diff_marker;
use crate::raster::Image;
use crate::raster::Raster;
use crate::rate::DefectRate;
use crate::rate::MIN_AREA;
use crate::rate::area_hundredth;
use crate::rate::defect_rate;

verus! {

/// What an inspection found.
#[derive(Clone, Debug, PartialEq, Eq)]
pub struct Inspection {
    /// The points of the significantly differing pixels, in row-major order.
    pub points: Vec<Point>,
    /// The width of the images.
    pub width: u32,
    /// The height of the images.
    pub height: u32,
    /// The number of the significantly differing pixels.
    pub count: usize,
    /// The defect rate.
    pub rate: DefectRate,
    /// The bounding box that was outlined, where one was asked for.
    pub outline: Option<Rect>,
}

/// Why an inspection of the captured image `b` against the reference image
/// `a` is refused, if it is. The first reason that applies is the one given.
pub open spec fn refusal(a: Raster, b: Raster, significance: u8, bound_state: bool) -> Option<
    DiffError,
> {
    if significance == 0 {
        Some(DiffError::InvalidSignificance)
    } else if !a.same_size(b) {
        Some(DiffError::DimensionMismatch)
    } else if a.width * a.height < MIN_AREA {
        Some(DiffError::AreaTooSmall)
    } else if bound_state && diff_points(a, b, significance).len() == 0 {
        Some(DiffError::EmptyPoints)
    } else if bound_state && !drawable(padded_box(diff_points(a, b, significance))) {
        Some(DiffError::RectOutOfRange)
    } else {
        None
    }
}

/// The captured image `b` after an inspection against the reference image
/// `a`: marked, and with the outline of the bounding box where one was asked
/// for.
pub open spec fn inspected(a: Raster, b: Raster, significance: u8, bound_state: bool) -> Raster {
    if bound_state {
        outlined(
            marked(a, b, significance),
            padded_box(diff_points(a, b, significance)),
            spec_box_marker(),
        )
    } else {
        marked(a, b, significance)
    }
}

/// Inspects the captured image against the reference image: finds the
/// significantly differing pixels, paints them with the diff marker, and,
/// where `bound_state` is set, outlines their padded bounding box in the box
/// marker. Returns the points, the size of the images, the number of
/// defects, the defect rate and the box.
///
/// Fails for the reason that `refusal` gives. Where it fails, the captured
/// image is unchanged.
pub fn inspect(reference: &Image, captured: &mut Image, significance: u8, bound_state: bool) -> (r:
    Result<Inspection, DiffError>)
    requires
        reference.wf(),
        old(captured).wf(),
    ensures
        final(captured).wf(),
        r is Err <==> refusal(reference@, old(captured)@, significance, bound_state) is Some,
        r is Err ==> r->Err_0 == refusal(reference@, old(captured)@, significance, bound_state)->0
            && *final(captured) == *old(captured),
        r is Ok ==> {
            let found = r->Ok_0;
            &&& found.points@ == diff_points(reference@, old(captured)@, significance)
            &&& found.width == reference@.width
            &&& found.height == reference@.height
            &&& found.count == found.points@.len()
            &&& found.rate.defects == found.count
            &&& found.rate.divisor == area_hundredth(found.width, found.height)
            &&& found.rate.divisor > 0
            &&& found.outline == (if bound_state {
                Some(padded_box(found.points@))
            } else {
                None::<Rect>
            })
            &&& final(captured)@ == inspected(
                reference@,
                old(captured)@,
                significance,
                bound_state,
            )
        },
{
    let points = match find_diffs(reference, captured, significance) {
        Ok(points) => points,
        Err(e) => {
            return Err(e);
        },
    };
    let width: u32 = reference.width();
    let height: u32 = reference.height();
    let count: usize = points.len();
    let rate = match defect_rate(width, height, count) {
        Ok(rate) => rate,
        Err(e) => {
            return Err(e);
        },
    };
    proof {
        reference.lemma_wf();
        captured.lemma_wf();
        lemma_diff_points_inside(reference@, captured@, significance);
        lemma_painted_is_marked(reference@, captured@, significance);
    }
    let outline: Option<Rect> = if bound_state {
        let rect = match box_of(&points) {
            Ok(rect) => rect,
            Err(e) => {
                return Err(e);
            },
        };
        if !is_drawable(rect) {
            return Err(DiffError::RectOutOfRange);
        }
        Some(rect)
    } else {
        None
    };
    mark_points(captured, &points, diff_marker());
    match outline {
        Some(rect) => {
            let drawn = draw_rect(captured, rect);
            *captured = drawn.unwrap();
        },
        None => {},
    }
    Ok(Inspection { points, width, height, count, rate, outline })
}

/// Whether the points have their padded bounding box.
pub open spec fn is_boxed(points: Seq<Point>) -> bool {
    is_padded_box(points, padded_box(points))
}

/// The listed differences of two images do not touch the rim of the
/// coordinate range, so that wherever there are any, they have a padded
/// bounding box.
pub proof fn lemma_diffs_have_box(a: Raster, b: Raster, significance: u8)
    requires
        a.wf(),
        diff_points(a, b, significance).len() > 0,
    ensures
        is_boxed(diff_points(a, b, significance)),
{
    let points = diff_points(a, b, significance);
    lemma_diff_points_inside(a, b, significance);
    assert(!touches_rim(points)) by {
        if touches_rim(points) {
            let k = choose|k: int|
                0 <= k < points.len() && ((#[trigger] points[k]).x == i32::MIN || points[k].x
                    == i32::MAX || points[k].y == i32::MIN || points[k].y == i32::MAX);
            assert(a.contains(points[k].x as int, points[k].y as int));
        }
    }
    lemma_padded_box_exists(points);
}

/// The outline of the bounding box covers no defect: after an inspection
/// with the box, every significantly differing pixel still shows the diff
/// marker, and every other pixel shows the box marker or what it showed
/// before.
pub proof fn law_outline_spares_marks(a: Raster, b: Raster, significance: u8)
    requires
        a.wf(),
        b.wf(),
        a.same_size(b),
        significance > 0,
        diff_points(a, b, significance).len() > 0,
    ensures
        inspected(a, b, significance, true).same_size(b),
        inspected(a, b, significance, true).pixels.len() == b.pixels.len(),
        forall|i: int|
            0 <= i < b.pixels.len() ==> (#[trigger] inspected(a, b, significance, true).pixels[i])
                == (if significant(a.pixels[i], b.pixels[i], significance) {
                spec_diff_marker()
            } else if padded_box(diff_points(a, b, significance)).on_outline(
                b.coord(i).0 as int,
                b.coord(i).1 as int,
            ) {
                spec_box_marker()
            } else {
                b.pixels[i]
            }),
{
    let points = diff_points(a, b, significance);
    let listed = diff_coords(a, b, significance);
    let test = significant_at(a, b, significance);
    let r = padded_box(points);
    lemma_diffs_have_box(a, b, significance);
    law_box_encloses_points(points, r);
    let after = inspected(a, b, significance, true);
    let between = marked(a, b, significance);
    assert forall|i: int| 0 <= i < b.pixels.len() implies (#[trigger] after.pixels[i]) == (
    if significant(a.pixels[i], b.pixels[i], significance) {
        spec_diff_marker()
    } else if r.on_outline(b.coord(i).0 as int, b.coord(i).1 as int) {
        spec_box_marker()
    } else {
        b.pixels[i]
    }) by {
        lemma_coords(a, i);
        lemma_coords(b, i);
        assert(between.coord(i) == b.coord(i));
        if significant(a.pixels[i], b.pixels[i], significance) {
            let c = a.coords()[i];
            assert(test(c));
            a.coords().lemma_filter_contains(test, i);
            let j = choose|j: int| 0 <= j < listed.len() && listed[j] == c;
            assert(points[j] == to_point(c));
            assert(!r.on_outline(points[j].x as int, points[j].y as int));
        }
    }
}

} // verus!
