//! The bounding aggregator: the padded bounding rectangle of a set of points.

use vstd::prelude::*;
use crate::error::DiffError;
use crate::geometry::Point;
use crate::geometry::Rect;

verus! {

/// Whether `m` is the smallest `x` among the points.
pub open spec fn is_min_x(points: Seq<Point>, m: int) -> bool {
    &&& exists|k: int| 0 <= k < points.len() && (#[trigger] points[k]).x == m
    &&& forall|k: int| 0 <= k < points.len() ==> m <= (#[trigger] points[k]).x
}

/// Whether `m` is the largest `x` among the points.
pub open spec fn is_max_x(points: Seq<Point>, m: int) -> bool {
    &&& exists|k: int| 0 <= k < points.len() && (#[trigger] points[k]).x == m
    &&& forall|k: int| 0 <= k < points.len() ==> (#[trigger] points[k]).x <= m
}

/// Whether `m` is the smallest `y` among the points.
pub open spec fn is_min_y(points: Seq<Point>, m: int) -> bool {
    &&& exists|k: int| 0 <= k < points.len() && (#[trigger] points[k]).y == m
    &&& forall|k: int| 0 <= k < points.len() ==> m <= (#[trigger] points[k]).y
}

/// Whether `m` is the largest `y` among the points.
pub open spec fn is_max_y(points: Seq<Point>, m: int) -> bool {
    &&& exists|k: int| 0 <= k < points.len() && (#[trigger] points[k]).y == m
    &&& forall|k: int| 0 <= k < points.len() ==> (#[trigger] points[k]).y <= m
}

/// Whether `r` is the padded bounding box of the points: the smallest
/// rectangle that covers them all, widened by one pixel on each side. Its
/// left edge is `min(x) - 1`, its top edge `min(y) - 1`, its right edge
/// `max(x) + 1` and its bottom edge `max(y) + 1`; its width is right minus
/// left and its height bottom minus top.
pub open spec fn is_padded_box(points: Seq<Point>, r: Rect) -> bool {
    &&& is_min_x(points, r.x + 1)
    &&& is_min_y(points, r.y + 1)
    &&& is_max_x(points, r.x + r.width - 1)
    &&& is_max_y(points, r.y + r.height - 1)
}

/// Whether some point lies on the rim of the coordinate range, so that the
/// padding would leave the range.
pub open spec fn touches_rim(points: Seq<Point>) -> bool {
    exists|k: int|
        0 <= k < points.len() && ((#[trigger] points[k]).x == i32::MIN || points[k].x == i32::MAX
            || points[k].y == i32::MIN || points[k].y == i32::MAX)
}

/// A set of points has one padded bounding box at most.
pub proof fn lemma_padded_box_unique(points: Seq<Point>, r: Rect, s: Rect)
    requires
        is_padded_box(points, r),
        is_padded_box(points, s),
    ensures
        r == s,
{
}

/// The extremes of a non-empty list of points.
proof fn lemma_extremes(points: Seq<Point>) -> (e: (int, int, int, int))
    requires
        points.len() > 0,
    ensures
        is_min_x(points, e.0),
        is_min_y(points, e.1),
        is_max_x(points, e.2),
        is_max_y(points, e.3),
    decreases points.len(),
{
    let last = points.last();
    if points.len() == 1 {
        assert(points[0] == last);
        (last.x as int, last.y as int, last.x as int, last.y as int)
    } else {
        let front = points.drop_last();
        let f = lemma_extremes(front);
        let wl = choose|k: int| 0 <= k < front.len() && (#[trigger] front[k]).x == f.0;
        let wt = choose|k: int| 0 <= k < front.len() && (#[trigger] front[k]).y == f.1;
        let wr = choose|k: int| 0 <= k < front.len() && (#[trigger] front[k]).x == f.2;
        let wb = choose|k: int| 0 <= k < front.len() && (#[trigger] front[k]).y == f.3;
        assert(points[wl] == front[wl]);
        assert(points[wt] == front[wt]);
        assert(points[wr] == front[wr]);
        assert(points[wb] == front[wb]);
        assert(points[points.len() - 1] == last);
        assert forall|k: int| 0 <= k < front.len() implies #[trigger] points[k] == front[k] by {}
        let e = (
            if last.x < f.0 { last.x as int } else { f.0 },
            if last.y < f.1 { last.y as int } else { f.1 },
            if last.x > f.2 { last.x as int } else { f.2 },
            if last.y > f.3 { last.y as int } else { f.3 },
        );
        assert forall|k: int| 0 <= k < points.len() implies e.0 <= (#[trigger] points[k]).x
            && e.1 <= points[k].y && points[k].x <= e.2 && points[k].y <= e.3 by {
            if k < front.len() {
                assert(points[k] == front[k]);
            }
        }
        e
    }
}

/// A non-empty list of points of which none lies on the rim of the
/// coordinate range has a padded bounding box.
pub proof fn lemma_padded_box_exists(points: Seq<Point>)
    requires
        points.len() > 0,
        !touches_rim(points),
    ensures
        is_padded_box(points, padded_box(points)),
        padded_box(points).width >= 2,
        padded_box(points).height >= 2,
{
    let e = lemma_extremes(points);
    let wl = choose|k: int| 0 <= k < points.len() && (#[trigger] points[k]).x == e.0;
    let wt = choose|k: int| 0 <= k < points.len() && (#[trigger] points[k]).y == e.1;
    let wr = choose|k: int| 0 <= k < points.len() && (#[trigger] points[k]).x == e.2;
    let wb = choose|k: int| 0 <= k < points.len() && (#[trigger] points[k]).y == e.3;
    let r = Rect {
        x: (e.0 - 1) as i32,
        y: (e.1 - 1) as i32,
        width: (e.2 - e.0 + 2) as u32,
        height: (e.3 - e.1 + 2) as u32,
    };
    assert(is_padded_box(points, r));
}

/// The padded bounding box keeps its distance: every point lies strictly
/// between its four edges, and none lies on its outline.
pub proof fn law_box_encloses_points(points: Seq<Point>, r: Rect)
    requires
        is_padded_box(points, r),
    ensures
        forall|k: int|
            0 <= k < points.len() ==> r.encloses(
                (#[trigger] points[k]).x as int,
                points[k].y as int,
            ) && !r.on_outline(points[k].x as int, points[k].y as int),
        r.right() - r.left() >= 2,
        r.bottom() - r.top() >= 2,
{
}

/// The padded bounding box of the points, where they have one.
pub open spec fn padded_box(points: Seq<Point>) -> Rect {
    choose|r: Rect| is_padded_box(points, r)
}

/// The padded bounding box of a non-empty list of points.
///
/// Fails with `EmptyPoints` where no point is given, and otherwise with
/// `CoordinateOverflow` where a point lies on the rim of the coordinate
/// range, so that the box cannot be padded.
pub fn get_box(points: Vec<Point>) -> (r: Result<Rect, DiffError>)
    ensures
        points@.len() == 0 ==> r == Err::<Rect, DiffError>(DiffError::EmptyPoints),
        points@.len() != 0 && touches_rim(points@) ==> r == Err::<Rect, DiffError>(
            DiffError::CoordinateOverflow,
        ),
        points@.len() != 0 && !touches_rim(points@) ==> r.is_ok() && is_padded_box(
            points@,
            r->Ok_0,
        ) && r->Ok_0 == padded_box(points@) && r->Ok_0.width >= 2 && r->Ok_0.height >= 2,
{
    box_of(&points)
}

/// The padded bounding box of a non-empty list of points that the caller
/// keeps.
pub(crate) fn box_of(points: &Vec<Point>) -> (r: Result<Rect, DiffError>)
    ensures
        points@.len() == 0 ==> r == Err::<Rect, DiffError>(DiffError::EmptyPoints),
        points@.len() != 0 && touches_rim(points@) ==> r == Err::<Rect, DiffError>(
            DiffError::CoordinateOverflow,
        ),
        points@.len() != 0 && !touches_rim(points@) ==> r.is_ok() && is_padded_box(
            points@,
            r->Ok_0,
        ) && r->Ok_0 == padded_box(points@) && r->Ok_0.width >= 2 && r->Ok_0.height >= 2,
{
    if points.len() == 0 {
        return Err(DiffError::EmptyPoints);
    }
    let first = points[0];
    let mut left: i32 = first.x;
    let mut top: i32 = first.y;
    let mut right: i32 = first.x;
    let mut bottom: i32 = first.y;
    let mut k: usize = 1;
    assert(points@.take(1)[0] == first);
    while k < points.len()
        invariant
            1 <= k <= points.len(),
            is_min_x(points@.take(k as int), left as int),
            is_min_y(points@.take(k as int), top as int),
            is_max_x(points@.take(k as int), right as int),
            is_max_y(points@.take(k as int), bottom as int),
        decreases points.len() - k,
    {
        let pt = points[k];
        let ghost before = points@.take(k as int);
        let ghost after = points@.take(k + 1);
        proof {
            let wl = choose|j: int| 0 <= j < before.len() && (#[trigger] before[j]).x == left;
            let wt = choose|j: int| 0 <= j < before.len() && (#[trigger] before[j]).y == top;
            let wr = choose|j: int| 0 <= j < before.len() && (#[trigger] before[j]).x == right;
            let wb = choose|j: int| 0 <= j < before.len() && (#[trigger] before[j]).y == bottom;
            assert(after[wl] == before[wl]);
            assert(after[wt] == before[wt]);
            assert(after[wr] == before[wr]);
            assert(after[wb] == before[wb]);
            assert(after[k as int] == pt);
            assert forall|j: int| 0 <= j < before.len() implies #[trigger] after[j]
                == before[j] by {}
        }
        if pt.x < left {
            left = pt.x;
        }
        if pt.y < top {
            top = pt.y;
        }
        if pt.x > right {
            right = pt.x;
        }
        if pt.y > bottom {
            bottom = pt.y;
        }
        k += 1;
    }
    assert(points@.take(k as int) =~= points@);
    if left == i32::MIN || top == i32::MIN || right == i32::MAX || bottom == i32::MAX {
        return Err(DiffError::CoordinateOverflow);
    }
    left -= 1;
    top -= 1;
    right += 1;
    bottom += 1;
    let width: i64 = right as i64 - left as i64;
    let height: i64 = bottom as i64 - top as i64;
    let rect = Rect { x: left, y: top, width: width as u32, height: height as u32 };
    proof {
        assert(is_padded_box(points@, rect));
        lemma_padded_box_unique(points@, rect, padded_box(points@));
    }
    Ok(rect)
}

} // verus!
