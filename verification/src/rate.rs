//! The rate reporter: the number of defects in relation to the image area.

use vstd::prelude::*;
use crate::error::DiffError;

verus! {

/// The smallest number of pixels of an image for which a rate exists.
pub const MIN_AREA: u64 = 100;

/// A defect rate: so many defects for each hundredth of the image area. The
/// rate in percent is `defects` divided by `divisor`; the divisor is never
/// zero.
#[derive(Clone, Copy, Debug, PartialEq, Eq, Structural)]
pub struct DefectRate {
    pub defects: u64,
    pub divisor: u64,
}

/// One hundredth of the area of an image, rounded down to whole pixels.
pub open spec fn area_hundredth(width: u32, height: u32) -> int {
    (width * height) / 100
}

/// The defect rate of an image of the given size with `count` defects:
/// `count / ((width * height) / 100)`, the inner division rounding down. The
/// two numbers of the quotient are returned; dividing them is left to the
/// caller.
///
/// Fails with `AreaTooSmall` where the image has fewer than `MIN_AREA`
/// pixels, for then the divisor would be zero.
pub fn defect_rate(width: u32, height: u32, count: usize) -> (r: Result<DefectRate, DiffError>)
    ensures
        width * height < MIN_AREA ==> r == Err::<DefectRate, DiffError>(DiffError::AreaTooSmall),
        width * height >= MIN_AREA ==> r.is_ok() && r->Ok_0.defects == count && r->Ok_0.divisor
            == area_hundredth(width, height) && r->Ok_0.divisor > 0,
{
    assert(width * height <= 0xffff_ffff * 0xffff_ffff) by (nonlinear_arith)
        requires
            width <= 0xffff_ffff,
            height <= 0xffff_ffff,
    ;
    let area: u64 = (width as u64) * (height as u64);
    if area < MIN_AREA {
        return Err(DiffError::AreaTooSmall);
    }
    Ok(DefectRate { defects: count as u64, divisor: area / 100 })
}

} // verus!
