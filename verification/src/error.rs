//! The ways in which an operation of this library can fail.

use vstd::prelude::*;

verus! {

/// Why an operation was refused. Every failure is reported to the caller; no
/// operation that fails has changed a buffer.
#[derive(Clone, Copy, Debug, PartialEq, Eq, Structural)]
pub enum DiffError {
    /// The significance level was zero, so that no threshold exists.
    InvalidSignificance,
    /// The reference image and the captured image differ in width or height.
    DimensionMismatch,
    /// No point was given where at least one is needed.
    EmptyPoints,
    /// The image has fewer than a hundred pixels, so that one percent of its
    /// area is no whole pixel.
    AreaTooSmall,
    /// A padded bounding box would leave the range of the coordinates.
    CoordinateOverflow,
    /// A rectangle is empty, or reaches beyond the coordinates on which an
    /// outline can be drawn exactly.
    RectOutOfRange,
}

} // verus!
