//! The rulers beside the image view: where their ticks stand and how long
//! each tick is.

use vstd::prelude::*;

verus! {

/// The distance between two neighbouring ticks of a ruler.
pub const TICK_STEP: u32 = 4;

/// The three lengths of a tick.
#[derive(Clone, Copy, Debug, PartialEq, Eq, Structural)]
pub enum Tick {
    /// Every fortieth position has a long tick.
    Long,
    /// Every twentieth position that has no long tick has a medium one.
    Medium,
    /// Every other position has a short tick.
    Short,
}

/// The tick that stands at a position of a ruler.
pub open spec fn tick_at(position: u32) -> Tick {
    if position % 40 == 0 {
        Tick::Long
    } else if position % 20 == 0 {
        Tick::Medium
    } else {
        Tick::Short
    }
}

/// The tick that stands at a position of a ruler.
pub fn tick_kind(position: u32) -> (tick: Tick)
    ensures
        tick == tick_at(position),
{
    if position % 40 == 0 {
        Tick::Long
    } else if position % 20 == 0 {
        Tick::Medium
    } else {
        Tick::Short
    }
}

/// How many ticks a ruler of the given length has: one at its start and one
/// at every further step that the length reaches.
pub fn tick_count(length: u32) -> (count: u32)
    ensures
        count == length / TICK_STEP + 1,
{
    length / TICK_STEP + 1
}

} // verus!
