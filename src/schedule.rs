//! Pacing of the run loop: how many cycles make up one 60 Hz tick, and how
//! long to sleep after a tick's work.
use vstd::prelude::*;
use crate::emulator::Emulator;

verus! {

/// Instruction cycles run in each tick.
pub const CYCLES_PER_TICK: usize = Emulator::HZ / Emulator::TIMER_HZ;

/// The length of one tick, in nanoseconds.
pub const TICK_NANOS: u64 = 1_000_000_000 / 60;

/// How long to sleep after a tick's work took `elapsed` of a `budget`, both
/// in nanoseconds: the rest of the budget, or nothing when the work overran
/// it; lost time is not made up later.
pub fn sleep_nanos(budget: u64, elapsed: u64) -> (r: u64)
    ensures
        r == if elapsed >= budget {
            0
        } else {
            budget - elapsed
        },
{
    if elapsed >= budget {
        0
    } else {
        budget - elapsed
    }
}

} // verus!
