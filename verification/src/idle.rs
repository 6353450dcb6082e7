//! Input-idle time.
//!
//! The platform reports the moment of the last input and the present
//! moment as 32-bit millisecond tick counters that wrap around every
//! 49.7 days.  The idle time is their difference in the counters' own
//! wrapping arithmetic; dividing by a thousand is left to the caller.

use vstd::prelude::*;

verus! {

/// The milliseconds between the last input tick and the present tick,
/// modulo the 32-bit wrap of the tick counter.
pub fn idle_millis(now_ticks: u32, last_input_ticks: u32) -> (r: u32)
    ensures
        now_ticks >= last_input_ticks ==> r == now_ticks - last_input_ticks,
        now_ticks < last_input_ticks ==> r as int == now_ticks as int + 0x1_0000_0000
            - last_input_ticks as int,
{
    if now_ticks >= last_input_ticks {
        now_ticks - last_input_ticks
    } else {
        let wrapped: u64 = now_ticks as u64 + 0x1_0000_0000u64 - last_input_ticks as u64;
        wrapped as u32
    }
}

} // verus!
