//! The tick: the token that the timer posts, and how often.

use vstd::prelude::*;

verus! {

/// The token that the timer posts into the mailbox for each tick.
pub const TICK_TOKEN: u32 = 0xbeef;

/// The alarm value for a timer that counts `tick_hz` times per second: three
/// quarters of a second, rounded down.
pub fn alarm_ticks(tick_hz: u64) -> (ticks: u64)
    ensures
        ticks == tick_hz * 3 / 4,
{
    let wide: u128 = tick_hz as u128 * 3 / 4;
    wide as u64
}

} // verus!
