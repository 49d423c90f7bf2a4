//! The delay between two runs of the engine's background tasks.

use vstd::prelude::*;

verus! {

/// Longest delay, in milliseconds, between two runs of the background tasks.
pub const NODE_BACKGROUND_TASKS_MAX_INTERVAL: u64 = 250;

/// The time from `now` to `deadline`, held to the range from one
/// millisecond to the maximum interval.
pub open spec fn clamped_delay(now: int, deadline: int) -> int {
    let delay = deadline - now;
    if delay < 1 {
        1
    } else if delay > NODE_BACKGROUND_TASKS_MAX_INTERVAL as int {
        NODE_BACKGROUND_TASKS_MAX_INTERVAL as int
    } else {
        delay
    }
}

/// Computes how long to wait before the background tasks run again, given
/// the current time and the deadline that the engine proposed. Deadlines in
/// the past give one millisecond; deadlines far ahead give the maximum
/// interval. The subtraction cannot overflow, whatever the two times are.
pub fn next_delay(now: i64, deadline: i64) -> (delay: u64)
    ensures
        delay as int == clamped_delay(now as int, deadline as int),
        1 <= delay <= NODE_BACKGROUND_TASKS_MAX_INTERVAL,
{
    if deadline <= now {
        1
    } else {
        match deadline.checked_sub(now) {
            Some(d) => {
                if d > 250 {
                    NODE_BACKGROUND_TASKS_MAX_INTERVAL
                } else {
                    d as u64
                }
            },
            None => NODE_BACKGROUND_TASKS_MAX_INTERVAL,
        }
    }
}

} // verus!
