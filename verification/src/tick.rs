//! The pace of the input loop: how long to wait for a key, and when a tick is
//! over. Times are whole numbers of one unit, which the caller picks.

use vstd::prelude::*;

verus! {

/// How long the loop may wait for a key: what is left of the tick of length
/// `tick_rate` after `elapsed` has passed, and nothing once the tick is over.
pub fn poll_timeout(tick_rate: u128, elapsed: u128) -> (timeout: u128)
    ensures
        timeout == if elapsed < tick_rate {
            tick_rate - elapsed
        } else {
            0
        },
{
    if elapsed < tick_rate {
        tick_rate - elapsed
    } else {
        0
    }
}

/// Whether the tick of length `tick_rate` is over after `elapsed` has passed,
/// so that the next one starts now.
pub fn tick_is_over(tick_rate: u128, elapsed: u128) -> (over: bool)
    ensures
        over == (elapsed >= tick_rate),
{
    elapsed >= tick_rate
}

} // verus!
