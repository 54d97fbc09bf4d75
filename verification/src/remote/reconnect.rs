//! How long a dropped connection waits between attempts to come back.

use vstd::prelude::*;
use vstd::arithmetic::power2::lemma2_to64;
use vstd::arithmetic::power2::lemma_pow2_strictly_increases;
use vstd::arithmetic::power2::lemma_pow2_unfold;
use vstd::arithmetic::power2::pow2;

verus! {

/// The wait before the first attempt, in milliseconds.
pub const VIEWER_RECONNECT_INITIAL_DELAY: u64 = 1000;

/// The longest wait before an attempt, in milliseconds.
pub const VIEWER_RECONNECT_MAX_DELAY: u64 = 30000;

/// The wait after an attempt failed that had waited for `delay`: twice as long, up to
/// the longest.
pub open spec fn doubled(delay: u64) -> u64 {
    if 2 * delay < VIEWER_RECONNECT_MAX_DELAY {
        (2 * delay) as u64
    } else {
        VIEWER_RECONNECT_MAX_DELAY
    }
}

/// The wait after an attempt failed that had waited for `delay`.
pub fn next_delay(delay: u64) -> (r: u64)
    ensures
        r == doubled(delay),
{
    if delay < VIEWER_RECONNECT_MAX_DELAY / 2 {
        delay * 2
    } else {
        VIEWER_RECONNECT_MAX_DELAY
    }
}

/// What happens in a loop that tries to connect again.
#[derive(Debug, Clone, Copy, PartialEq, Eq, Structural)]
pub enum ReconnectEvent {
    /// The loop begins.
    Started,
    /// The wait is over.
    Woke,
    /// An attempt ended; whether it succeeded.
    Attempted(bool),
}

/// What a loop that tries to connect again does next.
#[derive(Debug, Clone, Copy, PartialEq, Eq, Structural)]
pub enum ReconnectAction {
    /// Wait for so many milliseconds.
    Sleep(u64),
    /// Try to connect.
    Attempt,
    /// The loop is over.
    Quit,
}

/// The wait after `failures` attempts have failed.
pub open spec fn delay_after(failures: nat) -> u64
    decreases failures,
{
    if failures == 0 {
        VIEWER_RECONNECT_INITIAL_DELAY
    } else {
        doubled(delay_after((failures - 1) as nat))
    }
}

/// The waits double with every failure, from one second up to thirty, and stay there.
pub proof fn law_delays_double_up_to_the_longest(failures: nat)
    ensures
        delay_after(failures) == if VIEWER_RECONNECT_INITIAL_DELAY * pow2(failures)
            < VIEWER_RECONNECT_MAX_DELAY {
            VIEWER_RECONNECT_INITIAL_DELAY * pow2(failures)
        } else {
            VIEWER_RECONNECT_MAX_DELAY as int
        },
        VIEWER_RECONNECT_INITIAL_DELAY <= delay_after(failures) <= delay_after(failures + 1)
            <= VIEWER_RECONNECT_MAX_DELAY,
    decreases failures,
{
    if failures == 0 {
        lemma2_to64();
    } else {
        law_delays_double_up_to_the_longest((failures - 1) as nat);
        lemma_pow2_unfold(failures);
        if failures > 1 {
            lemma_pow2_strictly_increases(0, failures);
        }
        lemma2_to64();
    }
    assert(delay_after(failures + 1) == doubled(delay_after(failures)));
}

/// After a failure the wait is twice as long, but never longer than thirty seconds.
pub proof fn law_wait_doubles_after_a_failure(delay: u64)
    ensures
        2 * delay <= 30000 ==> doubled(delay) == 2 * delay,
        2 * delay >= 30000 ==> doubled(delay) == 30000,
        delay_after(0) == 1000,
        forall|failures: nat| #[trigger]
            delay_after(failures + 1) == doubled(delay_after(failures)),
{
}

} // verus!
