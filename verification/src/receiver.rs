//! Receiver pacing: the rolling two-code-period sample window and the fix
//! cadence. The receiver pulls samples, fans the window out to the
//! channels, and asks the solver for a fix; the integer decisions behind
//! that schedule are made here.

use vstd::prelude::*;

verus! {

/// Milliseconds between position-fix attempts.
pub const T_FIX_MS: u64 = 2000;

/// Channels with a complete ephemeris needed before a fix is attempted.
pub const MIN_SVS_FOR_FIX: usize = 4;

/// How many samples to pull this tick: two code periods fill an empty
/// window, one keeps a filled window rolling.
pub fn samples_to_pull(cached_len: usize, period_sp: usize) -> (n: usize)
    requires
        period_sp <= usize::MAX / 2,
    ensures
        n == (if cached_len == 0 {
            2 * period_sp
        } else {
            period_sp as int
        }),
{
    if cached_len == 0 {
        2 * period_sp
    } else {
        period_sp
    }
}

/// How many samples to drop from the front so the window holds exactly two
/// code periods again.
pub fn samples_to_drop(cached_len: usize, period_sp: usize) -> (n: usize)
    requires
        period_sp <= usize::MAX / 2,
    ensures
        n == (if cached_len > 2 * period_sp {
            period_sp as int
        } else {
            0
        }),
{
    if cached_len > 2 * period_sp {
        period_sp
    } else {
        0
    }
}

/// Whether to attempt a position fix now: at least `T_FIX_MS` since the
/// last attempt and at least `MIN_SVS_FOR_FIX` channels carrying a complete
/// ephemeris.
pub fn should_attempt_fix(now_ms: u64, last_fix_ms: u64, num_complete: usize) -> (r: bool)
    requires
        last_fix_ms <= now_ms,
    ensures
        r == (now_ms - last_fix_ms >= 2000 && num_complete >= 4),
{
    now_ms - last_fix_ms >= T_FIX_MS && num_complete >= MIN_SVS_FOR_FIX
}

} // verus!
