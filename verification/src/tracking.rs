//! Code-phase bookkeeping for the tracking loop. The carrier-aided code
//! offset drifts a little each tick; when it leaves the code period it is
//! wrapped back and the correlation history is adjusted by one entry so
//! that history indices stay aligned with absolute time. The offset is
//! handled here in integer picoseconds.

use vstd::prelude::*;

verus! {

/// Picoseconds in one C/A code period (one millisecond).
pub const CODE_PERIOD_PS: i64 = 1000000000;

/// The history adjustment that a code-offset wrap calls for.
#[derive(PartialEq, Eq, Structural, Clone, Copy, Debug)]
pub enum HistAdjust {
    /// No wrap: leave the history alone.
    Keep,
    /// The offset wrapped past a full period: drop the last prompt sample.
    DropLast,
    /// The offset wrapped below zero: repeat the last prompt sample.
    RepeatLast,
}

/// Wrap a drifted code offset back into `[0, CODE_PERIOD_PS)`. The offset
/// moves by far less than a period per tick, so at most one wrap in either
/// direction is ever needed; the result names the history adjustment that
/// keeps sample indices aligned.
pub fn normalize_code_offset(tau_ps: i64) -> (res: (i64, HistAdjust))
    requires
        -1000000000 <= tau_ps < 2000000000,
    ensures
        0 <= res.0 < 1000000000,
        tau_ps >= 1000000000 ==> res.0 == tau_ps - 1000000000 && res.1 == HistAdjust::DropLast,
        tau_ps < 0 ==> res.0 == tau_ps + 1000000000 && res.1 == HistAdjust::RepeatLast,
        0 <= tau_ps < 1000000000 ==> res.0 == tau_ps && res.1 == HistAdjust::Keep,
{
    if tau_ps >= CODE_PERIOD_PS {
        (tau_ps - CODE_PERIOD_PS, HistAdjust::DropLast)
    } else if tau_ps < 0 {
        (tau_ps + CODE_PERIOD_PS, HistAdjust::RepeatLast)
    } else {
        (tau_ps, HistAdjust::Keep)
    }
}

} // verus!
