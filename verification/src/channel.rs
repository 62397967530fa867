//! Per-satellite channel state machine: Idle, Acquisition and Tracking,
//! driven one code period (one millisecond) at a time. The floating-point
//! correlator and loop filters live outside this crate; every decision
//! about state, cadence and counters is made here, on integer tick counts
//! and on threshold verdicts handed in as booleans.

use vstd::prelude::*;
use crate::navigation::{nav_wf, Navigation};

verus! {

/// Idle ticks before a new acquisition attempt: three seconds of code
/// periods.
pub const T_IDLE_TICKS: usize = 3000;

/// Windows accumulated per acquisition attempt: ten milliseconds.
pub const T_ACQ_TICKS: usize = 10;

/// Tracking ticks of frequency pull-in before the phase-locked loop takes
/// over: one second.
pub const T_FPULLIN_TICKS: usize = 1000;

/// Tracking ticks at which the frequency loop narrows its bandwidth.
pub const T_FLL_NARROW_TICKS: usize = 500;

/// Tracking ticks before navigation decoding starts: one and a half
/// seconds.
pub const T_NPULLIN_TICKS: usize = 1500;

/// Ticks per delay-locked-loop update: ten milliseconds.
pub const T_DLL_TICKS: usize = 10;

/// Ticks per carrier-to-noise update: one second.
pub const T_CN0_TICKS: usize = 1000;

/// The mode a channel is in.
#[derive(PartialEq, Eq, Structural, Clone, Copy, Debug)]
pub enum State {
    Tracking,
    Acquisition,
    Idle,
}

/// What the tracking loops must do on one tick, decided by the tick count
/// alone.
#[derive(PartialEq, Eq, Structural, Clone, Copy, Debug)]
pub struct TickPlan {
    /// Run the frequency-locked loop; otherwise the phase-locked loop.
    pub use_fll: bool,
    /// The frequency loop is still in its wide-band phase.
    pub fll_wide: bool,
    /// The delay-locked loop closes its accumulation interval this tick.
    pub dll_due: bool,
    /// The carrier-to-noise estimate is refreshed this tick.
    pub cn0_due: bool,
    /// The navigation decoder receives this tick's prompt correlation.
    pub nav_due: bool,
}

/// What the navigation decoder expects next, so the caller knows which
/// correlator statistic to compute.
#[derive(PartialEq, Eq, Structural, Clone, Copy, Debug)]
pub enum NavPhase {
    /// An SBAS PRN: its message is not decoded here.
    Sbas,
    /// Searching for a bit boundary over the last `2 * n` prompt samples.
    Search { n: usize },
    /// A bit boundary is held and this tick closes a 20-sample bit.
    Symbol,
    /// Between bit boundaries: nothing to do.
    Off,
}

/// One satellite channel.
pub struct Channel {
    /// The PRN this channel tracks.
    pub prn: u8,
    /// Current mode.
    pub state: State,
    /// Ticks spent in Tracking since lock.
    pub num_trk_samples: usize,
    /// Windows accumulated in the current acquisition attempt.
    pub num_acq_samples: usize,
    /// Ticks spent in Idle since the last loss.
    pub num_idl_samples: usize,
    /// The navigation decoder.
    pub nav: Navigation,
}

/// Channel well-formedness: the counter of the current mode stays below its
/// rollover point and the navigation state is sound.
pub open spec fn channel_wf(ch: Channel) -> bool {
    &&& nav_wf(ch.nav)
    &&& (ch.state == State::Idle ==> ch.num_idl_samples < 3000)
    &&& (ch.state == State::Acquisition ==> ch.num_acq_samples < 10)
    &&& ch.num_trk_samples <= usize::MAX - 6000
}

impl Channel {
    /// A fresh channel: it starts in Acquisition with clear counters.
    pub fn new(prn: u8) -> (ch: Channel)
        ensures
            channel_wf(ch),
            ch.prn == prn,
            ch.state == State::Acquisition,
            ch.num_trk_samples == 0,
            ch.num_acq_samples == 0,
            ch.num_idl_samples == 0,
            ch.nav.eph.prn == prn,
    {
        Channel {
            prn,
            state: State::Acquisition,
            num_trk_samples: 0,
            num_acq_samples: 0,
            num_idl_samples: 0,
            nav: Navigation::new(prn),
        }
    }

    /// Drop to Idle, clearing every mode counter. Entered on an acquisition
    /// miss or on loss of lock; the ephemeris is retained.
    pub fn idle_start(&mut self)
        requires
            nav_wf(old(self).nav),
        ensures
            channel_wf(*final(self)),
            final(self).state == State::Idle,
            final(self).num_idl_samples == 0,
            final(self).num_trk_samples == 0,
            final(self).num_acq_samples == 0,
            final(self).nav == old(self).nav,
            final(self).prn == old(self).prn,
    {
        self.state = State::Idle;
        self.num_idl_samples = 0;
        self.num_trk_samples = 0;
        self.num_acq_samples = 0;
    }

    /// Enter Acquisition with a cleared accumulator. The window counter is
    /// reset on every transition into Acquisition; the caller clears its
    /// power grid alongside.
    pub fn acquisition_start(&mut self)
        requires
            nav_wf(old(self).nav),
        ensures
            channel_wf(*final(self)),
            final(self).state == State::Acquisition,
            final(self).num_acq_samples == 0,
            final(self).num_idl_samples == 0,
            final(self).num_trk_samples == 0,
            final(self).nav == old(self).nav,
            final(self).prn == old(self).prn,
    {
        self.state = State::Acquisition;
        self.num_acq_samples = 0;
        self.num_idl_samples = 0;
        self.num_trk_samples = 0;
    }

    /// One Idle tick. The channel leaves Idle for Acquisition exactly when
    /// the idle tick count reaches `T_IDLE_TICKS`, never earlier and never
    /// later.
    pub fn idle_process(&mut self)
        requires
            channel_wf(*old(self)),
            old(self).state == State::Idle,
        ensures
            channel_wf(*final(self)),
            final(self).prn == old(self).prn,
            final(self).nav == old(self).nav,
            old(self).num_idl_samples + 1 == 3000 ==> final(self).state == State::Acquisition
                && final(self).num_acq_samples == 0 && final(self).num_idl_samples == 0
                && final(self).num_trk_samples == 0,
            old(self).num_idl_samples + 1 < 3000 ==> final(self).state == State::Idle
                && final(self).num_idl_samples == old(self).num_idl_samples + 1
                && final(self).num_acq_samples == old(self).num_acq_samples
                && final(self).num_trk_samples == old(self).num_trk_samples,
    {
        self.num_idl_samples = self.num_idl_samples + 1;
        if self.num_idl_samples >= T_IDLE_TICKS {
            self.acquisition_start();
        }
    }

    /// One Acquisition tick: another window went into the accumulator. The
    /// result says whether the attempt is finished, after exactly
    /// `T_ACQ_TICKS` windows, and the caller must then judge the peak.
    pub fn acquisition_tick(&mut self) -> (full: bool)
        requires
            channel_wf(*old(self)),
            old(self).state == State::Acquisition,
        ensures
            channel_wf(*final(self)),
            final(self).prn == old(self).prn,
            final(self).nav == old(self).nav,
            final(self).state == State::Acquisition,
            final(self).num_acq_samples == (old(self).num_acq_samples + 1) % 10,
            full == (old(self).num_acq_samples + 1 == 10),
            final(self).num_trk_samples == old(self).num_trk_samples,
            final(self).num_idl_samples == old(self).num_idl_samples,
    {
        self.num_acq_samples = self.num_acq_samples + 1;
        if self.num_acq_samples >= T_ACQ_TICKS {
            self.num_acq_samples = 0;
            true
        } else {
            false
        }
    }

    /// Conclude a full acquisition attempt: a peak at or above the lock
    /// threshold starts Tracking with cleared loop state, anything else
    /// goes Idle for another round. Either way the accumulator starts over.
    pub fn acquisition_conclude(&mut self, locked: bool)
        requires
            channel_wf(*old(self)),
            old(self).state == State::Acquisition,
        ensures
            channel_wf(*final(self)),
            final(self).prn == old(self).prn,
            final(self).num_acq_samples == 0,
            final(self).num_idl_samples == 0,
            final(self).num_trk_samples == 0,
            locked ==> final(self).state == State::Tracking && final(self).nav.ssync == 0
                && final(self).nav.fsync == 0 && final(self).nav.eph == old(self).nav.eph,
            !locked ==> final(self).state == State::Idle && final(self).nav == old(self).nav,
    {
        if locked {
            self.num_acq_samples = 0;
            self.num_idl_samples = 0;
            self.num_trk_samples = 0;
            self.nav.init();
            self.state = State::Tracking;
        } else {
            self.idle_start();
        }
    }

    /// One Tracking tick: advance the tick count and lay out which loops
    /// run, from the tick count alone.
    pub fn tracking_tick(&mut self) -> (plan: TickPlan)
        requires
            channel_wf(*old(self)),
            old(self).state == State::Tracking,
            old(self).num_trk_samples < usize::MAX - 6000,
        ensures
            channel_wf(*final(self)),
            final(self).prn == old(self).prn,
            final(self).nav == old(self).nav,
            final(self).state == State::Tracking,
            final(self).num_trk_samples == old(self).num_trk_samples + 1,
            final(self).num_acq_samples == old(self).num_acq_samples,
            final(self).num_idl_samples == old(self).num_idl_samples,
            plan.use_fll == (final(self).num_trk_samples < 1000),
            plan.fll_wide == (final(self).num_trk_samples < 500),
            plan.dll_due == (final(self).num_trk_samples % 10 == 0),
            plan.cn0_due == (final(self).num_trk_samples % 1000 == 0),
            plan.nav_due == (final(self).num_trk_samples >= 1500),
    {
        self.num_trk_samples = self.num_trk_samples + 1;
        let n = self.num_trk_samples;
        TickPlan {
            use_fll: n < T_FPULLIN_TICKS,
            fll_wide: n < T_FLL_NARROW_TICKS,
            dll_due: n % T_DLL_TICKS == 0,
            cn0_due: n % T_CN0_TICKS == 0,
            nav_due: n >= T_NPULLIN_TICKS,
        }
    }

    /// Which navigation step the decoder expects at this tick: SBAS PRNs
    /// are routed away, a channel without bit sync searches for a boundary,
    /// one with bit sync closes a bit every twentieth tick.
    pub fn nav_phase(&self) -> (ph: NavPhase)
        requires
            channel_wf(*self),
            self.nav.ssync <= self.num_trk_samples,
        ensures
            120 <= self.prn <= 158 ==> ph == NavPhase::Sbas,
            !(120 <= self.prn <= 158) && self.nav.ssync == 0 ==> ph == (NavPhase::Search {
                n: 19usize,
            }),
            !(120 <= self.prn <= 158) && self.nav.ssync != 0 && (self.num_trk_samples
                - self.nav.ssync) % 20 == 0 ==> ph == NavPhase::Symbol,
            !(120 <= self.prn <= 158) && self.nav.ssync != 0 && (self.num_trk_samples
                - self.nav.ssync) % 20 != 0 ==> ph == NavPhase::Off,
    {
        if 120 <= self.prn && self.prn <= 158 {
            NavPhase::Sbas
        } else if self.nav.ssync == 0 {
            NavPhase::Search { n: 19 }
        } else if (self.num_trk_samples - self.nav.ssync) % 20 == 0 {
            NavPhase::Symbol
        } else {
            NavPhase::Off
        }
    }

    /// Apply a code-period wrap to the tracking tick count: a drop when the
    /// code offset wrapped past a full period, a repeat when it wrapped
    /// below zero, so that history indices stay aligned with absolute time.
    pub fn apply_code_wrap(&mut self, adj: crate::tracking::HistAdjust)
        requires
            channel_wf(*old(self)),
            old(self).state == State::Tracking,
            adj == crate::tracking::HistAdjust::DropLast ==> old(self).num_trk_samples >= 1,
            old(self).num_trk_samples < usize::MAX - 6000,
        ensures
            channel_wf(*final(self)),
            final(self).prn == old(self).prn,
            final(self).nav == old(self).nav,
            final(self).state == State::Tracking,
            final(self).num_trk_samples == (match adj {
                crate::tracking::HistAdjust::DropLast => (old(self).num_trk_samples - 1) as usize,
                crate::tracking::HistAdjust::RepeatLast => (old(self).num_trk_samples
                    + 1) as usize,
                crate::tracking::HistAdjust::Keep => old(self).num_trk_samples,
            }),
    {
        match adj {
            crate::tracking::HistAdjust::DropLast => {
                self.num_trk_samples = self.num_trk_samples - 1;
            },
            crate::tracking::HistAdjust::RepeatLast => {
                self.num_trk_samples = self.num_trk_samples + 1;
            },
            crate::tracking::HistAdjust::Keep => {},
        }
    }
}

} // verus!
