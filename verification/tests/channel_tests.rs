use gnss_rcv::channel::{Channel, NavPhase, State};
use gnss_rcv::tracking::{normalize_code_offset, HistAdjust};

#[test]
fn channel_starts_acquiring() {
    let ch = Channel::new(17);
    assert_eq!(ch.prn, 17);
    assert_eq!(ch.state, State::Acquisition);
    assert_eq!(ch.num_acq_samples, 0);
    assert_eq!(ch.nav.eph.prn, 17);
}

#[test]
fn idle_lasts_exactly_three_thousand_ticks() {
    let mut ch = Channel::new(1);
    ch.idle_start();
    assert_eq!(ch.state, State::Idle);
    for _ in 0..2999 {
        ch.idle_process();
        assert_eq!(ch.state, State::Idle);
    }
    ch.idle_process();
    assert_eq!(ch.state, State::Acquisition);
    assert_eq!(ch.num_acq_samples, 0);
    assert_eq!(ch.num_idl_samples, 0);
}

#[test]
fn acquisition_attempt_spans_ten_windows() {
    let mut ch = Channel::new(1);
    for k in 1..=9 {
        assert!(!ch.acquisition_tick(), "window {}", k);
    }
    assert!(ch.acquisition_tick());
    assert_eq!(ch.num_acq_samples, 0);
}

#[test]
fn acquisition_verdict_routes_to_tracking_or_idle() {
    let mut ch = Channel::new(1);
    ch.acquisition_conclude(false);
    assert_eq!(ch.state, State::Idle);

    let mut ch2 = Channel::new(2);
    ch2.nav.ssync = 99;
    ch2.acquisition_conclude(true);
    assert_eq!(ch2.state, State::Tracking);
    assert_eq!(ch2.num_trk_samples, 0);
    // Entering Tracking restarts the navigation search.
    assert_eq!(ch2.nav.ssync, 0);
    assert_eq!(ch2.nav.fsync, 0);
}

#[test]
fn tracking_plan_follows_the_tick_count() {
    let mut ch = Channel::new(1);
    ch.acquisition_conclude(true);

    let plan = ch.tracking_tick();
    assert!(plan.use_fll && plan.fll_wide);
    assert!(!plan.dll_due && !plan.cn0_due && !plan.nav_due);

    for _ in 1..10 {
        ch.tracking_tick();
    }
    assert_eq!(ch.num_trk_samples, 10);
    ch.num_trk_samples = 499;
    let plan = ch.tracking_tick();
    assert!(plan.use_fll && !plan.fll_wide && plan.dll_due);

    ch.num_trk_samples = 999;
    let plan = ch.tracking_tick();
    assert!(!plan.use_fll && plan.cn0_due && plan.dll_due);

    ch.num_trk_samples = 1499;
    let plan = ch.tracking_tick();
    assert!(plan.nav_due);
}

#[test]
fn code_wrap_adjusts_the_tick_count() {
    let mut ch = Channel::new(1);
    ch.acquisition_conclude(true);
    ch.num_trk_samples = 50;
    ch.apply_code_wrap(HistAdjust::Keep);
    assert_eq!(ch.num_trk_samples, 50);
    ch.apply_code_wrap(HistAdjust::DropLast);
    assert_eq!(ch.num_trk_samples, 49);
    ch.apply_code_wrap(HistAdjust::RepeatLast);
    assert_eq!(ch.num_trk_samples, 50);
}

#[test]
fn nav_phase_routes_sbas_search_and_symbols() {
    let mut ch = Channel::new(120);
    assert_eq!(ch.nav_phase(), NavPhase::Sbas);

    ch.prn = 7;
    assert_eq!(ch.nav_phase(), NavPhase::Search { n: 19 });

    ch.nav.ssync = 30;
    ch.num_trk_samples = 50;
    assert_eq!(ch.nav_phase(), NavPhase::Symbol);
    ch.num_trk_samples = 51;
    assert_eq!(ch.nav_phase(), NavPhase::Off);
}

#[test]
fn code_offset_wraps_into_one_period() {
    assert_eq!(
        normalize_code_offset(1_500_000_000),
        (500_000_000, HistAdjust::DropLast)
    );
    assert_eq!(
        normalize_code_offset(-1),
        (999_999_999, HistAdjust::RepeatLast)
    );
    assert_eq!(normalize_code_offset(0), (0, HistAdjust::Keep));
    assert_eq!(normalize_code_offset(42), (42, HistAdjust::Keep));
    assert_eq!(
        normalize_code_offset(999_999_999),
        (999_999_999, HistAdjust::Keep)
    );
    assert_eq!(
        normalize_code_offset(1_000_000_000),
        (0, HistAdjust::DropLast)
    );
}
