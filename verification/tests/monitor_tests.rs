use fmt_sentinel::monitor::ActivityMonitor;
use fmt_sentinel::monitor::Verbosity;

#[test]
fn escalation_crosses_each_threshold_once() {
    let t: u64 = 1_000_000;
    let mut m = ActivityMonitor::new();
    assert_eq!(None, m.check_escalation(t));
    assert!(!m.on_progress(t));
    // Within the first half hour nothing changes.
    assert_eq!(None, m.check_escalation(t + 1800));
    assert_eq!(0, m.error_mode);
    // Past thirty minutes the mode rises to 1, exactly once.
    assert_eq!(Some(Verbosity::Info), m.check_escalation(t + 1801));
    assert_eq!(1, m.error_mode);
    assert_eq!(None, m.check_escalation(t + 2000));
    // Past sixty minutes, mode 2.
    assert_eq!(Some(Verbosity::Debug), m.check_escalation(t + 3601));
    assert_eq!(2, m.error_mode);
    assert_eq!(None, m.check_escalation(t + 5400));
    // Past ninety minutes, mode 3.
    assert_eq!(Some(Verbosity::Trace), m.check_escalation(t + 5401));
    assert_eq!(3, m.error_mode);
    assert_eq!(None, m.check_escalation(t + 90_000));
}

#[test]
fn progress_resets_any_mode_to_zero() {
    let t: u64 = 5_000;
    let mut m = ActivityMonitor::new();
    m.on_progress(t);
    m.check_escalation(t + 5401);
    assert_eq!(3, m.error_mode);
    assert!(m.on_progress(t + 6000));
    assert_eq!(0, m.error_mode);
    assert_eq!(Some(t + 6000), m.last_progress_at);
    // A reset from mode 0 is no reset.
    assert!(!m.on_progress(t + 6001));
}

#[test]
fn a_backwards_clock_escalates_nothing() {
    let t: u64 = 10_000;
    let mut m = ActivityMonitor::new();
    m.on_progress(t);
    assert_eq!(None, m.check_escalation(t - 5000));
    assert_eq!(0, m.error_mode);
}

#[test]
fn a_skipped_threshold_is_entered_directly() {
    let t: u64 = 0;
    let mut m = ActivityMonitor::new();
    m.on_progress(t);
    assert_eq!(Some(Verbosity::Debug), m.check_escalation(t + 4000));
    assert_eq!(2, m.error_mode);
}
