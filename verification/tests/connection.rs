use turbo_desktop::connection::{ConnectionMonitor, Transition, VisitError};

#[test]
fn a_single_failure_is_not_enough_to_go_offline() {
    let mut monitor = ConnectionMonitor::new();

    assert_eq!(monitor.record(false), Transition::Unchanged);
    assert!(!monitor.is_offline());
}

#[test]
fn consecutive_failures_go_offline_once() {
    let mut monitor = ConnectionMonitor::new();

    monitor.record(false);
    assert_eq!(
        monitor.record(false),
        Transition::WentOffline(VisitError::NetworkFailure)
    );
    assert!(monitor.is_offline());

    // Still offline, but there is nothing new to announce.
    assert_eq!(monitor.record(false), Transition::Unchanged);
}

#[test]
fn a_success_between_failures_resets_the_count() {
    let mut monitor = ConnectionMonitor::new();

    monitor.record(false);
    assert_eq!(monitor.record(true), Transition::Unchanged);
    assert_eq!(monitor.record(false), Transition::Unchanged);
    assert!(!monitor.is_offline(), "the run of failures was broken");
}

#[test]
fn recovery_is_announced_once() {
    let mut monitor = ConnectionMonitor::new();

    monitor.record(false);
    monitor.record(false);

    assert_eq!(monitor.record(true), Transition::CameOnline);
    assert_eq!(monitor.record(true), Transition::Unchanged);
    assert!(!monitor.is_offline());
}

#[test]
fn error_slugs_match_the_names_the_web_layer_listens_for() {
    assert_eq!(VisitError::NetworkFailure.slug(), "network_failure");
    assert_eq!(VisitError::TimeoutFailure.slug(), "timeout_failure");
    assert_eq!(VisitError::HttpFailure { status: 500 }.slug(), "http_failure");
    assert_eq!(VisitError::PageLoadFailure.slug(), "page_load_failure");
}

#[test]
fn a_long_outage_is_announced_once_and_recovery_once() {
    let mut monitor = ConnectionMonitor::new();
    let mut offline_announcements = 0;
    let mut online_announcements = 0;
    for reachable in [false, false, false, false, false, true, true, false, true] {
        match monitor.record(reachable) {
            Transition::WentOffline(_) => offline_announcements += 1,
            Transition::CameOnline => online_announcements += 1,
            Transition::Unchanged => {}
        }
    }
    assert_eq!(offline_announcements, 1);
    assert_eq!(online_announcements, 1);
    assert!(!monitor.is_offline());
}

#[test]
fn failures_after_recovery_need_the_full_threshold_again() {
    let mut monitor = ConnectionMonitor::new();
    monitor.record(false);
    monitor.record(false);
    assert_eq!(monitor.record(true), Transition::CameOnline);
    assert_eq!(monitor.record(false), Transition::Unchanged);
    assert_eq!(
        monitor.record(false),
        Transition::WentOffline(VisitError::NetworkFailure)
    );
}

#[test]
fn a_server_down_at_startup_starts_offline_and_announces_recovery() {
    let mut monitor = ConnectionMonitor::starting(false);
    assert!(monitor.is_offline());
    assert_eq!(monitor.record(false), Transition::Unchanged);
    assert_eq!(monitor.record(true), Transition::CameOnline);

    let up = ConnectionMonitor::starting(true);
    assert!(!up.is_offline());
}

#[test]
fn announcements_alternate_over_a_long_history() {
    let mut monitor = ConnectionMonitor::new();
    let history = [false, false, false, true, true, false, true, false, false, false, true];
    let announced: Vec<Transition> = history
        .iter()
        .map(|&reachable| monitor.record(reachable))
        .filter(|t| *t != Transition::Unchanged)
        .collect();
    assert_eq!(
        announced,
        vec![
            Transition::WentOffline(VisitError::NetworkFailure),
            Transition::CameOnline,
            Transition::WentOffline(VisitError::NetworkFailure),
            Transition::CameOnline,
        ]
    );
    assert!(!monitor.is_offline());
}
