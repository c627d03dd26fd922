use nut_monitor::watchdog::{PollAction, PollEvent, Watchdog};

#[test]
fn healthy_tick_fetches_and_publishes() {
    let mut w = Watchdog::new();
    // First tick: no session yet, so connect, then fetch.
    assert_eq!(w.begin_tick(), PollAction::Connect);
    assert_eq!(w.on_event(PollEvent::ConnectOk), PollAction::Fetch);
    assert_eq!(w.on_event(PollEvent::FetchOk), PollAction::Publish);
    assert!(w.has_session);
    // Next tick goes straight to the fetch.
    assert_eq!(w.begin_tick(), PollAction::Fetch);
    assert_eq!(w.on_event(PollEvent::FetchOk), PollAction::Publish);
}

#[test]
fn timeout_tears_down_and_next_tick_connects_fresh() {
    let mut w = Watchdog::new();
    w.begin_tick();
    w.on_event(PollEvent::ConnectOk);
    w.on_event(PollEvent::FetchOk);
    // A wedged peer on the next tick: the session is torn down at
    // once, and the following tick starts from "no session" with a
    // fresh connection attempt — the old socket is never reused.
    assert_eq!(w.begin_tick(), PollAction::Fetch);
    assert_eq!(w.on_event(PollEvent::FetchTimeout), PollAction::TearDown);
    assert!(!w.has_session);
    assert_eq!(w.begin_tick(), PollAction::Connect);
}

#[test]
fn fetch_error_earns_one_reconnect_and_one_retry() {
    let mut w = Watchdog::new();
    w.begin_tick();
    w.on_event(PollEvent::ConnectOk);
    w.on_event(PollEvent::FetchOk);
    w.begin_tick();
    assert_eq!(w.on_event(PollEvent::FetchErr), PollAction::Reconnect);
    assert_eq!(w.on_event(PollEvent::ConnectOk), PollAction::Fetch);
    // The single retry also fails: the tick is reported failed, the
    // session stays for the next tick.
    assert_eq!(w.on_event(PollEvent::FetchErr), PollAction::ReportFailed);
    assert!(w.has_session);
    assert_eq!(w.begin_tick(), PollAction::Fetch);
}

#[test]
fn failed_reconnect_ends_the_tick_with_session_intact() {
    let mut w = Watchdog::new();
    w.begin_tick();
    w.on_event(PollEvent::ConnectOk);
    w.on_event(PollEvent::FetchOk);
    w.begin_tick();
    assert_eq!(w.on_event(PollEvent::FetchErr), PollAction::Reconnect);
    assert_eq!(w.on_event(PollEvent::ConnectErr), PollAction::ReportFailed);
    assert!(w.has_session);
}

#[test]
fn failed_fresh_connection_reports_not_connected() {
    let mut w = Watchdog::new();
    assert_eq!(w.begin_tick(), PollAction::Connect);
    assert_eq!(w.on_event(PollEvent::ConnectErr), PollAction::ReportFailed);
    assert!(!w.has_session);
    // Retry is rate-limited by the tick cadence itself.
    assert_eq!(w.begin_tick(), PollAction::Connect);
}

#[test]
fn timeout_on_the_retry_also_tears_down() {
    let mut w = Watchdog::new();
    w.begin_tick();
    w.on_event(PollEvent::ConnectOk);
    w.on_event(PollEvent::FetchOk);
    w.begin_tick();
    w.on_event(PollEvent::FetchErr);
    w.on_event(PollEvent::ConnectOk);
    assert_eq!(w.on_event(PollEvent::FetchTimeout), PollAction::TearDown);
    assert!(!w.has_session);
    assert_eq!(w.begin_tick(), PollAction::Connect);
}
