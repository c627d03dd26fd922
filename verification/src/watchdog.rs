//! Polling watchdog: the per-tick decision machine that drives one
//! telemetry source on a fixed cadence.  The machine owns every
//! decision — when to connect, fetch, reconnect, retry, tear down —
//! while the caller performs the network work and reports each
//! outcome back as an event.  A wedged peer can cost at most one
//! tick: a timeout tears the session down, and the following tick
//! starts from "no session" and opens a fresh connection.

use vstd::prelude::*;

verus! {

/// Where the watchdog stands within one tick.
#[derive(Clone, Copy, Debug, PartialEq, Eq, Structural)]
pub enum TickPhase {
    /// Between ticks.
    Idle,
    /// A fresh connection attempt is outstanding.
    Connecting,
    /// The tick's first fetch is outstanding.
    Fetching,
    /// The single mid-tick reconnect after a failed fetch is outstanding.
    Reconnecting,
    /// The single retry fetch after a reconnect is outstanding.
    Retrying,
}

/// What the caller must do next.
#[derive(Clone, Copy, Debug, PartialEq, Eq, Structural)]
pub enum PollAction {
    /// Open a fresh session, then report the outcome.
    Connect,
    /// Re-open the existing session's transport, then report.
    Reconnect,
    /// Fetch telemetry under the bounded deadline, then report.
    Fetch,
    /// Deliver the fetched record to both policy consumers; tick over.
    Publish,
    /// Tick over, reported failed; the session, if any, stays for the
    /// next tick.
    ReportFailed,
    /// Tick over, reported failed; the session was torn down and must
    /// not be reused.
    TearDown,
}

/// Outcome of the work the caller was asked to do.
#[derive(Clone, Copy, Debug, PartialEq, Eq, Structural)]
pub enum PollEvent {
    ConnectOk,
    ConnectErr,
    FetchOk,
    FetchErr,
    /// The fetch exceeded its bounded deadline: the session is
    /// presumed poisoned.
    FetchTimeout,
}

/// The watchdog's state between caller interactions.
#[derive(Clone, Copy, Debug, PartialEq, Eq, Structural)]
pub struct Watchdog {
    /// Whether a client session exists.
    pub has_session: bool,
    pub phase: TickPhase,
}

/// Opening a tick: with no session, attempt one fresh connection —
/// retry is rate-limited by the tick cadence itself; with a session,
/// go straight to the fetch.
pub open spec fn tick_begin(w: Watchdog) -> (Watchdog, PollAction) {
    if !w.has_session {
        (Watchdog { has_session: false, phase: TickPhase::Connecting }, PollAction::Connect)
    } else {
        (Watchdog { has_session: true, phase: TickPhase::Fetching }, PollAction::Fetch)
    }
}

/// The event is one the outstanding action can report.
pub open spec fn event_fits(w: Watchdog, ev: PollEvent) -> bool {
    match w.phase {
        TickPhase::Idle => false,
        TickPhase::Connecting => ev is ConnectOk || ev is ConnectErr,
        TickPhase::Reconnecting => ev is ConnectOk || ev is ConnectErr,
        TickPhase::Fetching => ev is FetchOk || ev is FetchErr || ev is FetchTimeout,
        TickPhase::Retrying => ev is FetchOk || ev is FetchErr || ev is FetchTimeout,
    }
}

/// One reported outcome:
/// - a fresh connection that fails ends the tick as "not connected";
/// - a successful fetch ends the tick by publishing the record;
/// - a failed fetch earns exactly one reconnect and one retry, after
///   which the tick is reported failed with the session left intact;
/// - a timed-out fetch tears the session down at once: the held lock
///   must never stay blocked on a stuck peer, and the torn-down
///   socket is never reused.
pub open spec fn wd_step(w: Watchdog, ev: PollEvent) -> (Watchdog, PollAction) {
    match (w.phase, ev) {
        (TickPhase::Connecting, PollEvent::ConnectOk) => (
            Watchdog { has_session: true, phase: TickPhase::Fetching },
            PollAction::Fetch,
        ),
        (TickPhase::Connecting, _) => (
            Watchdog { has_session: false, phase: TickPhase::Idle },
            PollAction::ReportFailed,
        ),
        (TickPhase::Fetching, PollEvent::FetchOk) => (
            Watchdog { has_session: w.has_session, phase: TickPhase::Idle },
            PollAction::Publish,
        ),
        (TickPhase::Fetching, PollEvent::FetchTimeout) => (
            Watchdog { has_session: false, phase: TickPhase::Idle },
            PollAction::TearDown,
        ),
        (TickPhase::Fetching, _) => (
            Watchdog { has_session: w.has_session, phase: TickPhase::Reconnecting },
            PollAction::Reconnect,
        ),
        (TickPhase::Reconnecting, PollEvent::ConnectOk) => (
            Watchdog { has_session: true, phase: TickPhase::Retrying },
            PollAction::Fetch,
        ),
        (TickPhase::Reconnecting, _) => (
            Watchdog { has_session: w.has_session, phase: TickPhase::Idle },
            PollAction::ReportFailed,
        ),
        (TickPhase::Retrying, PollEvent::FetchOk) => (
            Watchdog { has_session: w.has_session, phase: TickPhase::Idle },
            PollAction::Publish,
        ),
        (TickPhase::Retrying, PollEvent::FetchTimeout) => (
            Watchdog { has_session: false, phase: TickPhase::Idle },
            PollAction::TearDown,
        ),
        (TickPhase::Retrying, _) => (
            Watchdog { has_session: w.has_session, phase: TickPhase::Idle },
            PollAction::ReportFailed,
        ),
        (TickPhase::Idle, _) => (w, PollAction::ReportFailed),
    }
}

impl Watchdog {
    /// The watchdog at process start: no session, between ticks.
    pub fn new() -> (w: Watchdog)
        ensures
            !w.has_session,
            w.phase is Idle,
    {
        Watchdog { has_session: false, phase: TickPhase::Idle }
    }

    /// Open a tick.
    pub fn begin_tick(&mut self) -> (a: PollAction)
        requires
            old(self).phase is Idle,
        ensures
            (*final(self), a) == tick_begin(*old(self)),
    {
        if !self.has_session {
            self.phase = TickPhase::Connecting;
            PollAction::Connect
        } else {
            self.phase = TickPhase::Fetching;
            PollAction::Fetch
        }
    }

    /// Report the outcome of the outstanding action.
    pub fn on_event(&mut self, ev: PollEvent) -> (a: PollAction)
        requires
            event_fits(*old(self), ev),
        ensures
            (*final(self), a) == wd_step(*old(self), ev),
    {
        let next: (Watchdog, PollAction) = match (self.phase, ev) {
            (TickPhase::Connecting, PollEvent::ConnectOk) => (
                Watchdog { has_session: true, phase: TickPhase::Fetching },
                PollAction::Fetch,
            ),
            (TickPhase::Connecting, _) => (
                Watchdog { has_session: false, phase: TickPhase::Idle },
                PollAction::ReportFailed,
            ),
            (TickPhase::Fetching, PollEvent::FetchOk) => (
                Watchdog { has_session: self.has_session, phase: TickPhase::Idle },
                PollAction::Publish,
            ),
            (TickPhase::Fetching, PollEvent::FetchTimeout) => (
                Watchdog { has_session: false, phase: TickPhase::Idle },
                PollAction::TearDown,
            ),
            (TickPhase::Fetching, _) => (
                Watchdog { has_session: self.has_session, phase: TickPhase::Reconnecting },
                PollAction::Reconnect,
            ),
            (TickPhase::Reconnecting, PollEvent::ConnectOk) => (
                Watchdog { has_session: true, phase: TickPhase::Retrying },
                PollAction::Fetch,
            ),
            (TickPhase::Reconnecting, _) => (
                Watchdog { has_session: self.has_session, phase: TickPhase::Idle },
                PollAction::ReportFailed,
            ),
            (TickPhase::Retrying, PollEvent::FetchOk) => (
                Watchdog { has_session: self.has_session, phase: TickPhase::Idle },
                PollAction::Publish,
            ),
            (TickPhase::Retrying, PollEvent::FetchTimeout) => (
                Watchdog { has_session: false, phase: TickPhase::Idle },
                PollAction::TearDown,
            ),
            (TickPhase::Retrying, _) => (
                Watchdog { has_session: self.has_session, phase: TickPhase::Idle },
                PollAction::ReportFailed,
            ),
            (TickPhase::Idle, _) => (*self, PollAction::ReportFailed),
        };
        *self = next.0;
        next.1
    }
}

/// Losing the session to a timeout mid-tick leaves no session behind,
/// and the very next tick starts from "no session" and attempts a
/// fresh connection: a torn-down socket is never reused.
pub proof fn lemma_timeout_forces_fresh_connection(w: Watchdog)
    requires
        w.phase is Fetching || w.phase is Retrying,
    ensures
        !wd_step(w, PollEvent::FetchTimeout).0.has_session,
        wd_step(w, PollEvent::FetchTimeout).1 is TearDown,
        wd_step(w, PollEvent::FetchTimeout).0.phase is Idle,
        tick_begin(wd_step(w, PollEvent::FetchTimeout).0).1 is Connect,
{
}

} // verus!
