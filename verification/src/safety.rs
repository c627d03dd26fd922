//! Power-loss safety state machine: an armed/unarmed countdown toward
//! one host action, driven purely by telemetry evaluation.  The caller
//! dispatches the returned event; in particular the host action is
//! fired as an isolated, detached operation so that a slow platform
//! call can never stall the polling loop.

use vstd::prelude::*;

verus! {

/// The closed set of host actions a countdown can end in.
#[derive(Clone, Copy, Debug, PartialEq, Eq, Structural)]
pub enum HostAction {
    Shutdown,
    Hibernate,
    Sleep,
}

/// Configuration of the safety feature, read anew at every tick.
#[derive(Clone, Copy)]
pub struct SafetyConfig {
    /// Evaluation happens only while this holds; a disabled feature
    /// leaves the tracker exactly as it stands.
    pub enabled: bool,
    /// Battery charge threshold in centi-percent.
    pub charge_threshold: i64,
    /// Runtime-remaining threshold in centi-seconds.
    pub runtime_threshold: i64,
    /// Countdown duration in whole seconds.
    pub countdown_secs: u64,
    /// The action armed when the countdown starts.
    pub action: HostAction,
}

/// Outward event of one evaluation, handed to the caller to dispatch.
#[derive(Clone, Copy, Debug)]
pub enum SafetyEvent {
    /// Nothing to report.
    Quiet,
    /// A countdown is running: warn with the seconds remaining.
    Warning(u64),
    /// The countdown expired: invoke the host action, now disarmed.
    Execute(HostAction),
    /// The countdown was cleared by a non-critical reading.
    Cancelled,
}

/// The mutable tracker: created unarmed at process start, destroyed
/// with the process.  `remaining` is meaningful only while `armed`.
pub struct ShutdownTracker {
    pub armed: bool,
    pub remaining: u64,
    pub action: HostAction,
}

/// A reading is critical when the reported charge is under the charge
/// threshold or the reported runtime is under the runtime threshold.
/// An absent reading counts as full — it never triggers.
pub open spec fn is_critical(cfg: SafetyConfig, charge: Option<i64>, runtime: Option<i64>) -> bool {
    (charge matches Some(c) && c < cfg.charge_threshold) || (runtime matches Some(t) && t
        < cfg.runtime_threshold)
}

/// `remaining` after one tick of `elapsed` seconds, saturating at zero.
pub open spec fn countdown_after(remaining: u64, elapsed: u64) -> u64 {
    if elapsed > remaining {
        0
    } else {
        (remaining - elapsed) as u64
    }
}

/// One evaluation of the tracker against a reading:
/// - critical and unarmed: arm with the full countdown and warn;
/// - critical and armed with time left: warn with the current
///   remaining time, then count down by the elapsed tick interval —
///   arming is never repeated, so the countdown is never extended;
/// - critical and armed at zero: fire the recorded action and disarm;
/// - non-critical and armed: disarm at once, whatever remains;
/// - non-critical and unarmed: nothing;
/// - feature disabled: nothing, the tracker stands untouched.
pub open spec fn safety_step(
    t: ShutdownTracker,
    cfg: SafetyConfig,
    charge: Option<i64>,
    runtime: Option<i64>,
    elapsed: u64,
) -> (ShutdownTracker, SafetyEvent) {
    if !cfg.enabled {
        (t, SafetyEvent::Quiet)
    } else if is_critical(cfg, charge, runtime) {
        if !t.armed {
            (
                ShutdownTracker {
                    armed: true,
                    remaining: cfg.countdown_secs,
                    action: cfg.action,
                },
                SafetyEvent::Warning(cfg.countdown_secs),
            )
        } else if t.remaining == 0 {
            (ShutdownTracker { armed: false, ..t }, SafetyEvent::Execute(t.action))
        } else {
            (
                ShutdownTracker { remaining: countdown_after(t.remaining, elapsed), ..t },
                SafetyEvent::Warning(t.remaining),
            )
        }
    } else {
        if t.armed {
            (ShutdownTracker { armed: false, ..t }, SafetyEvent::Cancelled)
        } else {
            (t, SafetyEvent::Quiet)
        }
    }
}

impl ShutdownTracker {
    /// The tracker at process start: unarmed.
    pub fn new() -> (t: ShutdownTracker)
        ensures
            !t.armed,
            t.remaining == 0,
            t.action is Shutdown,
    {
        ShutdownTracker { armed: false, remaining: 0, action: HostAction::Shutdown }
    }

    /// Evaluate one telemetry reading, `elapsed` whole seconds after
    /// the previous evaluation.  Charge is in centi-percent, runtime
    /// in centi-seconds, both absent when the device did not report
    /// them.
    pub fn evaluate(
        &mut self,
        cfg: &SafetyConfig,
        charge: Option<i64>,
        runtime: Option<i64>,
        elapsed: u64,
    ) -> (ev: SafetyEvent)
        ensures
            (*final(self), ev) == safety_step(*old(self), *cfg, charge, runtime, elapsed),
    {
        if !cfg.enabled {
            return SafetyEvent::Quiet;
        }
        let mut critical = false;
        if let Some(c) = charge {
            if c < cfg.charge_threshold {
                critical = true;
            }
        }
        if let Some(t) = runtime {
            if t < cfg.runtime_threshold {
                critical = true;
            }
        }
        if critical {
            if !self.armed {
                self.armed = true;
                self.remaining = cfg.countdown_secs;
                self.action = cfg.action;
                SafetyEvent::Warning(cfg.countdown_secs)
            } else if self.remaining == 0 {
                self.armed = false;
                SafetyEvent::Execute(self.action)
            } else {
                let before = self.remaining;
                if elapsed > self.remaining {
                    self.remaining = 0;
                } else {
                    self.remaining = self.remaining - elapsed;
                }
                SafetyEvent::Warning(before)
            }
        } else {
            if self.armed {
                self.armed = false;
                SafetyEvent::Cancelled
            } else {
                SafetyEvent::Quiet
            }
        }
    }

    /// Manual abort: disarm at once, regardless of criticality and
    /// independent of the tick cycle.
    pub fn abort(&mut self)
        ensures
            !final(self).armed,
            final(self).remaining == old(self).remaining,
            final(self).action == old(self).action,
    {
        self.armed = false;
    }
}

/// Repeated critical ticks while armed never reset or extend the
/// countdown: only the initial arming sets `remaining`, and every
/// later critical tick leaves it no larger than before.
pub proof fn lemma_countdown_never_extends(
    t: ShutdownTracker,
    cfg: SafetyConfig,
    charge: Option<i64>,
    runtime: Option<i64>,
    elapsed: u64,
)
    requires
        cfg.enabled,
        t.armed,
        is_critical(cfg, charge, runtime),
    ensures
        safety_step(t, cfg, charge, runtime, elapsed).0.remaining <= t.remaining,
{
}

/// Recovery is unconditional: any single non-critical reading while
/// armed disarms at once and emits the cancellation, however close the
/// countdown stood to expiry.  There is deliberately no hysteresis.
pub proof fn lemma_recovery_unconditional(
    t: ShutdownTracker,
    cfg: SafetyConfig,
    charge: Option<i64>,
    runtime: Option<i64>,
    elapsed: u64,
)
    requires
        cfg.enabled,
        t.armed,
        !is_critical(cfg, charge, runtime),
    ensures
        !safety_step(t, cfg, charge, runtime, elapsed).0.armed,
        safety_step(t, cfg, charge, runtime, elapsed).1 is Cancelled,
{
}

} // verus!
