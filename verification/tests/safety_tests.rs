use nut_monitor::safety::{HostAction, SafetyConfig, SafetyEvent, ShutdownTracker};

fn config() -> SafetyConfig {
    SafetyConfig {
        enabled: true,
        // 20% charge, 300 s runtime, both in centi-units.
        charge_threshold: 2000,
        runtime_threshold: 30000,
        countdown_secs: 60,
        action: HostAction::Shutdown,
    }
}

#[test]
fn critical_charge_arms_with_full_countdown() {
    let cfg = config();
    let mut t = ShutdownTracker::new();
    // charge 15% < threshold 20%
    let ev = t.evaluate(&cfg, Some(1500), None, 10);
    assert!(t.armed);
    assert_eq!(t.remaining, 60);
    assert!(matches!(ev, SafetyEvent::Warning(60)));
}

#[test]
fn second_critical_tick_counts_down_without_rearming() {
    let cfg = config();
    let mut t = ShutdownTracker::new();
    t.evaluate(&cfg, Some(1500), None, 10);
    assert_eq!(t.remaining, 60);
    // 10 s later: the warning carries the current remaining time, then
    // the countdown drops by the elapsed interval; it is never reset.
    let ev = t.evaluate(&cfg, Some(1500), None, 10);
    assert!(matches!(ev, SafetyEvent::Warning(60)));
    assert_eq!(t.remaining, 50);
    let ev = t.evaluate(&cfg, Some(1500), None, 10);
    assert!(matches!(ev, SafetyEvent::Warning(50)));
    assert_eq!(t.remaining, 40);
}

#[test]
fn recovery_disarms_at_once_even_near_expiry() {
    let cfg = config();
    let mut t = ShutdownTracker::new();
    t.evaluate(&cfg, Some(1500), None, 10);
    t.evaluate(&cfg, Some(1500), None, 59);
    assert_eq!(t.remaining, 1);
    // charge 25% is non-critical: unconditional disarm.
    let ev = t.evaluate(&cfg, Some(2500), None, 10);
    assert!(!t.armed);
    assert!(matches!(ev, SafetyEvent::Cancelled));
}

#[test]
fn expired_countdown_fires_the_recorded_action_and_disarms() {
    let cfg = config();
    let mut t = ShutdownTracker::new();
    t.evaluate(&cfg, Some(1500), None, 10);
    // elapsed longer than remaining saturates at zero, never negative.
    let ev = t.evaluate(&cfg, Some(1500), None, 100);
    assert!(matches!(ev, SafetyEvent::Warning(60)));
    assert_eq!(t.remaining, 0);
    let ev = t.evaluate(&cfg, Some(1500), None, 10);
    assert!(matches!(ev, SafetyEvent::Execute(HostAction::Shutdown)));
    assert!(!t.armed);
}

#[test]
fn low_runtime_alone_is_critical() {
    let cfg = config();
    let mut t = ShutdownTracker::new();
    // runtime 120 s < threshold 300 s, charge absent.
    let ev = t.evaluate(&cfg, None, Some(12000), 10);
    assert!(t.armed);
    assert!(matches!(ev, SafetyEvent::Warning(60)));
}

#[test]
fn absent_readings_never_trigger() {
    let cfg = config();
    let mut t = ShutdownTracker::new();
    let ev = t.evaluate(&cfg, None, None, 10);
    assert!(!t.armed);
    assert!(matches!(ev, SafetyEvent::Quiet));
}

#[test]
fn disabled_feature_leaves_the_tracker_untouched() {
    let mut cfg = config();
    cfg.enabled = false;
    let mut t = ShutdownTracker::new();
    let ev = t.evaluate(&cfg, Some(100), Some(100), 10);
    assert!(!t.armed);
    assert!(matches!(ev, SafetyEvent::Quiet));
}

#[test]
fn manual_abort_disarms_regardless_of_criticality() {
    let cfg = config();
    let mut t = ShutdownTracker::new();
    t.evaluate(&cfg, Some(1500), None, 10);
    assert!(t.armed);
    t.abort();
    assert!(!t.armed);
}
