use nut_monitor::history::{HistoryEntry, HistoryLogger, HistoryStore};
use nut_monitor::models::UpsData;

fn sample(status: &str, input_voltage: Option<i64>, load: Option<i64>, charge: Option<i64>) -> UpsData {
    let mut d = UpsData::default();
    d.status = status.to_string();
    d.input_voltage = input_voltage;
    d.ups_load = load;
    d.battery_charge = charge;
    d
}

fn entry(ts: u64, status: &str) -> HistoryEntry {
    HistoryEntry {
        id: None,
        timestamp: ts,
        input_voltage: Some(23000),
        output_voltage: Some(22900),
        load_percent: Some(4200),
        battery_charge: Some(9800),
        status: status.to_string(),
    }
}

#[test]
fn first_record_always_persists() {
    let mut l = HistoryLogger::new();
    assert!(l.observe(&sample("OL", Some(12000), Some(1000), Some(9000)), 0));
}

#[test]
fn status_change_persists_regardless_of_numeric_deltas() {
    let mut l = HistoryLogger::new();
    l.observe(&sample("OL", Some(12000), Some(1000), Some(9000)), 0);
    // Identical numbers, different status: persists.
    assert!(l.observe(&sample("OB", Some(12000), Some(1000), Some(9000)), 1));
}

#[test]
fn slow_voltage_drift_is_discarded() {
    let mut l = HistoryLogger::new();
    // Baseline 120.00 V at t = 0.
    l.observe(&sample("OL", Some(12000), Some(1000), Some(9000)), 0);
    // 120.30 V one second later: 0.3 V/s, under the half-volt rule.
    assert!(!l.observe(&sample("OL", Some(12030), Some(1000), Some(9000)), 1000));
}

#[test]
fn fast_voltage_swing_persists() {
    let mut l = HistoryLogger::new();
    l.observe(&sample("OL", Some(12000), Some(1000), Some(9000)), 0);
    // 120.60 V half a second later: 1.2 V/s, over the half-volt rule.
    assert!(l.observe(&sample("OL", Some(12060), Some(1000), Some(9000)), 500));
}

#[test]
fn load_step_over_five_points_persists() {
    let mut l = HistoryLogger::new();
    l.observe(&sample("OL", Some(12000), Some(1000), Some(9000)), 0);
    assert!(!l.observe(&sample("OL", Some(12000), Some(1400), Some(9000)), 1000));
    assert!(l.observe(&sample("OL", Some(12000), Some(1600), Some(9000)), 2000));
}

#[test]
fn charge_step_over_two_points_persists() {
    let mut l = HistoryLogger::new();
    l.observe(&sample("OL", Some(12000), Some(1000), Some(9000)), 0);
    assert!(!l.observe(&sample("OL", Some(12000), Some(1000), Some(8900)), 1000));
    assert!(l.observe(&sample("OL", Some(12000), Some(1000), Some(8690)), 2000));
}

#[test]
fn heartbeat_fires_after_600_seconds_since_last_persist() {
    let mut l = HistoryLogger::new();
    l.observe(&sample("OL", Some(12000), Some(1000), Some(9000)), 0);
    assert!(!l.observe(&sample("OL", Some(12000), Some(1000), Some(9000)), 599_999));
    // The discarded sample did not advance the baseline.
    assert!(l.observe(&sample("OL", Some(12000), Some(1000), Some(9000)), 600_000));
}

#[test]
fn store_round_trip_returns_the_inserted_entry() {
    let mut s = HistoryStore::new();
    let e = entry(1_000_000, "OL");
    let id = s.insert(e).unwrap();
    assert_eq!(id, 0);
    let rows = s.query_range(1_000_500, 1);
    assert_eq!(rows.len(), 1);
    let r = &rows[0];
    assert_eq!(r.id, Some(0));
    assert_eq!(r.timestamp, 1_000_000);
    assert_eq!(r.input_voltage, Some(23000));
    assert_eq!(r.output_voltage, Some(22900));
    assert_eq!(r.load_percent, Some(4200));
    assert_eq!(r.battery_charge, Some(9800));
    assert_eq!(r.status, "OL");
}

#[test]
fn query_window_excludes_older_rows() {
    let mut s = HistoryStore::new();
    s.insert(entry(1000, "OL")).unwrap();
    s.insert(entry(10_000, "OL")).unwrap();
    // One-hour window ending at t = 12_000: cutoff 8_400.
    let rows = s.query_range(12_000, 1);
    assert_eq!(rows.len(), 1);
    assert_eq!(rows[0].timestamp, 10_000);
}

#[test]
fn query_returns_rows_in_ascending_timestamp_order() {
    let mut s = HistoryStore::new();
    s.insert(entry(10_000, "OL")).unwrap();
    s.insert(entry(1_000, "OB")).unwrap();
    s.insert(entry(5_000, "OL")).unwrap();
    let rows = s.query_range(20_000, 100);
    assert_eq!(rows.len(), 3);
    assert_eq!(rows[0].timestamp, 1_000);
    assert_eq!(rows[1].timestamp, 5_000);
    assert_eq!(rows[2].timestamp, 10_000);
}

#[test]
fn compaction_keeps_earliest_nominal_and_every_anomaly() {
    let mut s = HistoryStore::new();
    // 20 nominal entries and 1 on-battery entry, all in the same
    // 300-second bucket (timestamps 900..=1199 share bucket 3).
    for k in 0..10u64 {
        s.insert(entry(1000 + k, "OL")).unwrap();
    }
    s.insert(entry(1010, "OB")).unwrap();
    for k in 10..20u64 {
        s.insert(entry(1000 + k, "OL")).unwrap();
    }
    let deleted = s.compact();
    assert_eq!(deleted, 19);
    let rows = s.query_range(2000, 1);
    assert_eq!(rows.len(), 2);
    // The earliest nominal row (smallest id) survived, untouched.
    assert_eq!(rows[0].id, Some(0));
    assert_eq!(rows[0].status, "OL");
    assert_eq!(rows[1].status, "OB");
}

#[test]
fn compaction_spares_rows_in_other_buckets() {
    let mut s = HistoryStore::new();
    s.insert(entry(1000, "OL")).unwrap();
    s.insert(entry(1001, "OL")).unwrap();
    s.insert(entry(1300, "OL")).unwrap();
    let deleted = s.compact();
    assert_eq!(deleted, 1);
    let rows = s.query_range(2000, 1);
    assert_eq!(rows.len(), 2);
    assert_eq!(rows[0].timestamp, 1000);
    assert_eq!(rows[1].timestamp, 1300);
}

#[test]
fn pruning_deletes_strictly_older_rows() {
    let mut s = HistoryStore::new();
    s.insert(entry(100, "OB")).unwrap();
    s.insert(entry(200, "OL")).unwrap();
    let deleted = s.delete_older_than(200);
    assert_eq!(deleted, 1);
    let rows = s.query_range(10_000, 100);
    assert_eq!(rows.len(), 1);
    assert_eq!(rows[0].timestamp, 200);
}

#[test]
fn aggregate_computes_exact_statistics() {
    let mut s = HistoryStore::new();
    s.insert(HistoryEntry {
        id: None,
        timestamp: 1000,
        input_voltage: Some(23000),
        output_voltage: Some(22900),
        load_percent: Some(4000),
        battery_charge: Some(10000),
        status: "OL".to_string(),
    }).unwrap();
    s.insert(HistoryEntry {
        id: None,
        timestamp: 1010,
        input_voltage: Some(23100),
        output_voltage: None,
        load_percent: Some(4500),
        battery_charge: Some(9000),
        status: "OB LB".to_string(),
    }).unwrap();
    s.insert(HistoryEntry {
        id: None,
        timestamp: 1020,
        input_voltage: None,
        output_voltage: Some(23100),
        load_percent: None,
        battery_charge: Some(9500),
        status: "OL CHRG".to_string(),
    }).unwrap();
    let stats = s.aggregate(2000, 1);
    assert_eq!(stats.row_count, 3);
    // Only the on-battery entry lacks the online marker or carries
    // the on-battery one.
    assert_eq!(stats.outage_count, 1);
    assert_eq!(stats.input_voltage_min, Some(23000));
    assert_eq!(stats.input_voltage_max, Some(23100));
    assert_eq!(stats.input_voltage_avg, Some(23050));
    assert_eq!(stats.output_voltage_min, Some(22900));
    assert_eq!(stats.output_voltage_max, Some(23100));
    assert_eq!(stats.output_voltage_avg, Some(23000));
    assert_eq!(stats.load_max, Some(4500));
    assert_eq!(stats.load_avg, Some(4250));
    assert_eq!(stats.charge_min, Some(9000));
    // 28500 / 3 = 9500 exactly.
    assert_eq!(stats.charge_avg, Some(9500));
}

#[test]
fn aggregate_over_empty_window_is_all_absent() {
    let s = HistoryStore::new();
    let stats = s.aggregate(1000, 1);
    assert_eq!(stats.row_count, 0);
    assert_eq!(stats.outage_count, 0);
    assert_eq!(stats.input_voltage_min, None);
    assert_eq!(stats.input_voltage_avg, None);
    assert_eq!(stats.load_max, None);
    assert_eq!(stats.charge_min, None);
}
