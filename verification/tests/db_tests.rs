use nut_monitor::db::{DbError, NutDB};
use nut_monitor::history::HistoryEntry;

fn entry(ts: u64, status: &str) -> HistoryEntry {
    HistoryEntry {
        id: None,
        timestamp: ts,
        input_voltage: Some(23040),
        output_voltage: Some(22990),
        load_percent: Some(4200),
        battery_charge: Some(9800),
        status: status.to_string(),
    }
}

#[test]
fn round_trip_through_the_engine_preserves_all_fields() {
    let db = NutDB::open_in_memory().unwrap();
    db.insert_entry(&entry(1_000_000, "OL")).unwrap();
    // A window of a billion hours reaches back to the epoch.
    let rows = db.get_history(1_000_000_000).unwrap();
    assert_eq!(rows.len(), 1);
    let r = &rows[0];
    assert!(r.id.is_some());
    assert_eq!(r.timestamp, 1_000_000);
    assert_eq!(r.input_voltage, Some(23040));
    assert_eq!(r.output_voltage, Some(22990));
    assert_eq!(r.load_percent, Some(4200));
    assert_eq!(r.battery_charge, Some(9800));
    assert_eq!(r.status, "OL");
}

#[test]
fn absent_readings_survive_the_round_trip() {
    let db = NutDB::open_in_memory().unwrap();
    let e = HistoryEntry {
        id: None,
        timestamp: 5000,
        input_voltage: None,
        output_voltage: None,
        load_percent: None,
        battery_charge: None,
        status: "OB".to_string(),
    };
    db.insert_entry(&e).unwrap();
    let rows = db.get_history(1_000_000_000).unwrap();
    assert_eq!(rows.len(), 1);
    assert_eq!(rows[0].input_voltage, None);
    assert_eq!(rows[0].battery_charge, None);
    assert_eq!(rows[0].status, "OB");
}

#[test]
fn compaction_on_the_engine_matches_the_policy() {
    let db = NutDB::open_in_memory().unwrap();
    for k in 0..20u64 {
        db.insert_entry(&entry(1000 + k, "OL")).unwrap();
    }
    db.insert_entry(&entry(1010, "OB")).unwrap();
    let deleted = db.compact().unwrap();
    assert_eq!(deleted, 19);
    let rows = db.get_history(1_000_000_000).unwrap();
    assert_eq!(rows.len(), 2);
    assert_eq!(rows[0].status, "OL");
    assert_eq!(rows[0].timestamp, 1000);
    assert_eq!(rows[1].status, "OB");
}

#[test]
fn pruning_deletes_old_rows_and_reports_the_count() {
    let db = NutDB::open_in_memory().unwrap();
    db.insert_entry(&entry(100, "OL")).unwrap();
    // A timestamp far in the future survives any prune cutoff.
    db.insert_entry(&entry(4_000_000_000_000_000_000, "OL")).unwrap();
    let deleted = db.prune_old_data(0).unwrap();
    assert_eq!(deleted, 1);
    let rows = db.get_history(1_000_000_000).unwrap();
    assert_eq!(rows.len(), 1);
    assert_eq!(rows[0].timestamp, 4_000_000_000_000_000_000);
}

#[test]
fn pruning_respects_the_configured_day_count() {
    let now = std::time::SystemTime::now()
        .duration_since(std::time::UNIX_EPOCH)
        .unwrap()
        .as_secs();
    let db = NutDB::open_in_memory().unwrap();
    // One ancient row, one from moments ago: a one-day retention
    // deletes exactly the ancient one.
    db.insert_entry(&entry(100, "OL")).unwrap();
    db.insert_entry(&entry(now - 100, "OL")).unwrap();
    let deleted = db.prune_old_data(1).unwrap();
    assert_eq!(deleted, 1);
    let rows = db.get_history(1_000_000_000).unwrap();
    assert_eq!(rows.len(), 1);
    assert_eq!(rows[0].timestamp, now - 100);
}

#[test]
fn generous_retention_prunes_nothing() {
    let db = NutDB::open_in_memory().unwrap();
    db.insert_entry(&entry(100, "OL")).unwrap();
    // A retention window reaching back past the epoch keeps even the
    // oldest row.
    let deleted = db.prune_old_data(1_000_000_000).unwrap();
    assert_eq!(deleted, 0);
    let rows = db.get_history(1_000_000_000).unwrap();
    assert_eq!(rows.len(), 1);
}

#[test]
fn history_comes_back_in_ascending_timestamp_order() {
    let db = NutDB::open_in_memory().unwrap();
    db.insert_entry(&entry(10_000, "OL")).unwrap();
    db.insert_entry(&entry(1_000, "OB")).unwrap();
    db.insert_entry(&entry(5_000, "OL")).unwrap();
    let rows = db.get_history(1_000_000_000).unwrap();
    assert_eq!(rows.len(), 3);
    assert_eq!(rows[0].timestamp, 1_000);
    assert_eq!(rows[1].timestamp, 5_000);
    assert_eq!(rows[2].timestamp, 10_000);
}

#[test]
fn aggregate_on_the_engine_counts_and_averages() {
    let db = NutDB::open_in_memory().unwrap();
    db.insert_entry(&entry(1000, "OL")).unwrap();
    db.insert_entry(&entry(1010, "OB")).unwrap();
    let stats = db.aggregate(1_000_000_000).unwrap();
    assert_eq!(stats.row_count, 2);
    assert_eq!(stats.outage_count, 1);
    assert_eq!(stats.input_voltage_min, Some(23040));
    assert_eq!(stats.input_voltage_avg, Some(23040));
}

#[test]
fn operations_before_init_fail_as_not_initialized() {
    let db = NutDB::new("data");
    assert!(matches!(db.insert_entry(&entry(1, "OL")), Err(DbError::NotInitialized)));
    assert!(matches!(db.get_history(1), Err(DbError::NotInitialized)));
    assert!(matches!(db.compact(), Err(DbError::NotInitialized)));
    assert!(matches!(db.aggregate(1), Err(DbError::NotInitialized)));
    assert!(matches!(db.prune_old_data(1), Err(DbError::NotInitialized)));
    assert_eq!(
        DbError::NotInitialized.message(),
        "history database is not initialized"
    );
}
