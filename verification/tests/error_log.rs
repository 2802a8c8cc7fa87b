use bad_adit::error_log::{ErrorLog, MAX_ENTRIES};

#[test]
fn push_and_get_all_in_order() {
    let mut log = ErrorLog::new();
    log.info("Tunnel started".to_string(), Some("DB".to_string()));
    log.error("boom".to_string(), None);
    log.warn("careful".to_string(), Some("Redis".to_string()));
    let all = log.get_all();
    assert_eq!(all.len(), 3);
    assert_eq!(all[0].level, "info");
    assert_eq!(all[0].message, "Tunnel started");
    assert_eq!(all[0].tunnel_name, Some("DB".to_string()));
    assert_eq!(all[1].level, "error");
    assert_eq!(all[1].tunnel_name, None);
    assert_eq!(all[2].level, "warn");
}

#[test]
fn error_count_counts_only_errors() {
    let mut log = ErrorLog::new();
    assert_eq!(log.error_count(), 0);
    log.error("a".to_string(), None);
    log.info("b".to_string(), None);
    log.error("c".to_string(), None);
    assert_eq!(log.error_count(), 2);
}

#[test]
fn clear_empties() {
    let mut log = ErrorLog::default();
    log.error("a".to_string(), None);
    log.clear();
    assert_eq!(log.get_all().len(), 0);
    assert_eq!(log.error_count(), 0);
}

#[test]
fn keeps_latest_entries_only() {
    let mut log = ErrorLog::new();
    for i in 0..(MAX_ENTRIES + 5) {
        log.push_at(i as u64, "info", format!("m{}", i), None);
    }
    let all = log.get_all();
    assert_eq!(all.len(), MAX_ENTRIES);
    assert_eq!(all[0].message, "m5");
    assert_eq!(all[0].timestamp, 5);
    assert_eq!(all[MAX_ENTRIES - 1].message, format!("m{}", MAX_ENTRIES + 4));
}

#[test]
fn push_stamps_current_time() {
    let mut log = ErrorLog::new();
    log.push("info", "x".to_string(), None);
    assert!(log.get_all()[0].timestamp > 1_600_000_000);
}
