use bad_adit::stats::{StatsEvent, TunnelStats};

#[test]
fn basic_counting() {
    let mut stats = TunnelStats::new();
    stats.record_upload(100);
    stats.record_upload(200);
    stats.record_download(50);

    let snap = stats.snapshot();
    assert_eq!(snap.bytes_uploaded, 300);
    assert_eq!(snap.bytes_downloaded, 50);
}

#[test]
fn connection_tracking() {
    let mut stats = TunnelStats::new();
    stats.connection_opened();
    stats.connection_opened();
    stats.connection_opened();

    let snap = stats.snapshot();
    assert_eq!(snap.connections_open, 3);
    assert_eq!(snap.connections_total, 3);

    stats.connection_closed();
    let snap = stats.snapshot();
    assert_eq!(snap.connections_open, 2);
    assert_eq!(snap.connections_total, 3);
}

#[test]
fn reset_clears_counters() {
    let mut stats = TunnelStats::new();
    stats.record_upload(1000);
    stats.record_download(2000);
    stats.connection_opened();

    stats.reset();
    let snap = stats.snapshot();
    assert_eq!(snap.bytes_uploaded, 0);
    assert_eq!(snap.bytes_downloaded, 0);
    assert_eq!(snap.connections_open, 0);
    assert_eq!(snap.connections_total, 0);
}

#[test]
fn stats_counting() {
    let mut stats = TunnelStats::new();

    // What the relay does for one connection
    stats.connection_opened();
    stats.record_upload(100);
    stats.record_upload(200);
    stats.record_download(50);

    let snap = stats.snapshot();
    assert_eq!(snap.bytes_uploaded, 300);
    assert_eq!(snap.bytes_downloaded, 50);
    assert_eq!(snap.connections_open, 1);
    assert_eq!(snap.connections_total, 1);

    stats.connection_closed();
    let snap = stats.snapshot();
    assert_eq!(snap.connections_open, 0);
}

#[test]
fn counters_wrap_like_atomics() {
    let mut stats = TunnelStats::new();
    stats.record_upload(u64::MAX);
    stats.record_upload(2);
    assert_eq!(stats.bytes_uploaded, 1);
    stats.connection_closed();
    assert_eq!(stats.connections_open, u32::MAX);
}

#[test]
fn events_sum_up() {
    let mut stats = TunnelStats::new();
    let events = [
        StatsEvent::Opened,
        StatsEvent::Upload(5),
        StatsEvent::Download(7),
        StatsEvent::Opened,
        StatsEvent::Closed,
        StatsEvent::Upload(10),
    ];
    for e in events {
        stats.apply(e);
    }
    assert_eq!(stats.bytes_uploaded, 15);
    assert_eq!(stats.bytes_downloaded, 7);
    assert_eq!(stats.connections_total, 2);
    assert_eq!(stats.connections_open, 1);
}

#[test]
fn snapshot_formats_counters() {
    let mut stats = TunnelStats::new();
    stats.record_upload(1536);
    stats.record_download(48 * 1024);
    let snap = stats.snapshot_at(8040, Some(75));
    assert_eq!(snap.bytes_uploaded_formatted, "1.5 KB");
    assert_eq!(snap.bytes_downloaded_formatted, "48.0 KB");
    assert_eq!(snap.uptime_seconds, 8040);
    assert_eq!(snap.uptime_formatted, "2h 14m");
    assert_eq!(snap.last_reconnect_ago, Some("1m 15s".to_string()));
    let snap = stats.snapshot_at(12, None);
    assert_eq!(snap.uptime_formatted, "12s");
    assert_eq!(snap.last_reconnect_ago, None);
}

#[test]
fn fresh_snapshot_has_no_reconnect() {
    let stats = TunnelStats::new();
    let snap = stats.snapshot();
    assert_eq!(snap.last_reconnect_ago, None);
    assert_eq!(snap.bytes_uploaded_formatted, "0 B");
}

#[test]
fn counts_restart_after_reset() {
    let mut stats = TunnelStats::new();
    stats.record_upload(500);
    stats.connection_opened();
    stats.connection_opened();
    stats.reset();
    stats.apply(StatsEvent::Opened);
    stats.apply(StatsEvent::Download(9));
    stats.apply(StatsEvent::Closed);
    assert_eq!(stats.bytes_uploaded, 0);
    assert_eq!(stats.bytes_downloaded, 9);
    assert_eq!(stats.connections_total, 1);
    assert_eq!(stats.connections_open, 0);
}
