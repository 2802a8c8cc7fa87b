use bad_adit::format::{format_bytes, format_uptime};

#[test]
fn bytes_edge_cases() {
    assert_eq!(format_bytes(0), "0 B");
    assert_eq!(format_bytes(1), "1 B");
    assert_eq!(format_bytes(1023), "1023 B");
    assert_eq!(format_bytes(1024), "1.0 KB");
    assert_eq!(format_bytes(1536), "1.5 KB");
    assert_eq!(format_bytes(1280), "1.2 KB");
    assert_eq!(format_bytes(1331), "1.3 KB");
    assert_eq!(format_bytes(1024 * 1024), "1.0 MB");
    assert_eq!(format_bytes(3355443), "3.2 MB");
    assert_eq!(format_bytes(1181116006), "1.1 GB");
    assert_eq!(format_bytes(u64::MAX), "17179869184.0 GB");
}

#[test]
fn uptime_edge_cases() {
    assert_eq!(format_uptime(0), "0s");
    assert_eq!(format_uptime(12), "12s");
    assert_eq!(format_uptime(59), "59s");
    assert_eq!(format_uptime(60), "1m 0s");
    assert_eq!(format_uptime(330), "5m 30s");
    assert_eq!(format_uptime(8040), "2h 14m");
    assert_eq!(format_uptime(86400 * 3 + 3600), "3d 1h");
}
