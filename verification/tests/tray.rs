use bad_adit::stats::TunnelStats;
use bad_adit::tray::{
    error_menu_label, format_status_label, menu_action, menu_changed, status_labels, tray_menu,
    tunnel_menu_id, MenuAction, MenuEntry,
};
use bad_adit::tunnel::{TunnelState, TunnelStatus};

fn status(id: &str, name: &str, state: TunnelState, counts: Option<(u64, u64)>) -> TunnelStatus {
    let stats = counts.map(|(up, down)| {
        let mut s = TunnelStats::new();
        s.record_upload(up);
        s.record_download(down);
        s.snapshot_at(0, None)
    });
    TunnelStatus {
        id: id.to_string(),
        name: name.to_string(),
        state,
        stats,
        local_port: 5432,
        target_host: "localhost".to_string(),
        target_port: 5432,
    }
}

#[test]
fn labels_show_state_and_traffic() {
    let s = status("1", "Production DB", TunnelState::Running, Some((1258291, 49152)));
    assert_eq!(format_status_label(&s), "● Production DB  ↑ 1.2 MB  ↓ 48.0 KB");
    let s = status("2", "Staging Redis", TunnelState::Stopped, None);
    assert_eq!(format_status_label(&s), "○ Staging Redis");
    let s = status("3", "Dev", TunnelState::Reconnecting, None);
    assert_eq!(format_status_label(&s), "◐ Dev");
    let s = status("4", "Dev", TunnelState::Error("x".to_string()), None);
    assert_eq!(format_status_label(&s), "○ Dev");
    let labels = status_labels(&[status("2", "A", TunnelState::Starting, None)]);
    assert_eq!(labels, vec!["◐ A".to_string()]);
}

#[test]
fn error_labels_pluralize() {
    assert_eq!(error_menu_label(1), "⚠ 1 error");
    assert_eq!(error_menu_label(3), "⚠ 3 errors");
}

#[test]
fn menu_ids_round_trip() {
    let id = tunnel_menu_id("abc-123");
    assert_eq!(id, "tunnel:abc-123");
    assert!(matches!(menu_action(&id), MenuAction::ToggleTunnel(t) if t == "abc-123"));
    assert!(matches!(menu_action("quit"), MenuAction::Quit));
    assert!(matches!(menu_action("edit_configs"), MenuAction::ShowWindow));
    assert!(matches!(menu_action("show_errors"), MenuAction::ShowErrors));
    assert!(matches!(menu_action("title"), MenuAction::Ignore));
}

#[test]
fn menu_layout() {
    let statuses = vec![status("a", "A", TunnelState::Stopped, None)];
    let menu = tray_menu(&statuses, 2);
    let ids: Vec<String> = menu
        .iter()
        .map(|e| match e {
            MenuEntry::Item { id, .. } => id.clone(),
            MenuEntry::Separator => "-".to_string(),
        })
        .collect();
    assert_eq!(ids, vec!["title", "-", "tunnel:a", "-", "show_errors", "edit_configs", "-", "quit"]);
    assert!(matches!(&menu[0], MenuEntry::Item { label, enabled: false, .. } if label == "Bad Adit"));
    assert!(matches!(&menu[4], MenuEntry::Item { label, .. } if label == "⚠ 2 errors"));
    let menu = tray_menu(&[], 0);
    assert_eq!(menu.len(), 6);
}

#[test]
fn rebuild_only_on_change() {
    let a = vec!["○ A".to_string()];
    let b = vec!["● A".to_string()];
    assert!(!menu_changed(&a, 0, &a.clone(), 0));
    assert!(menu_changed(&a, 0, &b, 0));
    assert!(menu_changed(&a, 0, &a.clone(), 1));
    assert!(menu_changed(&a, 0, &[], 0));
}
