use bad_adit::config::{ConfigStore, TunnelConfig};
use bad_adit::stats::{StatsEvent, TunnelStats};
use bad_adit::tunnel::{
    tunnel_port_not_ready_message, RunningTunnel, ToggleChoice, TunnelManagerInner, TunnelState,
};

fn make_config(id: &str, name: &str, local_port: u16) -> TunnelConfig {
    TunnelConfig {
        id: id.to_string(),
        name: name.to_string(),
        ssh_host: "example.com".to_string(),
        ssh_user: "user".to_string(),
        ssh_key_path: String::new(),
        target_host: "db.internal".to_string(),
        target_port: 5432,
        local_port,
        auto_reconnect: false,
    }
}

fn running(id: &str, handle: u32) -> RunningTunnel<u32> {
    RunningTunnel {
        config: make_config(id, id, 15432),
        state: TunnelState::Running,
        stats: TunnelStats::new(),
        session: 1,
        io: Some(handle),
    }
}

fn manager() -> TunnelManagerInner<u32> {
    TunnelManagerInner::new(ConfigStore::with_path("/tmp/unused.json".to_string()))
}

#[test]
fn insert_replaces_same_id() {
    let mut m = manager();
    assert!(m.insert_tunnel(running("a", 1)).is_none());
    let old = m.insert_tunnel(running("a", 2)).unwrap();
    assert_eq!(old.io, Some(1));
    assert!(m.contains_tunnel("a"));
    assert!(!m.contains_tunnel("b"));
}

#[test]
fn stop_clears_and_hands_back_handles() {
    let mut m = manager();
    m.insert_tunnel(running("a", 7));
    assert!(m.record_stats("a", 1, StatsEvent::Upload(100)));
    assert!(m.record_stats("a", 1, StatsEvent::Opened));
    let snap = m.get_tunnel_stats("a").unwrap();
    assert_eq!(snap.bytes_uploaded, 100);
    assert_eq!(snap.connections_open, 1);

    assert_eq!(m.stop_tunnel("a").unwrap(), Some(7));
    assert!(matches!(m.tunnel_state("a"), Some(TunnelState::Stopped)));
    let snap = m.get_tunnel_stats("a").unwrap();
    assert_eq!(snap.bytes_uploaded, 0);
    assert_eq!(snap.connections_open, 0);
    assert_eq!(snap.connections_total, 0);

    assert_eq!(m.stop_tunnel("zz").unwrap_err(), "Tunnel zz not found");
    assert_eq!(m.get_tunnel_stats("zz").unwrap_err(), "Tunnel zz not running");
    assert!(!m.record_stats("zz", 1, StatsEvent::Opened));
}

#[test]
fn remove_forgets_tunnel() {
    let mut m = manager();
    m.insert_tunnel(running("a", 1));
    m.insert_tunnel(running("b", 2));
    let r = m.remove_tunnel("a").unwrap();
    assert_eq!(r.config.id, "a");
    assert!(!m.contains_tunnel("a"));
    assert!(m.contains_tunnel("b"));
    assert!(m.remove_tunnel("a").is_none());
    assert_eq!(m.tunnel_config("b").unwrap().name, "b");
    assert!(m.tunnel_config("a").is_none());
}

#[test]
fn status_of_each_configured_tunnel() {
    let mut m = manager();
    m.insert_tunnel(running("a", 1));
    let mut b = running("b", 2);
    b.state = TunnelState::Error("ssh died".to_string());
    m.insert_tunnel(b);
    m.record_stats("a", 1, StatsEvent::Download(2048));

    let configs = vec![make_config("a", "A", 15432), make_config("b", "B", 15433), make_config("c", "C", 15434)];
    let all = m.get_all_status(&configs);
    assert_eq!(all.len(), 3);
    assert_eq!(all[0].id, "a");
    assert_eq!(all[0].name, "A");
    assert!(matches!(all[0].state, TunnelState::Running));
    let s = all[0].stats.as_ref().unwrap();
    assert_eq!(s.bytes_downloaded, 2048);
    assert_eq!(s.bytes_downloaded_formatted, "2.0 KB");
    assert!(matches!(&all[1].state, TunnelState::Error(e) if e == "ssh died"));
    assert!(all[1].stats.is_none());
    assert!(matches!(all[2].state, TunnelState::Stopped));
    assert!(all[2].stats.is_none());
    assert_eq!(all[2].local_port, 15434);
    assert_eq!(all[2].target_host, "db.internal");
    assert_eq!(all[2].target_port, 5432);
}

#[test]
fn restart_config_choice() {
    let mut m = manager();
    m.insert_tunnel(running("a", 1));
    let c = m.config_for_restart("a", None).unwrap();
    assert_eq!(c.id, "a");
    let c = m.config_for_restart("a", Some(make_config("a", "new", 16000))).unwrap();
    assert_eq!(c.local_port, 16000);
    assert_eq!(m.config_for_restart("q", None).unwrap_err(), "Tunnel q not found");
}

#[test]
fn port_message() {
    assert_eq!(
        tunnel_port_not_ready_message(40000, 10, "refused"),
        "SSH tunnel port 40000 not ready after 10 retries: refused"
    );
}

#[test]
fn status_after_stop_is_stopped_without_counters() {
    let mut m = manager();
    m.insert_tunnel(running("a", 1));
    m.record_stats("a", 1, StatsEvent::Upload(10));
    m.stop_tunnel("a").unwrap();
    let all = m.get_all_status(&[make_config("a", "A", 15432)]);
    assert!(matches!(all[0].state, TunnelState::Stopped));
    assert!(all[0].stats.is_none());
}

#[test]
fn traffic_of_an_earlier_run_is_not_counted() {
    let mut m = manager();
    m.insert_tunnel(running("a", 1));
    let mut next = running("a", 2);
    next.session = 2;
    m.insert_tunnel(next);
    assert!(!m.record_stats("a", 1, StatsEvent::Upload(10)));
    assert!(m.record_stats("a", 2, StatsEvent::Upload(3)));
    assert_eq!(m.get_tunnel_stats("a").unwrap().bytes_uploaded, 3);
}

#[test]
fn toggle_stops_only_a_running_tunnel() {
    let mut m = manager();
    assert!(matches!(m.toggle_choice("a"), ToggleChoice::Start));
    m.insert_tunnel(running("a", 1));
    assert!(matches!(m.toggle_choice("a"), ToggleChoice::Stop));
    m.stop_tunnel("a").unwrap();
    assert!(matches!(m.toggle_choice("a"), ToggleChoice::Start));
}

#[test]
fn config_store_is_kept() {
    let m = manager();
    assert!(matches!(m.config_store().path(), bad_adit::config::StorePath::Text(t) if t == "/tmp/unused.json"));
}

#[test]
fn failed_start_is_an_error_state() {
    let mut m = manager();
    assert!(m.mark_start_failed(make_config("a", "A", 15432), "ssh: no route".to_string(), 3).is_none());
    assert!(matches!(m.tunnel_state("a"), Some(TunnelState::Error(e)) if e == "ssh: no route"));
    let all = m.get_all_status(&[make_config("a", "A", 15432)]);
    assert!(all[0].stats.is_none());

    m.insert_tunnel(running("b", 1));
    assert!(m.mark_start_failed(make_config("b", "B", 15433), "x".to_string(), 4).is_none());
    assert!(matches!(m.tunnel_state("b"), Some(TunnelState::Running)));
}

#[test]
fn starting_run_becomes_running_keeping_counts() {
    let mut m = manager();
    let mut starting = running("a", 0);
    starting.state = TunnelState::Starting;
    starting.io = None;
    starting.session = 5;
    m.insert_tunnel(starting);
    assert!(m.record_stats("a", 5, StatsEvent::Upload(4)));
    assert_eq!(m.mark_running("a", 4, 9), Some(9));
    assert!(matches!(m.tunnel_state("a"), Some(TunnelState::Starting)));
    assert_eq!(m.mark_running("a", 5, 9), None);
    assert!(matches!(m.tunnel_state("a"), Some(TunnelState::Running)));
    assert_eq!(m.get_tunnel_stats("a").unwrap().bytes_uploaded, 4);
    assert_eq!(m.stop_tunnel("a").unwrap(), Some(9));
    assert_eq!(m.mark_running("b", 5, 1), Some(1));
}
