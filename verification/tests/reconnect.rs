use bad_adit::config::{ConfigStore, TunnelConfig};
use bad_adit::reconnect::{
    backoff_delay, reconnect_step, ReconnectAction, ReconnectEvent, MAX_RECONNECT_ATTEMPTS,
};
use bad_adit::stats::{StatsEvent, TunnelStats};
use bad_adit::tunnel::{RunningTunnel, TunnelManagerInner, TunnelState};

fn config_with(id: &str, auto_reconnect: bool) -> TunnelConfig {
    TunnelConfig {
        id: id.to_string(),
        name: id.to_string(),
        ssh_host: "example.com".to_string(),
        ssh_user: "user".to_string(),
        ssh_key_path: String::new(),
        target_host: "db.internal".to_string(),
        target_port: 5432,
        local_port: 15432,
        auto_reconnect,
    }
}

fn table_with(id: &str, auto_reconnect: bool, session: u64, handle: u32) -> TunnelManagerInner<u32> {
    let mut m = TunnelManagerInner::new(ConfigStore::with_path("/tmp/unused.json".to_string()));
    m.insert_tunnel(RunningTunnel {
        config: config_with(id, auto_reconnect),
        state: TunnelState::Running,
        stats: TunnelStats::new(),
        session,
        io: Some(handle),
    });
    m
}

#[test]
fn backoff_doubles_from_one_second() {
    let delays: Vec<u64> = (1..=MAX_RECONNECT_ATTEMPTS).map(backoff_delay).collect();
    assert_eq!(delays, vec![1, 2, 4, 8, 16]);
}

#[test]
fn exit_with_auto_reconnect_schedules_first_restart() {
    let s = reconnect_step(&TunnelState::Running, true, false, 0, ReconnectEvent::SshExited);
    assert!(matches!(s.state, TunnelState::Reconnecting));
    assert_eq!(s.action, ReconnectAction::Respawn { attempt: 1, delay_secs: 1 });
    assert_eq!(s.attempt, 1);
}

#[test]
fn exit_without_auto_reconnect_is_an_error() {
    let s = reconnect_step(&TunnelState::Running, false, false, 0, ReconnectEvent::SshExited);
    assert!(matches!(&s.state, TunnelState::Error(m) if m == "SSH process exited"));
    assert_eq!(s.action, ReconnectAction::GiveUp);
    assert_eq!(s.attempt, 0);
}

#[test]
fn stopped_tunnel_is_left_alone() {
    let s = reconnect_step(&TunnelState::Stopped, true, true, 0, ReconnectEvent::SshExited);
    assert!(matches!(s.state, TunnelState::Stopped));
    assert_eq!(s.action, ReconnectAction::Nothing);
    let s = reconnect_step(&TunnelState::Stopped, true, true, 2, ReconnectEvent::RestartSucceeded);
    assert_eq!(s.action, ReconnectAction::Discard);
    let s = reconnect_step(
        &TunnelState::Stopped,
        true,
        true,
        2,
        ReconnectEvent::RestartFailed("refused".to_string()),
    );
    assert_eq!(s.action, ReconnectAction::Nothing);
    assert_eq!(s.attempt, 0);
}

#[test]
fn successful_restart_resumes() {
    let s = reconnect_step(&TunnelState::Reconnecting, true, false, 3, ReconnectEvent::RestartSucceeded);
    assert!(matches!(s.state, TunnelState::Running));
    assert_eq!(s.action, ReconnectAction::Resume);
    assert_eq!(s.attempt, 0);
}

#[test]
fn gives_up_after_the_last_failed_restart() {
    let mut s = reconnect_step(&TunnelState::Running, true, false, 0, ReconnectEvent::SshExited);
    let mut scheduled = vec![s.action];
    for i in 0..MAX_RECONNECT_ATTEMPTS {
        let msg = format!("failure {}", i + 1);
        s = reconnect_step(&s.state, true, false, s.attempt, ReconnectEvent::RestartFailed(msg));
        scheduled.push(s.action);
    }
    assert_eq!(
        scheduled,
        vec![
            ReconnectAction::Respawn { attempt: 1, delay_secs: 1 },
            ReconnectAction::Respawn { attempt: 2, delay_secs: 2 },
            ReconnectAction::Respawn { attempt: 3, delay_secs: 4 },
            ReconnectAction::Respawn { attempt: 4, delay_secs: 8 },
            ReconnectAction::Respawn { attempt: 5, delay_secs: 16 },
            ReconnectAction::GiveUp,
        ]
    );
    assert!(matches!(&s.state, TunnelState::Error(m) if m == "failure 5"));
}

#[test]
fn reconnect_resets_counters_and_notes_time() {
    let mut st = TunnelStats::new();
    st.record_upload(10);
    st.connection_opened();
    st.mark_reconnected();
    assert_eq!(st.bytes_uploaded, 0);
    assert_eq!(st.connections_open, 0);
    assert_eq!(st.connections_total, 0);
    assert!(st.last_reconnect.is_some());
    let snap = st.snapshot();
    assert!(snap.last_reconnect_ago.is_some());
}

#[test]
fn table_resumes_with_new_session_and_fresh_counters() {
    let mut m = table_with("a", true, 1, 9);
    assert!(m.record_stats("a", 1, StatsEvent::Upload(500)));

    let (s, io) = m.apply_reconnect("a", 1, 2, 0, ReconnectEvent::SshExited);
    assert_eq!(s.action, ReconnectAction::Respawn { attempt: 1, delay_secs: 1 });
    assert!(io.is_none());
    assert!(matches!(m.tunnel_state("a"), Some(TunnelState::Reconnecting)));

    let (s, io) = m.apply_reconnect("a", 1, 2, 1, ReconnectEvent::RestartSucceeded);
    assert_eq!(s.action, ReconnectAction::Resume);
    assert!(io.is_none());
    assert!(matches!(m.tunnel_state("a"), Some(TunnelState::Running)));
    let snap = m.get_tunnel_stats("a").unwrap();
    assert_eq!(snap.bytes_uploaded, 0);
    assert!(snap.last_reconnect_ago.is_some());

    // Traffic of the run before the reconnect is no longer counted.
    assert!(!m.record_stats("a", 1, StatsEvent::Upload(7)));
    assert!(m.record_stats("a", 2, StatsEvent::Upload(7)));
    assert_eq!(m.get_tunnel_stats("a").unwrap().bytes_uploaded, 7);
}

#[test]
fn table_gives_up_and_hands_back_handles() {
    let mut m = table_with("a", false, 4, 9);
    let (s, io) = m.apply_reconnect("a", 4, 5, 0, ReconnectEvent::SshExited);
    assert_eq!(s.action, ReconnectAction::GiveUp);
    assert_eq!(io, Some(9));
    assert!(matches!(m.tunnel_state("a"), Some(TunnelState::Error(e)) if e == "SSH process exited"));
}

#[test]
fn table_ignores_stopped_or_replaced_runs() {
    let mut m = table_with("a", true, 4, 9);
    let (s, io) = m.apply_reconnect("a", 3, 5, 0, ReconnectEvent::SshExited);
    assert_eq!(s.action, ReconnectAction::Nothing);
    assert!(io.is_none());
    assert!(matches!(m.tunnel_state("a"), Some(TunnelState::Running)));

    assert_eq!(m.stop_tunnel("a").unwrap(), Some(9));
    let (s, _) = m.apply_reconnect("a", 4, 5, 1, ReconnectEvent::RestartSucceeded);
    assert_eq!(s.action, ReconnectAction::Discard);
    assert!(matches!(m.tunnel_state("a"), Some(TunnelState::Stopped)));

    let (s, _) = m.apply_reconnect("zz", 4, 5, 0, ReconnectEvent::SshExited);
    assert_eq!(s.action, ReconnectAction::Nothing);
}
