use bad_adit::notify::notification_script;
use bad_adit::proxy::{
    forwarder_script, is_permission_error, on_bind_error, port_not_ready_message,
    port_wait_step, privileged_forwarder_applescript, relay_read, BindFallback, Direction,
    IoErrorInfo, PortWaitStep,
};
use bad_adit::stats::StatsEvent;

fn err(denied: bool, code: Option<i32>) -> IoErrorInfo {
    IoErrorInfo { permission_denied: denied, raw_os_error: code, message: "denied".to_string() }
}

#[test]
fn permission_errors() {
    assert!(is_permission_error(&err(true, None)));
    assert!(is_permission_error(&err(false, Some(13))));
    assert!(is_permission_error(&err(false, Some(1))));
    assert!(!is_permission_error(&err(false, Some(98))));
    assert!(!is_permission_error(&err(false, None)));
}

#[test]
fn bind_fallbacks() {
    assert!(matches!(on_bind_error(80, &err(true, None), true), BindFallback::Privileged));
    assert!(matches!(on_bind_error(80, &err(true, None), false),
        BindFallback::Fail(m) if m == "Port 80 requires root privileges: denied"));
    assert!(matches!(on_bind_error(8080, &err(true, None), true),
        BindFallback::Fail(m) if m == "Failed to bind local port 8080: denied"));
    assert!(matches!(on_bind_error(80, &err(false, Some(98)), true),
        BindFallback::Fail(m) if m == "Failed to bind local port 80: denied"));
}

#[test]
fn relay_reads() {
    assert!(relay_read(Direction::Upload, 0).is_none());
    assert!(matches!(relay_read(Direction::Upload, 11), Some(StatsEvent::Upload(11))));
    assert!(matches!(relay_read(Direction::Download, 4096), Some(StatsEvent::Download(4096))));
}

#[test]
fn port_wait_steps() {
    assert!(matches!(port_wait_step(0, 10, true), PortWaitStep::Ready));
    assert!(matches!(port_wait_step(0, 10, false), PortWaitStep::RetryAfterDelay));
    assert!(matches!(port_wait_step(9, 10, false), PortWaitStep::GiveUp));
    assert!(matches!(port_wait_step(0, 1, false), PortWaitStep::GiveUp));
    assert_eq!(
        port_not_ready_message(15432, 15, "refused"),
        "Port 15432 not ready after 15 retries: refused"
    );
}

#[test]
fn forwarder_program_names_ports() {
    let s = forwarder_script(443, 51000);
    assert!(s.contains("s.bind(('127.0.0.1',443))"));
    assert!(s.contains("r.connect(('127.0.0.1',51000))"));
    assert!(s.starts_with("import socket,threading,sys,signal,os\n"));
}

#[test]
fn privileged_applescript_escapes() {
    let a = privileged_forwarder_applescript(443, 51000);
    assert!(a.starts_with("do shell script \"python3 -c '"));
    assert!(a.ends_with("'\" with administrator privileges"));
    assert!(a.contains("s.bind(('\\\"'\\\"'127.0.0.1'\\\"'\\\"',443))"));
}

#[test]
fn notification_escapes() {
    assert_eq!(
        notification_script("Bad \"Adit\"", "C:\\x"),
        "display notification \"C:\\\\x\" with title \"Bad \\\"Adit\\\"\""
    );
}

fn run_wait(retries: u32, outcomes: &[bool]) -> (bool, u32) {
    for i in 0..retries {
        match port_wait_step(i, retries, outcomes[i as usize]) {
            PortWaitStep::Ready => return (true, i + 1),
            PortWaitStep::RetryAfterDelay => {}
            PortWaitStep::GiveUp => return (false, i + 1),
        }
    }
    (true, 0)
}

#[test]
fn port_wait_stops_at_first_success() {
    assert_eq!(run_wait(3, &[false, true, true]), (true, 2));
    assert_eq!(run_wait(3, &[false, false, false]), (false, 3));
    assert_eq!(run_wait(0, &[]), (true, 0));
}
