use bad_adit::config::TunnelConfig;
use bad_adit::ssh::build_ssh_args;

fn test_config() -> TunnelConfig {
    TunnelConfig {
        id: "test".to_string(),
        name: "Test".to_string(),
        ssh_host: "example.com".to_string(),
        ssh_user: "user".to_string(),
        ssh_key_path: "/path/to/key".to_string(),
        target_host: "localhost".to_string(),
        target_port: 5432,
        local_port: 15432,
        auto_reconnect: false,
    }
}

#[test]
fn ssh_args_construction() {
    let config = test_config();
    let args = build_ssh_args(&config, 54321);
    assert!(args.contains(&"-N".to_string()));
    assert!(args.contains(&"54321:localhost:5432".to_string()));
    assert!(args.contains(&"-i".to_string()));
    assert!(args.contains(&"/path/to/key".to_string()));
    assert!(args.contains(&"user@example.com".to_string()));
}

#[test]
fn ssh_args_without_key() {
    let mut config = test_config();
    config.ssh_key_path = String::new();
    let args = build_ssh_args(&config, 54321);
    assert!(!args.contains(&"-i".to_string()));
}

#[test]
fn ssh_args_port_before_destination() {
    let mut config = test_config();
    config.ssh_key_path = String::new();
    let args = build_ssh_args(&config, 54321);
    let n = args.len();
    assert_eq!(&args[n - 3..], &["-p".to_string(), "22".to_string(), "user@example.com".to_string()]);
}

#[test]
fn ssh_args_exact_order() {
    let config = test_config();
    let args = build_ssh_args(&config, 54321);
    let expected = vec![
        "-N",
        "-L",
        "54321:localhost:5432",
        "-o",
        "StrictHostKeyChecking=accept-new",
        "-o",
        "ExitOnForwardFailure=yes",
        "-o",
        "ServerAliveInterval=15",
        "-o",
        "ServerAliveCountMax=3",
        "-i",
        "/path/to/key",
        "-p",
        "22",
        "user@example.com",
    ];
    assert_eq!(args, expected);
}
