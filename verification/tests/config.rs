use bad_adit::config::{
    add_tunnel_config, add_tunnel_config_with_id, default_target_host, find_tunnel_config,
    join_path, remove_tunnel_config, update_tunnel_config, validate_config, ConfigStore,
    StorePath, TunnelConfig,
};

fn path_text(s: &ConfigStore) -> String {
    match s.path() {
        StorePath::Text(t) => t.clone(),
        StorePath::Bytes(b) => String::from_utf8_lossy(b).into_owned(),
    }
}

fn make_config(id: &str, name: &str, local_port: u16) -> TunnelConfig {
    TunnelConfig {
        id: id.to_string(),
        name: name.to_string(),
        ssh_host: "example.com".to_string(),
        ssh_user: "user".to_string(),
        ssh_key_path: String::new(),
        target_host: "localhost".to_string(),
        target_port: 5432,
        local_port,
        auto_reconnect: false,
    }
}

#[test]
fn validate_rejects_empty_name() {
    let c = make_config("1", "", 5432);
    assert!(validate_config(&c, &[]).is_err());
}

#[test]
fn validate_rejects_zero_port() {
    let c = make_config("1", "Test", 0);
    assert!(validate_config(&c, &[]).is_err());
}

#[test]
fn validate_rejects_duplicate_local_port() {
    let existing = vec![make_config("1", "Existing", 5432)];
    let new = make_config("2", "New", 5432);
    assert!(validate_config(&new, &existing).is_err());
}

#[test]
fn validate_allows_same_port_on_self_edit() {
    let existing = vec![make_config("1", "Existing", 5432)];
    let edited = make_config("1", "Edited", 5432);
    assert!(validate_config(&edited, &existing).is_ok());
}

#[test]
fn validate_messages_name_each_rule() {
    let blank = make_config("1", " \t\u{3000}", 5432);
    assert_eq!(validate_config(&blank, &[]), Err("Tunnel name cannot be empty".to_string()));

    let zero_local = make_config("1", "Test", 0);
    assert_eq!(
        validate_config(&zero_local, &[]),
        Err("Local port must be between 1 and 65535".to_string())
    );

    let mut zero_target = make_config("1", "Test", 5432);
    zero_target.target_port = 0;
    assert_eq!(
        validate_config(&zero_target, &[]),
        Err("Target port must be between 1 and 65535".to_string())
    );

    let mut no_host = make_config("1", "Test", 5432);
    no_host.ssh_host = "  ".to_string();
    assert_eq!(validate_config(&no_host, &[]), Err("SSH host cannot be empty".to_string()));

    let mut no_user = make_config("1", "Test", 5432);
    no_user.ssh_user = String::new();
    assert_eq!(validate_config(&no_user, &[]), Err("SSH user cannot be empty".to_string()));

    let existing = vec![make_config("1", "Existing", 15432)];
    let clash = make_config("2", "New", 15432);
    assert_eq!(
        validate_config(&clash, &existing),
        Err("Local port 15432 is already used by another tunnel".to_string())
    );
}

#[test]
fn validate_checks_name_before_ports() {
    let c = make_config("1", "", 0);
    assert_eq!(validate_config(&c, &[]), Err("Tunnel name cannot be empty".to_string()));
}

#[test]
fn default_target_is_localhost() {
    assert_eq!(default_target_host(), "localhost");
}

#[test]
fn store_path_in_data_dir() {
    let s = ConfigStore::in_data_dir(Some("/home/alice/.local/share".to_string()));
    assert_eq!(path_text(&s), "/home/alice/.local/share/bad-adit/tunnels.json");
    let s = ConfigStore::in_data_dir(Some("/data/".to_string()));
    assert_eq!(path_text(&s), "/data/bad-adit/tunnels.json");
    let s = ConfigStore::in_data_dir(None);
    assert_eq!(path_text(&s), "./bad-adit/tunnels.json");
    let s = ConfigStore::with_path("/tmp/t.json".to_string());
    assert_eq!(path_text(&s), "/tmp/t.json");
}

#[test]
fn store_new_ends_with_file_name() {
    let s = ConfigStore::new();
    assert!(path_text(&s).ends_with("bad-adit/tunnels.json"));
}

#[test]
fn join_path_cases() {
    assert_eq!(join_path("", "a"), "a");
    assert_eq!(join_path("x", "a"), "x/a");
    assert_eq!(join_path("x/", "a"), "x/a");
}

#[test]
fn add_assigns_fresh_uuid() {
    let mut configs = vec![make_config("1", "Existing", 5432)];
    let added = add_tunnel_config(&mut configs, make_config("", "New", 6379)).unwrap();
    assert_eq!(added.id.len(), 36);
    assert_eq!(added.id.chars().nth(14), Some('4'));
    assert_ne!(added.id, "");
    assert_eq!(configs.len(), 2);
    assert_eq!(configs[1].id, added.id);
    assert_eq!(configs[1].name, "New");
}

#[test]
fn add_refused_keeps_list() {
    let mut configs = vec![make_config("1", "Existing", 5432)];
    let r = add_tunnel_config_with_id(&mut configs, make_config("", "New", 5432), "2".to_string());
    assert_eq!(r.unwrap_err(), "Local port 5432 is already used by another tunnel");
    assert_eq!(configs.len(), 1);
}

#[test]
fn add_then_find() {
    let mut configs = vec![make_config("1", "Existing", 5432)];
    let r = add_tunnel_config_with_id(&mut configs, make_config("x", "New", 6379), "2".to_string());
    assert_eq!(r.unwrap().id, "2");
    let found = find_tunnel_config(&configs, "2").unwrap();
    assert_eq!(found.name, "New");
    assert_eq!(found.local_port, 6379);
}

#[test]
fn update_replaces_and_reports_missing() {
    let mut configs = vec![make_config("1", "A", 5432), make_config("2", "B", 6379)];
    let r = update_tunnel_config(&mut configs, make_config("2", "B2", 6380));
    assert_eq!(r.unwrap().name, "B2");
    assert_eq!(configs[1].name, "B2");
    assert_eq!(configs[1].local_port, 6380);
    assert_eq!(configs[0].name, "A");
    assert_eq!(find_tunnel_config(&configs, "2").unwrap().name, "B2");

    let r = update_tunnel_config(&mut configs, make_config("3", "C", 7000));
    assert_eq!(r.unwrap_err(), "Tunnel not found");
    assert_eq!(configs.len(), 2);

    let r = update_tunnel_config(&mut configs, make_config("2", "B3", 5432));
    assert_eq!(r.unwrap_err(), "Local port 5432 is already used by another tunnel");
    assert_eq!(configs[1].name, "B2");
}

#[test]
fn remove_then_find_fails() {
    let mut configs = vec![make_config("1", "A", 5432), make_config("2", "B", 6379)];
    remove_tunnel_config(&mut configs, "1");
    assert_eq!(configs.len(), 1);
    assert_eq!(configs[0].id, "2");
    assert_eq!(find_tunnel_config(&configs, "1").unwrap_err(), "Tunnel 1 not found");
    remove_tunnel_config(&mut configs, "9");
    assert_eq!(configs.len(), 1);
}

#[test]
fn store_from_platform_answer() {
    let s = ConfigStore::from_data_dir(Some(StorePath::Text("/d".to_string())));
    assert_eq!(path_text(&s), "/d/bad-adit/tunnels.json");
    let s = ConfigStore::from_data_dir(None);
    assert_eq!(path_text(&s), "./bad-adit/tunnels.json");
    let s = ConfigStore::from_data_dir(Some(StorePath::Bytes(b"/n\xff".to_vec())));
    assert!(matches!(s.path(), StorePath::Bytes(b) if b.as_slice() == b"/n\xff/bad-adit/tunnels.json"));
    let s = ConfigStore::from_data_dir(Some(StorePath::Bytes(b"/n\xff/".to_vec())));
    assert!(matches!(s.path(), StorePath::Bytes(b) if b.as_slice() == b"/n\xff/bad-adit/tunnels.json"));
}
