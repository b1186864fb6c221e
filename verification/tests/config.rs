use aktags_cloud::config::{config_file_path, dir_or, get_config_dir, get_data_dir, home_dir_from, Config};
use aktags_cloud::net::IpAddress;

fn is_uuid_v4(s: &str) -> bool {
    let b: Vec<char> = s.chars().collect();
    b.len() == 36
        && b.iter().enumerate().all(|(i, c)| {
            if [8, 13, 18, 23].contains(&i) {
                *c == '-'
            } else {
                c.is_ascii_digit() || ('a'..='f').contains(c)
            }
        })
        && b[14] == '4'
        && "89ab".contains(b[19])
}

#[test]
fn default_config_for_home() {
    let c = Config::default_for_home("/home/u").unwrap();
    assert_eq!(c.server.host, IpAddress::V4(0, 0, 0, 0));
    assert_eq!(c.server.port, 8080);
    assert_eq!(c.server.external_url, None);
    assert_eq!(c.server.api_keys.len(), 1);
    assert_eq!(c.server.api_keys[0].name, "admin");
    assert!(!c.server.api_keys[0].read_only);
    assert!(is_uuid_v4(&c.server.api_keys[0].key));
    assert_eq!(c.server.cors_origins, vec!["*".to_string()]);
    assert_eq!(c.storage.watch_paths, vec!["/data/storage".to_string()]);
    assert_eq!(c.storage.upload_path, "/data/storage");
    assert_eq!(c.storage.db_path, "/home/u/aktags.db");
    assert!(!c.sync.enabled);
    assert_eq!(c.sync.listen_port, 22000);
    assert_eq!(c.sync.relay_server, None);
    assert_eq!(c.sync.node_id, None);
    assert_eq!(c.graveyard.path, "/home/u/graveyard");
    assert_eq!(c.graveyard.ttl_days, 30);
    assert_eq!(c.graveyard.max_size_mb, 500);
    assert_eq!(c.logging.dir, "/home/u/logs");
    assert_eq!(c.logging.max_files, 5);
    assert_eq!(c.logging.level, "info");
}

#[test]
fn default_admin_keys_differ() {
    let a = Config::default_for_home("/h").unwrap();
    let b = Config::default_for_home("/h").unwrap();
    assert_ne!(a.server.api_keys[0].key, b.server.api_keys[0].key);
}

#[test]
fn default_paths_for_trailing_slash_home() {
    let c = Config::default_for_home("/h/").unwrap();
    assert_eq!(c.storage.db_path, "/h/aktags.db");
}

#[test]
fn node_id_generated_once_then_stable() {
    let mut c = Config::default_for_home("/h").unwrap();
    let first = c.node_id().unwrap();
    assert!(is_uuid_v4(&first));
    assert_eq!(c.sync.node_id.as_deref(), Some(first.as_str()));
    let second = c.node_id().unwrap();
    assert_eq!(first, second);
    assert_eq!(c.sync.node_id.as_deref(), Some(first.as_str()));
}

#[test]
fn node_id_keeps_configured_value() {
    let mut c = Config::default_for_home("/h").unwrap();
    c.sync.node_id = Some("node-7".to_string());
    assert_eq!(c.node_id().unwrap(), "node-7");
    assert_eq!(c.sync.node_id.as_deref(), Some("node-7"));
}

#[test]
fn home_dir_choice() {
    assert_eq!(home_dir_from(Some("/a".into()), Some("/b".into())), "/a");
    assert_eq!(home_dir_from(None, Some("/b".into())), "/b");
    assert_eq!(home_dir_from(None, None), "/data");
    assert_eq!(home_dir_from(Some(String::new()), None), "");
}

#[test]
fn config_file_path_choice() {
    assert_eq!(config_file_path(Some("/etc/x.toml".into()), "/cfg"), "/etc/x.toml");
    assert_eq!(config_file_path(None, "/cfg"), "/cfg/config.toml");
}

#[test]
fn project_dirs_are_not_empty() {
    assert!(!get_config_dir().is_empty());
    assert!(!get_data_dir().is_empty());
    assert_eq!(dir_or(None, "/config"), "/config");
    assert_eq!(dir_or(Some("/x".into()), "/config"), "/x");
}

#[test]
fn overrides_replace_port_and_host() {
    let mut c = Config::default_for_home("/h").unwrap();
    c.apply_overrides(Some(9000), Some(IpAddress::V4(127, 0, 0, 1)));
    assert_eq!(c.server.port, 9000);
    assert_eq!(c.server.host, IpAddress::V4(127, 0, 0, 1));
    c.apply_overrides(None, None);
    assert_eq!(c.server.port, 9000);
    assert_eq!(c.server.host, IpAddress::V4(127, 0, 0, 1));
}

#[test]
fn default_with_key_uses_the_key() {
    let c = Config::default_with_key("/home/u", "k-1".to_string());
    assert_eq!(c.server.api_keys.len(), 1);
    assert_eq!(c.server.api_keys[0].key, "k-1");
    assert_eq!(c.storage.db_path, "/home/u/aktags.db");
}
