use wasip2_host::config::{PathMapping, SandboxConfig};

fn mapping(guest: &str, host: &str, read_only: bool) -> PathMapping {
    PathMapping { guest: guest.to_string(), host: host.to_string(), read_only }
}

fn open_config(allowed: Vec<PathMapping>, denied: Vec<&str>) -> SandboxConfig {
    let mut c = SandboxConfig::permissive(vec![]);
    c.allowed_paths = allowed;
    c.denied_paths = denied.into_iter().map(|s| s.to_string()).collect();
    c
}

#[test]
fn test_default_config() {
    let config = SandboxConfig::default();
    assert!(!config.allow_network);
    assert!(config.is_path_allowed("/sandbox/file.txt"));
    assert!(!config.is_path_allowed("/etc/passwd"));
}

#[test]
fn test_path_mapping() {
    let config = SandboxConfig::default();
    let mapped = config.map_path("/sandbox/test/file.txt");
    assert_eq!(mapped, Some("/tmp/sandbox/test/file.txt".to_string()));
}

#[test]
fn test_permissive_config() {
    let config = SandboxConfig::permissive(vec![]);
    assert!(config.allow_network);
    assert!(config.is_host_allowed("example.com"));
}

#[test]
fn test_restrictive_config() {
    let config = SandboxConfig::restrictive();
    assert!(!config.allow_network);
    assert!(!config.is_path_allowed("/sandbox"));
}

#[test]
fn default_config_values() {
    let c = SandboxConfig::default();
    assert_eq!(c.allowed_paths.len(), 1);
    assert_eq!(c.allowed_paths[0].guest, "/sandbox");
    assert_eq!(c.allowed_paths[0].host, "/tmp/sandbox");
    assert!(!c.allowed_paths[0].read_only);
    assert_eq!(c.denied_paths, vec!["/etc", "/bin", "/usr", "/var"]);
    assert_eq!(c.allowed_hosts, Some(vec![]));
    assert_eq!(c.allowed_ports, Some(vec![]));
    assert!(c.env.is_empty());
    assert_eq!(c.env_whitelist, None);
    assert_eq!(c.max_memory_bytes, Some(256 * 1024 * 1024));
    assert_eq!(c.max_exec_time_ms, Some(60_000));
    assert_eq!(c.max_file_size, Some(10 * 1024 * 1024));
    assert_eq!(c.max_total_size, Some(100 * 1024 * 1024));
    assert_eq!(c.max_open_files, Some(64));
}

#[test]
fn restrictive_config_values() {
    let c = SandboxConfig::restrictive();
    assert!(c.allowed_paths.is_empty());
    assert_eq!(c.denied_paths, vec!["/"]);
    assert_eq!(c.env_whitelist, Some(vec![]));
    assert_eq!(c.max_memory_bytes, Some(16 * 1024 * 1024));
    assert_eq!(c.max_exec_time_ms, Some(5_000));
    assert_eq!(c.max_file_size, Some(1024 * 1024));
    assert_eq!(c.max_total_size, Some(10 * 1024 * 1024));
    assert_eq!(c.max_open_files, Some(8));
}

#[test]
fn permissive_config_keeps_given_env() {
    let env = vec![("HOME".to_string(), "/home/u".to_string()), ("A".to_string(), "1".to_string())];
    let c = SandboxConfig::permissive(env.clone());
    assert_eq!(c.env, env);
    assert_eq!(c.allowed_paths[0].guest, "/");
    assert_eq!(c.allowed_paths[0].host, "/");
    assert!(c.denied_paths.is_empty());
    assert_eq!(c.allowed_hosts, None);
    assert_eq!(c.allowed_ports, None);
    assert_eq!(c.max_open_files, None);
}

#[test]
fn denied_path_wins_over_allowed() {
    let c = open_config(vec![mapping("/", "/host", false)], vec!["/secret"]);
    assert!(c.is_path_allowed("/public/x"));
    assert!(!c.is_path_allowed("/secret/x"));
    assert!(!c.is_path_allowed("/secretive"));
    // The mapping itself still exists: map_path does not look at denied paths.
    assert_eq!(c.map_path("/secret/x"), Some("/host/secret/x".to_string()));
}

#[test]
fn path_not_covered_is_refused_and_unmapped() {
    let c = SandboxConfig::default();
    assert!(!c.is_path_allowed("/home/user"));
    assert_eq!(c.map_path("/home/user"), None);
    // Prefix matching is textual, not by components.
    assert!(c.is_path_allowed("/sandboxed"));
    assert_eq!(c.map_path("/sandboxed"), Some("/tmp/sandbox/ed".to_string()));
}

#[test]
fn map_path_joins_like_pathbuf() {
    let c = SandboxConfig::default();
    assert_eq!(c.map_path("/sandbox"), Some("/tmp/sandbox/".to_string()));
    assert_eq!(c.map_path("/sandbox///a/b"), Some("/tmp/sandbox/a/b".to_string()));
    let d = open_config(vec![mapping("/data", "/srv/", false)], vec![]);
    assert_eq!(d.map_path("/data/x"), Some("/srv/x".to_string()));
    let e = open_config(vec![mapping("/data", "", false)], vec![]);
    assert_eq!(e.map_path("/data/x"), Some("x".to_string()));
}

#[test]
fn map_path_uses_first_covering_mapping() {
    let c = open_config(vec![mapping("/a", "/first", false), mapping("/a/b", "/second", false)], vec![]);
    assert_eq!(c.map_path("/a/b/c"), Some("/first/b/c".to_string()));
    let d = open_config(vec![mapping("/a/b", "/second", false), mapping("/a", "/first", false)], vec![]);
    assert_eq!(d.map_path("/a/b/c"), Some("/second/c".to_string()));
}

#[test]
fn unicode_paths_compare_by_characters() {
    let c = open_config(vec![mapping("/données", "/h", false)], vec!["/données/privé"]);
    assert!(c.is_path_allowed("/données/é"));
    assert!(!c.is_path_allowed("/données/privé/x"));
    assert_eq!(c.map_path("/données/é"), Some("/h/é".to_string()));
}

#[test]
fn network_lists() {
    let mut c = SandboxConfig::default();
    assert!(!c.is_host_allowed("example.com"));
    assert!(!c.is_port_allowed(80));
    c.allow_network = true;
    // Empty lists allow nothing.
    assert!(!c.is_host_allowed("example.com"));
    assert!(!c.is_port_allowed(80));
    c.allowed_hosts = Some(vec!["example.com".to_string()]);
    c.allowed_ports = Some(vec![443]);
    assert!(c.is_host_allowed("example.com"));
    assert!(!c.is_host_allowed("example.org"));
    assert!(!c.is_host_allowed("example.co"));
    assert!(c.is_port_allowed(443));
    assert!(!c.is_port_allowed(80));
    // Absent lists allow everything.
    c.allowed_hosts = None;
    c.allowed_ports = None;
    assert!(c.is_host_allowed("anything.test"));
    assert!(c.is_port_allowed(1));
}

#[test]
fn restrictive_allows_nothing() {
    let c = SandboxConfig::restrictive();
    assert!(!c.is_path_allowed("/"));
    assert!(!c.is_path_allowed(""));
    assert!(!c.is_host_allowed("localhost"));
    assert!(!c.is_port_allowed(8080));
}

#[test]
fn permissive_maps_paths_to_themselves() {
    let c = SandboxConfig::permissive(vec![]);
    assert!(c.is_path_allowed("/etc/passwd"));
    assert_eq!(c.map_path("/etc/passwd"), Some("/etc/passwd".to_string()));
    assert_eq!(c.map_path("/"), Some("/".to_string()));
    assert!(c.is_port_allowed(22));
}
