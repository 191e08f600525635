use wasip2_host::config::{PathMapping, SandboxConfig};
use wasip2_host::sandbox_fs::{create_dir_mappings, SandboxError, SandboxState};
use wasip2_host::text::decimal;

fn kv(k: &str, v: &str) -> (String, String) {
    (k.to_string(), v.to_string())
}

#[test]
fn test_sandbox_state() {
    let config = SandboxConfig::default();
    let mut state = SandboxState::new(config);

    // Test file tracking
    assert!(state.track_open().is_ok());
    state.track_close();

    // Test write tracking
    assert!(state.track_write(1024).is_ok());
}

#[test]
fn test_path_access() {
    let config = SandboxConfig::default();
    let state = SandboxState::new(config);

    // Allowed path
    assert!(state.check_file_access("/sandbox/file.txt", false).is_ok());

    // Denied path
    assert!(state.check_file_access("/etc/passwd", false).is_err());
}

#[test]
fn test_network_access() {
    let config = SandboxConfig::default();
    let state = SandboxState::new(config);

    // Network disabled by default
    assert!(state.check_network("example.com", 80).is_err());
}

#[test]
fn file_access_results() {
    let mut config = SandboxConfig::default();
    config.allowed_paths.push(PathMapping {
        guest: "/ro".to_string(),
        host: "/srv/ro".to_string(),
        read_only: true,
    });
    let state = SandboxState::new(config);
    assert_eq!(state.check_file_access("/sandbox/a.txt", true).unwrap(), "/tmp/sandbox/a.txt");
    assert_eq!(state.check_file_access("/ro/a.txt", false).unwrap(), "/srv/ro/a.txt");
    match state.check_file_access("/ro/a.txt", true) {
        Err(SandboxError::WriteDenied { path }) => assert_eq!(path, "/ro/a.txt"),
        other => panic!("unexpected {:?}", other),
    }
    match state.check_file_access("/etc/passwd", true) {
        Err(SandboxError::AccessDenied { path }) => assert_eq!(path, "/etc/passwd"),
        other => panic!("unexpected {:?}", other),
    }
    match state.check_file_access("/nowhere", false) {
        Err(SandboxError::AccessDenied { path }) => assert_eq!(path, "/nowhere"),
        other => panic!("unexpected {:?}", other),
    }
}

#[test]
fn read_only_mapping_refuses_write_even_if_first_match_is_writable() {
    let mut config = SandboxConfig::default();
    config.allowed_paths.push(PathMapping {
        guest: "/sandbox/ro".to_string(),
        host: "/srv/ro".to_string(),
        read_only: true,
    });
    let state = SandboxState::new(config);
    assert!(matches!(
        state.check_file_access("/sandbox/ro/x", true),
        Err(SandboxError::WriteDenied { .. })
    ));
    assert_eq!(state.check_file_access("/sandbox/ro/x", false).unwrap(), "/tmp/sandbox/ro/x");
}

#[test]
fn open_limit_and_close_undoes_open() {
    let mut state = SandboxState::new(SandboxConfig::restrictive());
    for _ in 0..8 {
        assert!(state.track_open().is_ok());
    }
    match state.track_open() {
        Err(SandboxError::TooManyOpenFiles { max }) => assert_eq!(max, 8),
        other => panic!("unexpected {:?}", other),
    }
    state.track_close();
    assert!(state.track_open().is_ok());
    assert!(state.track_open().is_err());
}

#[test]
fn close_never_goes_below_zero() {
    let mut state = SandboxState::new(SandboxConfig::restrictive());
    state.track_close();
    state.track_close();
    for _ in 0..8 {
        assert!(state.track_open().is_ok());
    }
    assert!(state.track_open().is_err());
}

#[test]
fn unlimited_opens_without_limit() {
    let mut state = SandboxState::new(SandboxConfig::permissive(vec![]));
    for _ in 0..1000 {
        assert!(state.track_open().is_ok());
    }
}

#[test]
fn write_limits() {
    let mut state = SandboxState::new(SandboxConfig::restrictive());
    match state.track_write(1024 * 1024 + 1) {
        Err(SandboxError::FileSizeExceeded { bytes, max }) => {
            assert_eq!(bytes, 1024 * 1024 + 1);
            assert_eq!(max, 1024 * 1024);
        }
        other => panic!("unexpected {:?}", other),
    }
    for _ in 0..10 {
        assert!(state.track_write(1024 * 1024).is_ok());
    }
    // Exactly at the total limit now; one more byte is refused.
    assert!(matches!(state.track_write(1), Err(SandboxError::TotalSizeExceeded)));
    assert!(state.track_write(0).is_ok());
}

#[test]
fn refused_write_is_not_counted() {
    let mut config = SandboxConfig::restrictive();
    config.max_file_size = None;
    config.max_total_size = Some(100);
    let mut state = SandboxState::new(config);
    assert!(state.track_write(60).is_ok());
    assert!(matches!(state.track_write(50), Err(SandboxError::TotalSizeExceeded)));
    assert!(state.track_write(40).is_ok());
    assert!(state.track_write(1).is_err());
}

#[test]
fn network_errors() {
    let mut config = SandboxConfig::default();
    let state = SandboxState::new(config.clone());
    assert!(matches!(state.check_network("a.test", 80), Err(SandboxError::NetworkDenied)));
    config.allow_network = true;
    config.allowed_hosts = Some(vec!["a.test".to_string()]);
    config.allowed_ports = Some(vec![443]);
    let state = SandboxState::new(config);
    match state.check_network("b.test", 443) {
        Err(SandboxError::HostNotAllowed { host }) => assert_eq!(host, "b.test"),
        other => panic!("unexpected {:?}", other),
    }
    match state.check_network("a.test", 80) {
        Err(SandboxError::PortNotAllowed { port }) => assert_eq!(port, 80),
        other => panic!("unexpected {:?}", other),
    }
    assert!(state.check_network("a.test", 443).is_ok());
}

#[test]
fn filtered_env() {
    let mut config = SandboxConfig::default();
    config.env = vec![kv("A", "1"), kv("B", "2"), kv("C", "3"), kv("A", "4")];
    let state = SandboxState::new(config.clone());
    assert_eq!(state.get_filtered_env(), config.env);
    config.env_whitelist = Some(vec!["A".to_string(), "C".to_string()]);
    let state = SandboxState::new(config.clone());
    assert_eq!(state.get_filtered_env(), vec![kv("A", "1"), kv("C", "3"), kv("A", "4")]);
    config.env_whitelist = Some(vec![]);
    let state = SandboxState::new(config);
    assert!(state.get_filtered_env().is_empty());
}

#[test]
fn config_getter_and_dir_mappings() {
    let state = SandboxState::new(SandboxConfig::default());
    assert_eq!(state.config().max_open_files, Some(64));
    let mut config = SandboxConfig::default();
    config.allowed_paths.push(PathMapping { guest: "/g".to_string(), host: "/h".to_string(), read_only: true });
    assert_eq!(
        create_dir_mappings(&config),
        vec![kv("/sandbox", "/tmp/sandbox"), kv("/g", "/h")]
    );
    assert!(create_dir_mappings(&SandboxConfig::restrictive()).is_empty());
}

#[test]
fn error_messages() {
    let p = |s: &str| s.to_string();
    assert_eq!(
        SandboxError::AccessDenied { path: p("/etc/passwd") }.message(),
        "Access denied: path not in allowed list: /etc/passwd"
    );
    assert_eq!(SandboxError::CannotMapPath { path: p("/x") }.message(), "Cannot map path: /x");
    assert_eq!(SandboxError::WriteDenied { path: p("/ro/a") }.message(), "Write denied: path is read-only: /ro/a");
    assert_eq!(SandboxError::TooManyOpenFiles { max: 64 }.message(), "Too many open files (max: 64)");
    assert_eq!(
        SandboxError::FileSizeExceeded { bytes: 10485761, max: 10485760 }.message(),
        "File size exceeds limit: 10485761 > 10485760"
    );
    assert_eq!(SandboxError::TotalSizeExceeded.message(), "Total write size exceeds limit");
    assert_eq!(SandboxError::NetworkDenied.message(), "Network access denied");
    assert_eq!(SandboxError::HostNotAllowed { host: p("example.com") }.message(), "Host not allowed: example.com");
    assert_eq!(SandboxError::PortNotAllowed { port: 80 }.message(), "Port not allowed: 80");
}

#[test]
fn decimal_text() {
    assert_eq!(decimal(0), "0");
    assert_eq!(decimal(7), "7");
    assert_eq!(decimal(10), "10");
    assert_eq!(decimal(65535), "65535");
    assert_eq!(decimal(u64::MAX), u64::MAX.to_string());
}

#[test]
fn filtered_env_of_config() {
    let mut config = SandboxConfig::restrictive();
    config.env = vec![kv("A", "1")];
    assert!(wasip2_host::sandbox_fs::filtered_env(&config).is_empty());
    config.env_whitelist = None;
    assert_eq!(wasip2_host::sandbox_fs::filtered_env(&config), vec![kv("A", "1")]);
}
