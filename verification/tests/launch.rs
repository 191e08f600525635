use wasip2_host::config::SandboxConfig;
use wasip2_host::launch::{
    apply_cli_overrides, entry_point_export, exit_code, parse_dir_mapping, plan_wasi_ctx,
    select_config_source, select_entry_point, ConfigSource, EntryPoint, NetworkAccess, RunValue,
};
use wasip2_host::sandbox_fs::SandboxState;

#[test]
fn dir_mapping_parsing() {
    assert_eq!(parse_dir_mapping("/data:/srv/data"), Ok(("/data".to_string(), "/srv/data".to_string())));
    assert_eq!(parse_dir_mapping("a:b:c"), Ok(("a".to_string(), "b:c".to_string())));
    assert_eq!(parse_dir_mapping(":x"), Ok((String::new(), "x".to_string())));
    assert_eq!(parse_dir_mapping("x:"), Ok(("x".to_string(), String::new())));
    assert_eq!(
        parse_dir_mapping("nocolon"),
        Err("Directory mapping must be in format 'guest:host'".to_string())
    );
    assert!(parse_dir_mapping("").is_err());
}

#[test]
fn dir_mapping_round_trip() {
    for (g, h) in [("/a", "/b"), ("", ""), ("/é", "c:d")] {
        let s = format!("{}:{}", g, h);
        assert_eq!(parse_dir_mapping(&s), Ok((g.to_string(), h.to_string())));
    }
}

#[test]
fn config_source_precedence() {
    assert_eq!(select_config_source(true, true), ConfigSource::Permissive);
    assert_eq!(select_config_source(false, true), ConfigSource::File);
    assert_eq!(select_config_source(false, false), ConfigSource::Default);
}

#[test]
fn cli_overrides() {
    let mut c = SandboxConfig::default();
    let dirs = vec![("/g".to_string(), "/h".to_string())];
    apply_cli_overrides(&mut c, &dirs, false);
    assert_eq!(c.allowed_paths.len(), 2);
    assert_eq!(c.allowed_paths[1].guest, "/g");
    assert_eq!(c.allowed_paths[1].host, "/h");
    assert!(!c.allowed_paths[1].read_only);
    assert!(!c.allow_network);
    assert!(c.is_path_allowed("/g/x"));
    apply_cli_overrides(&mut c, &vec![], true);
    assert!(c.allow_network);
    assert_eq!(c.allowed_hosts, None);
    assert_eq!(c.allowed_ports, None);
    assert!(c.is_host_allowed("any.test"));
    assert!(c.is_port_allowed(9));
}

#[test]
fn wasi_plan() {
    let mut c = SandboxConfig::default();
    c.env = vec![("K".to_string(), "V".to_string()), ("P".to_string(), "Q".to_string())];
    apply_cli_overrides(&mut c, &vec![("/g".to_string(), "/h".to_string())], false);
    c.allowed_paths[1].read_only = true;
    let plan = plan_wasi_ctx(&c, vec!["prog".to_string(), "x".to_string()], &vec![false, true]);
    // Without a whitelist the whole environment reaches the guest.
    assert_eq!(plan.env, c.env);
    assert_eq!(plan.args, vec!["prog", "x"]);
    assert_eq!(plan.preopens.len(), 1);
    assert_eq!(plan.preopens[0].guest, "/g");
    assert_eq!(plan.preopens[0].host, "/h");
    assert!(plan.preopens[0].read_only);
    assert!(matches!(plan.network, NetworkAccess::Denied));
    let plan = plan_wasi_ctx(&SandboxConfig::permissive(vec![]), vec![], &vec![true]);
    assert!(matches!(plan.network, NetworkAccess::All));
    assert_eq!(plan.preopens.len(), 1);
    assert!(!plan.preopens[0].read_only);
}

#[test]
fn wasi_plan_applies_env_whitelist() {
    let mut c = SandboxConfig::default();
    c.env = vec![("K".to_string(), "V".to_string()), ("P".to_string(), "Q".to_string())];
    c.env_whitelist = Some(vec![]);
    let plan = plan_wasi_ctx(&c, vec![], &vec![true]);
    assert!(plan.env.is_empty());
    c.env_whitelist = Some(vec!["P".to_string()]);
    let plan = plan_wasi_ctx(&c, vec![], &vec![true]);
    assert_eq!(plan.env, vec![("P".to_string(), "Q".to_string())]);
    assert_eq!(plan.env, SandboxState::new(c).get_filtered_env());
}

#[test]
fn wasi_plan_leaves_out_denied_directories() {
    let mut c = SandboxConfig::default();
    c.denied_paths.push("/sandbox/secret".to_string());
    apply_cli_overrides(
        &mut c,
        &vec![("/data".to_string(), "/srv/data".to_string()), ("/etc/app".to_string(), "/srv/app".to_string())],
        false,
    );
    let plan = plan_wasi_ctx(&c, vec![], &vec![true, true, true]);
    // "/sandbox" holds a denied path and "/etc/app" lies under one.
    assert_eq!(plan.preopens.len(), 1);
    assert_eq!(plan.preopens[0].guest, "/data");
    let plan = plan_wasi_ctx(&SandboxConfig::default(), vec![], &vec![true]);
    assert_eq!(plan.preopens.len(), 1);
    assert_eq!(plan.preopens[0].guest, "/sandbox");
    let plan = plan_wasi_ctx(&SandboxConfig::default(), vec![], &vec![false]);
    assert!(plan.preopens.is_empty());
}

#[test]
fn wasi_plan_network_policy() {
    let mut c = SandboxConfig::default();
    c.allow_network = true;
    let plan = plan_wasi_ctx(&c, vec![], &vec![true]);
    // Empty host and port lists admit no peer.
    assert!(matches!(plan.network, NetworkAccess::Filtered { .. }));
    assert!(!plan.network.admits("127.0.0.1", 80));
    c.allowed_hosts = Some(vec!["127.0.0.1".to_string()]);
    c.allowed_ports = None;
    let plan = plan_wasi_ctx(&c, vec![], &vec![true]);
    assert!(plan.network.admits("127.0.0.1", 80));
    assert!(plan.network.admits("127.0.0.1", 8080));
    assert!(!plan.network.admits("10.0.0.1", 80));
    c.allowed_ports = Some(vec![443]);
    let plan = plan_wasi_ctx(&c, vec![], &vec![true]);
    assert!(plan.network.admits("127.0.0.1", 443));
    assert!(!plan.network.admits("127.0.0.1", 80));
    assert!(!NetworkAccess::Denied.admits("127.0.0.1", 443));
    assert!(NetworkAccess::All.admits("10.1.2.3", 1));
}

#[test]
fn exit_codes() {
    assert_eq!(exit_code(None), 0);
    assert_eq!(exit_code(Some(RunValue::Other)), 0);
    assert_eq!(exit_code(Some(RunValue::S32(-3))), -3);
    assert_eq!(exit_code(Some(RunValue::U32(7))), 7);
    assert_eq!(exit_code(Some(RunValue::U32(u32::MAX))), -1);
    assert_eq!(exit_code(Some(RunValue::U32(0x8000_0000))), i32::MIN);
}

#[test]
fn entry_points() {
    assert_eq!(select_entry_point(true, true, true), Some(EntryPoint::CliRun020));
    assert_eq!(select_entry_point(false, true, true), Some(EntryPoint::CliRun029));
    assert_eq!(select_entry_point(false, false, true), Some(EntryPoint::Start));
    assert_eq!(select_entry_point(false, false, false), None);
    assert_eq!(entry_point_export(EntryPoint::CliRun020), "wasi:cli/run@0.2.0#run");
    assert_eq!(entry_point_export(EntryPoint::CliRun029), "wasi:cli/run@0.2.9#run");
    assert_eq!(entry_point_export(EntryPoint::Start), "_start");
}
