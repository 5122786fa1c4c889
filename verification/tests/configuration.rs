//! The configuration of the controller and the errors it shows.

use vexa_vm::config::{
    configured_guest_tools_version, env_or, load_master_key, non_empty_env, parse_bool_env,
    parse_env, parse_hypervisor, Config, EnvironmentVariable, HypervisorMode,
};
use vexa_vm::error::{configuration, internal, AppError};

const KEY: &str = "BwcHBwcHBwcHBwcHBwcHBwcHBwcHBwcHBwcHBwcHBwc=";

fn variables(pairs: &[(&str, &str)]) -> Vec<EnvironmentVariable> {
    pairs
        .iter()
        .map(|(name, value)| EnvironmentVariable {
            name: (*name).to_owned(),
            value: (*value).to_owned(),
        })
        .collect()
}

fn test_config() -> Config {
    Config {
        bind: "127.0.0.1:8080".into(),
        public_url: "http://127.0.0.1:8080".into(),
        database_path: "x.db".into(),
        template_dir: "templates".into(),
        static_dir: "static".into(),
        master_key: vec![7; 32],
        bootstrap_admin: "admin".into(),
        bootstrap_password: None,
        secure_cookies: false,
        hypervisor_mode: HypervisorMode::Mock,
        libvirt_uri: "qemu:///system".into(),
        vm_storage: "vms".into(),
        iso_storage: "isos".into(),
        cloud_init_storage: "seed".into(),
        guest_tools_socket_dir: "/var/lib/vexa-vm/guest-tools".into(),
        guest_tools_linux_x86_64_artifact: None,
        guest_tools_windows_x86_64_artifact: None,
        guest_tools_version: "0.1.0".into(),
        network_bridge: "virbr0".into(),
        public_interface: None,
        vnc_ttl: 599,
        metrics_interval: 15,
    }
}

fn fault(config: Config) -> String {
    config.validate().unwrap_err().text()
}

#[test]
fn rejects_non_ten_minute_vnc_ttl() {
    let config = test_config();
    assert!(config.validate().is_err());
}

#[test]
fn bundled_guest_tools_follow_the_running_release_version() {
    let linux = "/opt/vexa-vm/current/guest-tools/vexa-guest-tools-linux-x86_64".to_owned();
    let windows =
        "/opt/vexa-vm/current/guest-tools/vexa-guest-tools-windows-x86_64.exe".to_owned();
    let running = "0.1.0";
    assert_eq!(
        configured_guest_tools_version(
            &Some(linux),
            &Some(windows.clone()),
            Some("stale-version".into()),
            running,
        ),
        running
    );
    assert_eq!(
        configured_guest_tools_version(
            &Some("/srv/custom/guest-tools".into()),
            &Some(windows),
            Some("vendor-7".into()),
            running,
        ),
        "vendor-7"
    );
}

#[test]
fn bundled_guest_tools_are_told_by_the_names_of_their_paths() {
    let linux = "/opt//vexa-vm/./current/guest-tools/vexa-guest-tools-linux-x86_64/".to_owned();
    let windows =
        "//opt/vexa-vm/current/guest-tools//vexa-guest-tools-windows-x86_64.exe".to_owned();
    let stale = || Some("stale-version".to_owned());
    assert_eq!(
        configured_guest_tools_version(&Some(linux.clone()), &Some(windows.clone()), stale(), "1"),
        "1"
    );
    let other = "opt/vexa-vm/current/guest-tools/vexa-guest-tools-linux-x86_64".to_owned();
    assert_eq!(
        configured_guest_tools_version(&Some(other), &Some(windows), stale(), "1"),
        "stale-version"
    );
}

#[test]
fn guest_tools_without_a_version_take_the_running_one() {
    assert_eq!(configured_guest_tools_version(&None, &None, None, "3.2.1"), "3.2.1");
}

#[test]
fn configurations_are_checked_as_a_whole() {
    let good = || Config { vnc_ttl: 600, ..test_config() };
    assert_eq!(good().validate().unwrap().vnc_ttl, 600);
    let text = fault(test_config());
    assert!(text.contains("VEXA_VNC_TTL_SECONDS must be exactly 600 seconds"), "{text}");
    let text = fault(Config { metrics_interval: 4, ..good() });
    assert!(text.contains("VEXA_METRICS_INTERVAL_SECONDS cannot be lower than 5"), "{text}");
    let text = fault(Config { public_url: "ftp://host".into(), ..good() });
    assert!(text.contains("VEXA_PUBLIC_URL must start with http:// or https://"), "{text}");
    let text = fault(Config { guest_tools_socket_dir: "relative".into(), ..good() });
    assert!(text.contains("must be an absolute path"), "{text}");
    let text = fault(Config { guest_tools_version: "a\nb".into(), ..good() });
    assert!(text.contains("must contain 1-64 printable characters"), "{text}");
}

#[test]
fn the_environment_has_defaults() {
    let env = variables(&[("VEXA_MASTER_KEY", KEY), ("VEXA_BRIDGE", "  ")]);
    let config = Config::from_env(&env, Ok("127.0.0.1:8080".to_owned()), "0.1.0").unwrap();
    assert_eq!(config.bind, "127.0.0.1:8080");
    assert_eq!(config.public_url, "http://127.0.0.1:8080");
    assert_eq!(config.master_key, vec![7; 32]);
    assert!(!config.secure_cookies);
    assert_eq!(config.vnc_ttl, 600);
}

#[test]
fn the_environment_is_read() {
    let env = variables(&[
        ("VEXA_MASTER_KEY", KEY),
        ("VEXA_PUBLIC_URL", "https://panel.example/"),
        ("VEXA_HYPERVISOR", "KVM"),
        ("VEXA_METRICS_INTERVAL_SECONDS", "30"),
    ]);
    let config = Config::from_env(&env, Ok("[::1]:80".to_owned()), "0.1.0").unwrap();
    assert_eq!(config.public_url, "https://panel.example");
    assert!(config.secure_cookies);
    assert_eq!(config.hypervisor_mode, HypervisorMode::Libvirt);
    assert_eq!(config.metrics_interval, 30);
}

#[test]
fn an_address_that_cannot_be_bound_is_refused() {
    let refused = Config::from_env(&vec![], Err("bad".to_owned()), "0.1.0");
    assert_eq!(refused, Err(configuration("invalid VEXA_BIND: bad")));
}

#[test]
fn keys_are_thirty_two_bytes_in_base64() {
    assert_eq!(load_master_key(Some(format!(" {KEY}\n"))).unwrap(), vec![7; 32]);
    assert!(load_master_key(None).is_err());
    assert!(load_master_key(Some("not base64".into())).is_err());
    assert!(load_master_key(Some("BwcH".into())).is_err());
}

#[test]
fn variables_are_trimmed_and_parsed() {
    let env = variables(&[("A", " x "), ("B", ""), ("C", "YES"), ("D", "perhaps"), ("E", "7")]);
    assert_eq!(non_empty_env(&env, "A").as_deref(), Some("x"));
    assert_eq!(non_empty_env(&env, "B"), None);
    assert_eq!(env_or(&env, "B", "other"), "other");
    assert_eq!(parse_bool_env(&env, "C", false), Ok(true));
    assert_eq!(parse_bool_env(&env, "B", true), Ok(true));
    assert_eq!(
        parse_bool_env(&env, "D", false),
        Err(configuration("D must be true or false"))
    );
    assert_eq!(parse_env(&env, "E", "1"), Ok(7));
    assert_eq!(parse_env(&env, "B", "15"), Ok(15));
    assert_eq!(
        parse_env(&env, "A", "1"),
        Err(configuration("invalid A: invalid digit found in string"))
    );
    assert_eq!(
        parse_env(&env, "B", "99999999999999999999x"),
        Err(configuration("invalid B: number too large to fit in target type"))
    );
}

#[test]
fn hypervisors_have_names() {
    assert_eq!(parse_hypervisor("auto"), Ok(HypervisorMode::Auto));
    assert_eq!(parse_hypervisor("Libvirt"), Ok(HypervisorMode::Libvirt));
    assert_eq!(parse_hypervisor("mock"), Ok(HypervisorMode::Mock));
    assert!(parse_hypervisor("xen").is_err());
}

#[test]
fn errors_keep_their_details_private() {
    let error = AppError::Database("secret detail".to_owned());
    assert_eq!(error.status_code(), 500);
    assert!(!error.public_message().contains("secret detail"));
    assert!(error.text().contains("secret detail"));
    let shown = error.into_response("request-1".to_owned());
    assert!(!format!("{shown:?}").contains("secret detail"));
    assert!(format!("{shown:?}").contains("request-1"));
    assert!(!internal("stack").public_message().contains("stack"));
    let refusal = AppError::Validation("name is empty".to_owned());
    assert_eq!(refusal.status_code(), 400);
    assert!(refusal.public_message().contains("name is empty"));
    assert_eq!(AppError::Unauthorized.status_code(), 401);
    assert_eq!(AppError::Forbidden.status_code(), 403);
    assert_eq!(AppError::NotFound("VM".to_owned()).status_code(), 404);
    assert_eq!(AppError::Conflict("busy".to_owned()).status_code(), 409);
    assert_eq!(AppError::RateLimited.status_code(), 429);
}

#[test]
fn every_error_has_a_code_and_a_status() {
    let text = || "detail".to_owned();
    let expected = [
        (AppError::Configuration(text()), 500, "configuration_error"),
        (AppError::Validation(text()), 400, "validation_error"),
        (AppError::Unauthorized, 401, "unauthorized"),
        (AppError::Forbidden, 403, "forbidden"),
        (AppError::NotFound(text()), 404, "not_found"),
        (AppError::Conflict(text()), 409, "conflict"),
        (AppError::RateLimited, 429, "rate_limited"),
        (AppError::Database(text()), 500, "database_error"),
        (AppError::Hypervisor(text()), 503, "hypervisor_error"),
        (AppError::Template(text()), 500, "template_error"),
        (AppError::Io(text()), 500, "io_error"),
        (AppError::Internal(text()), 500, "internal_error"),
    ];
    for (error, status, code) in expected {
        assert_eq!((error.status_code(), error.code()), (status, code));
    }
}
