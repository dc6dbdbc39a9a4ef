use pike::config::validate_token;
use pike::net::is_unroutable_advertised;
use pike::service::preflight::{parse_effective_uid, preflight_error};
use pike::service::units::{main_unit, update_timer, update_unit, UnitParams};
use pike::service::wizard::{
    advertisable_addrs, advertised_answer, base_url_hint, parse_port, prompt_answer,
    validate_cache_dir, yes_no, AddrAnswer,
};

fn params(port: u16) -> UnitParams {
    UnitParams {
        exec_path: "/usr/local/bin/pike".into(),
        config_path: "/etc/pike/pike.toml".into(),
        cache_dir: "/var/cache/pike".into(),
        user: "pike".into(),
        port,
    }
}

#[test]
fn main_unit_has_exec_and_restart() {
    let unit = main_unit(&params(8080));
    assert!(unit.contains("ExecStart=/usr/local/bin/pike serve --config /etc/pike/pike.toml"));
    assert!(unit.contains("Restart=always"));
    assert!(unit.contains("User=pike"));
    assert!(unit.contains("WantedBy=multi-user.target"));
}

#[test]
fn main_unit_is_hardened() {
    let unit = main_unit(&params(8080));
    for directive in [
        "NoNewPrivileges=true",
        "ProtectSystem=strict",
        "ProtectHome=true",
        "PrivateTmp=true",
        "RestrictAddressFamilies=AF_INET AF_INET6",
        "SystemCallFilter=@system-service",
        "LockPersonality=true",
    ] {
        assert!(unit.contains(directive), "missing {directive}");
    }
}

#[test]
fn cache_dir_is_the_only_writable_path() {
    let unit = main_unit(&params(8080));
    assert!(unit.contains("ReadWritePaths=/var/cache/pike"));
    // Сервіс не має права переписувати власний бінар
    assert!(!unit.contains("ReadWritePaths=/usr/local/bin"));
}

#[test]
fn privileged_port_gets_capability() {
    let unit = main_unit(&params(80));
    assert!(unit.contains("AmbientCapabilities=CAP_NET_BIND_SERVICE"));
    assert!(unit.contains("CapabilityBoundingSet=CAP_NET_BIND_SERVICE"));
}

#[test]
fn unprivileged_port_gets_no_capability() {
    let unit = main_unit(&params(8080));
    assert!(!unit.contains("CAP_NET_BIND_SERVICE"));
}

#[test]
fn update_unit_runs_as_root_and_restarts_service() {
    let unit = update_unit("/usr/local/bin/pike");
    assert!(unit.contains("Type=oneshot"));
    assert!(unit.contains("User=root"));
    assert!(unit.contains("ExecStart=/usr/local/bin/pike update --apply"));
    assert!(unit.contains("ExecStartPost=/bin/systemctl try-restart pike.service"));
}

#[test]
fn timer_is_weekly_with_jitter() {
    let timer = update_timer();
    assert!(timer.contains("OnCalendar=Sun 04:00"));
    assert!(timer.contains("RandomizedDelaySec=1h"));
    assert!(timer.contains("WantedBy=timers.target"));
}

// --- preflight ---

#[test]
fn reads_the_effective_uid_not_the_real_one() {
    let status = "Name:\tpike\nUid:\t1000\t0\t0\t1000\nGid:\t1000\t1000\t1000\t1000\n";
    assert_eq!(parse_effective_uid(status).as_deref(), Some("0"));
}

#[test]
fn missing_uid_line_is_none() {
    assert_eq!(parse_effective_uid("Name:\tpike\n"), None);
}

#[test]
fn short_uid_line_is_none_and_crlf_is_tolerated() {
    assert_eq!(parse_effective_uid("Uid:\t1000\n"), None);
    assert_eq!(parse_effective_uid("Uid:\t1000\t33\t0\t0\r\n").as_deref(), Some("33"));
    assert_eq!(parse_effective_uid("Name: x\nUid: 5 6 7 8").as_deref(), Some("6"));
}

// --- wizard ---

#[test]
fn cache_dir_must_be_absolute_and_space_free() {
    assert!(validate_cache_dir("/var/cache/pike").is_ok());
    assert!(validate_cache_dir("var/cache/pike").is_err());
    assert!(validate_cache_dir("/var/cache/my pike").is_err());
}

#[test]
fn cache_dir_errors_say_why() {
    assert_eq!(validate_cache_dir("rel").unwrap_err(), "must be an absolute path");
    assert_eq!(validate_cache_dir("/a b").unwrap_err(), "must not contain whitespace");
    assert_eq!(validate_cache_dir("/a ").unwrap(), "/a ");
}

#[test]
fn wizard_rejects_tokens_the_config_would_refuse() {
    assert!(validate_token("lab/token").is_err());
    assert!(validate_token("labtoken01").is_ok());
}

#[test]
fn wildcard_and_loopback_are_not_offered_as_advertised_addresses() {
    assert!(is_unroutable_advertised("0.0.0.0"));
    assert!(is_unroutable_advertised("127.0.0.1"));
    assert!(is_unroutable_advertised("127.1.2.3"));
    assert!(!is_unroutable_advertised("10.20.0.5"));
    assert!(!is_unroutable_advertised("192.168.1.7"));
}

#[test]
fn loopback_check_uses_strict_ipv4_syntax() {
    assert!(!is_unroutable_advertised("127.0.0.01"));
    assert!(!is_unroutable_advertised("127.0.0"));
    assert!(!is_unroutable_advertised("127.0.0.256"));
    assert!(!is_unroutable_advertised("localhost"));
}

#[test]
fn port_answers() {
    assert_eq!(parse_port("8080"), Ok(8080));
    assert_eq!(parse_port("+80"), Ok(80));
    assert_eq!(parse_port("65536"), Err("not a valid port".to_string()));
    assert_eq!(parse_port(""), Err("not a valid port".to_string()));
}

#[test]
fn prompt_answers_fall_back_to_the_default() {
    assert_eq!(prompt_answer("  x \n", Some("d")).as_deref(), Some("x"));
    assert_eq!(prompt_answer("  \n", Some("d")).as_deref(), Some("d"));
    assert_eq!(prompt_answer("\n", None), None);
}

#[test]
fn yes_no_answers() {
    assert_eq!(yes_no("\n", false), Some(false));
    assert_eq!(yes_no("YES\n", false), Some(true));
    assert_eq!(yes_no(" n ", true), Some(false));
    assert_eq!(yes_no("maybe", true), None);
}

#[test]
fn advertised_address_answers() {
    let menu = advertisable_addrs(&vec![
        ("10.0.0.5 (eth0)".to_string(), "10.0.0.5".to_string()),
        ("0.0.0.0 (all interfaces)".to_string(), "0.0.0.0".to_string()),
        ("127.0.0.1 (loopback)".to_string(), "127.0.0.1".to_string()),
    ]);
    assert_eq!(menu, vec![("10.0.0.5 (eth0)".to_string(), "10.0.0.5".to_string())]);
    assert!(matches!(advertised_answer("", &menu), AddrAnswer::Skip));
    match advertised_answer("0", &menu) {
        AddrAnswer::Use(a) => assert_eq!(a, "10.0.0.5"),
        _ => panic!("expected the first address"),
    }
    match advertised_answer("4", &menu) {
        AddrAnswer::Again(m) => assert_eq!(m, "(no such index; pick 0-0)"),
        _ => panic!("expected a retry"),
    }
    match advertised_answer("4", &vec![]) {
        AddrAnswer::Again(m) => assert_eq!(m, "(nothing to pick from; type an address)"),
        _ => panic!("expected a retry"),
    }
    match advertised_answer("pike.lab.local", &menu) {
        AddrAnswer::Use(a) => assert_eq!(a, "pike.lab.local"),
        _ => panic!("expected the literal"),
    }
}

#[test]
fn base_url_hint_prefers_the_public_url() {
    assert_eq!(
        base_url_hint(Some("https://pike.lab"), "10.0.0.5", 8080, Some("tok")),
        "https://pike.lab/tok"
    );
    assert_eq!(base_url_hint(None, "10.0.0.5", 8080, None), "http://10.0.0.5:8080");
}

#[test]
fn preflight_wants_systemd_and_root() {
    let root = "Name:\tpike\nUid:\t1000\t0\t0\t0\nGid:\t0\t0\t0\t0\n";
    let user = "Name:\tpike\nUid:\t0\t1000\t1000\t1000\n";
    assert_eq!(preflight_error(true, Some(root)), Ok(()));
    assert_eq!(
        preflight_error(false, Some(root)),
        Err("systemd not detected (/run/systemd/system is missing)".to_string())
    );
    let not_root = Err("must be run as root (try: sudo pike service-install)".to_string());
    assert_eq!(preflight_error(true, Some(user)), not_root);
    assert_eq!(preflight_error(true, None), not_root);
    assert_eq!(preflight_error(true, Some("Name:\tpike\n")), not_root);
}
