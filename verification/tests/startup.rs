use pike::config::validate::clouds;
use pike::config::{resolve, validate_token, FileConfig, ServeArgs};
use pike::falcon::{api_base_url, auth_retry_delay, default_expires_in, first_ccid, sensor_filter, TokenState};
use pike::gui_form::{
    can_start, choose_cid, merge_paths, restored_addr_index, start_check, start_settings, StartForm,
};
use pike::version::{is_newer, parse_version};
use pike::net::{available_addrs, parse_ipv4, text_less, Interface};
use pike::startup::{banner_lines, check_sensor_sources, metadata_ttl_ms, pick_token, sensor_line, BannerInfo};
use pike::token::generate_token;

// --- API client ---

#[test]
fn us_1_is_the_bare_endpoint() {
    assert_eq!(api_base_url(Some("us-1")), "https://api.crowdstrike.com");
}

#[test]
fn every_supported_cloud_has_its_own_base_url() {
    let mut seen: Vec<&str> = Vec::new();
    for cloud in clouds() {
        let url = api_base_url(Some(&cloud));
        assert!(url.starts_with("https://"), "{cloud} -> {url}");
        assert!(!seen.contains(&url), "{cloud} shares a base URL with another region");
        seen.push(url);
    }
}

#[test]
fn unknown_or_missing_cloud_is_us_1() {
    assert_eq!(api_base_url(None), "https://api.crowdstrike.com");
    assert_eq!(api_base_url(Some("mars-1")), "https://api.crowdstrike.com");
    assert_eq!(api_base_url(Some("us-gov-1")), "https://api.laggar.gcw.crowdstrike.com");
}

#[test]
fn tokens_are_refreshed_a_minute_early() {
    assert_eq!(default_expires_in(), 1799);
    let t = TokenState::issued("tok".into(), 1_000, 1799);
    assert_eq!(t.expires_at, 1_000 + 1739 * 1000);
    assert_eq!(t.current(2_000).as_deref(), Some("tok"));
    assert_eq!(t.current(1_000 + 1739 * 1000), None);
    let short = TokenState::issued("x".into(), 5, 30);
    assert_eq!(short.expires_at, 5);
}

#[test]
fn ccid_is_the_first_resource() {
    assert_eq!(first_ccid(vec!["A-1".into(), "B".into()]).unwrap(), "A-1");
    assert_eq!(first_ccid(vec![]).unwrap_err().message(), "No CCID returned from API");
}

#[test]
fn installer_filter_and_retry_delays() {
    assert_eq!(sensor_filter("linux"), "platform:'linux'");
    assert_eq!(auth_retry_delay(1), Some(5));
    assert_eq!(auth_retry_delay(2), Some(10));
    assert_eq!(auth_retry_delay(3), None);
}

// --- addresses ---

fn iface(name: &str, ip: &str, v4: bool, lo: bool) -> Interface {
    Interface { name: name.into(), ip: ip.into(), is_ipv4: v4, is_loopback: lo }
}

#[test]
fn offered_addresses_are_sorted_unique_then_fixed() {
    let list = available_addrs(&vec![
        iface("wlan0", "192.168.1.7", true, false),
        iface("lo", "127.0.0.1", true, true),
        iface("eth0", "10.0.0.5", true, false),
        iface("eth1", "10.0.0.5", true, false),
        iface("eth0", "fe80::1", false, false),
    ]);
    let ips: Vec<&str> = list.iter().map(|p| p.1.as_str()).collect();
    assert_eq!(ips, vec!["10.0.0.5", "192.168.1.7", "0.0.0.0", "127.0.0.1"]);
    assert_eq!(list[0].0, "10.0.0.5 (eth0)");
    assert_eq!(list[2].0, "0.0.0.0 (all interfaces)");
    assert_eq!(list[3].0, "127.0.0.1 (loopback)");
}

#[test]
fn text_order_and_ipv4_parsing() {
    assert!(text_less("10.0.0.5", "192.168.1.7"));
    assert!(text_less("10", "10.1"));
    assert!(!text_less("b", "a"));
    assert_eq!(parse_ipv4("10.20.0.5"), Some(vec![10, 20, 0, 5]));
    assert_eq!(parse_ipv4("1.2.3"), None);
    assert_eq!(parse_ipv4("1.2.3.4.5"), None);
    assert_eq!(parse_ipv4("01.2.3.4"), None);
    assert_eq!(parse_ipv4("+1.2.3.4"), None);
}

// --- serve startup ---

fn cfg(args: ServeArgs, file: FileConfig) -> pike::config::ResolvedConfig {
    resolve(&args, file, "/tmp/pike-cache".to_string()).unwrap()
}

#[test]
fn something_to_serve_is_required() {
    let c = cfg(ServeArgs::default(), FileConfig::default());
    assert_eq!(
        check_sensor_sources(&c).unwrap_err(),
        "provide --sensor or API credentials (--client-id/--client-secret)."
    );
    let mut args = ServeArgs::default();
    args.sensors = vec!["/srv/a.deb".into()];
    let c = cfg(args, FileConfig::default());
    assert_eq!(
        check_sensor_sources(&c).unwrap_err(),
        "provide --cid or API credentials to fetch it."
    );
    let mut args = ServeArgs::default();
    args.client_id = Some("id".into());
    args.client_secret = Some("secret".into());
    assert!(check_sensor_sources(&cfg(args, FileConfig::default())).is_ok());
}

#[test]
fn token_is_configured_generated_or_off() {
    let mut file = FileConfig::default();
    file.server.token = Some("pinned".into());
    assert_eq!(pick_token(&cfg(ServeArgs::default(), file)), (Some("pinned".to_string()), false));
    let (t, generated) = pick_token(&cfg(ServeArgs::default(), FileConfig::default()));
    assert!(generated);
    assert!(validate_token(&t.unwrap()).is_ok());
    let mut args = ServeArgs::default();
    args.no_auth = true;
    assert_eq!(pick_token(&cfg(args, FileConfig::default())), (None, false));
}

#[test]
fn generated_tokens_are_valid_and_fresh() {
    let a = generate_token();
    let b = generate_token();
    assert_eq!(a.len(), 32);
    assert!(validate_token(&a).is_ok());
    assert_ne!(a, b);
}

#[test]
fn ttl_and_sensor_lines() {
    assert_eq!(metadata_ttl_ms(60), 3_600_000);
    assert_eq!(sensor_line("a.deb", "ff"), "  a.deb (SHA256: ff)");
}

#[test]
fn banner_shows_the_one_liners() {
    let info = BannerInfo {
        base_url: "http://10.0.0.1:8080/tok".into(),
        addr: "10.0.0.1".into(),
        port: 8080,
        token: Some("tok".into()),
        public_url: None,
        has_api: true,
        tags: Some("deployment/pike".into()),
        cache_dir: "/var/cache/pike".into(),
        timeout_minutes: 0,
        max_downloads: 3,
        sensor_lines: vec![],
    };
    let lines = banner_lines(&info);
    assert_eq!(lines[0], "pike — CrowdStrike sensor deployer");
    assert_eq!(lines[2], "Server:    http://10.0.0.1:8080");
    assert_eq!(lines[3], "Token:     tok");
    assert!(lines.contains(&"API:       connected".to_string()));
    assert!(lines.contains(&"Timeout:   none | Max downloads: 3".to_string()));
    assert!(lines.contains(&"Sensors:   on-demand via API".to_string()));
    assert!(lines.contains(&"  curl -fsS http://10.0.0.1:8080/tok/lin | sudo bash".to_string()));
    assert!(lines.contains(&"  irm http://10.0.0.1:8080/tok/win | iex".to_string()));
    assert_eq!(lines.last().unwrap(), "");
}

// --- desktop form ---

fn form() -> StartForm {
    StartForm {
        client_id: "  id ".into(),
        client_secret: "s".into(),
        cloud_idx: 2,
        cid: " ABC ".into(),
        port: "9090".into(),
        custom_url_enabled: true,
        custom_url: " https://pike.lab// ".into(),
        tags: "env/prod".into(),
        timeout: "x".into(),
        max_downloads: "5".into(),
        no_default_tag: false,
    }
}

#[test]
fn form_fields_become_settings() {
    let s = start_settings(&form());
    assert_eq!(s.port, 9090);
    assert_eq!(s.timeout_minutes, 30);
    assert_eq!(s.max_downloads, 5);
    assert_eq!(s.cloud, "eu-1");
    assert!(s.has_api_creds);
    assert_eq!(s.client_id, "id");
    assert_eq!(s.public_url.as_deref(), Some("https://pike.lab"));
    assert_eq!(s.cid_explicit, "ABC");
    assert_eq!(s.tags.as_deref(), Some("deployment/pike,env/prod"));
    let mut f = form();
    f.port = "99999".into();
    f.client_secret = "  ".into();
    f.custom_url_enabled = false;
    let s = start_settings(&f);
    assert_eq!(s.port, 8080);
    assert!(!s.has_api_creds);
    assert_eq!(s.public_url, None);
}

#[test]
fn cid_choice_and_address_restore() {
    assert_eq!(choose_cid("X", Some("Y".into())).unwrap(), "X");
    assert_eq!(choose_cid("", Some("Y".into())).unwrap(), "Y");
    assert_eq!(
        choose_cid("", None).unwrap_err(),
        "CID is required (provide it or use API credentials)"
    );
    assert_eq!(restored_addr_index(3, 5), 3);
    assert_eq!(restored_addr_index(5, 5), 0);
}

#[test]
fn start_checks_name_the_first_bad_field() {
    let mut f = form();
    f.timeout = "30".into();
    assert_eq!(start_check(&f), Ok(()));
    f.port = "65536".into();
    assert_eq!(start_check(&f), Err("Invalid port number".to_string()));
    f.port = "8080".into();
    f.timeout = "x".into();
    assert_eq!(start_check(&f), Err("Invalid timeout".to_string()));
    f.timeout = "30".into();
    f.max_downloads = "-1".into();
    assert_eq!(start_check(&f), Err("Invalid max downloads".to_string()));
    f.port = "".into();
    assert_eq!(start_check(&f), Err("Invalid port number".to_string()));
}

#[test]
fn start_needs_credentials_or_files_and_cid() {
    let mut f = form();
    assert!(can_start(&f, 0));
    f.client_secret = "  ".into();
    assert!(!can_start(&f, 0));
    assert!(can_start(&f, 1));
    f.cid = " ".into();
    assert!(!can_start(&f, 3));
}

#[test]
fn picked_files_merge_without_duplicates() {
    let mut paths = vec!["/a.deb".to_string(), "/b.rpm".to_string()];
    merge_paths(
        &mut paths,
        vec!["/b.rpm".to_string(), "/c.exe".to_string(), "/c.exe".to_string(), "/a.deb".to_string()],
    );
    assert_eq!(paths, vec!["/a.deb".to_string(), "/b.rpm".to_string(), "/c.exe".to_string()]);
    merge_paths(&mut paths, Vec::new());
    assert_eq!(paths.len(), 3);
}

#[test]
fn release_versions_compare_by_number() {
    assert_eq!(parse_version("v1.4.2-rc1"), vec![1, 4, 2]);
    assert_eq!(parse_version("2.0.0+build.7"), vec![2, 0, 0]);
    assert_eq!(parse_version("1.x.3"), vec![1]);
    assert_eq!(parse_version("nightly"), Vec::<u64>::new());
    assert!(is_newer("v1.10.0", "1.9.3"));
    assert!(!is_newer("1.9.3", "1.10.0"));
    assert!(!is_newer("1.2.0", "1.2.0"));
    assert!(!is_newer("1.2.0-rc1", "1.2.0"));
    assert!(is_newer("1.2.0.1", "1.2.0"));
    assert!(!is_newer("1.2", "1.2.0"));
}
