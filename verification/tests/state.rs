use pike::sensors::{Sensor, SensorMeta, SensorType};
use pike::server::handlers::{
    request_log_line, route_prefix, sanitize_message, CallbackStep, ListStep, Platform, SensorSource, MAX_MESSAGE_LEN,
};
use pike::server::state::MAX_HOSTS;
use pike::server::{AppState, HostEntry, HostStatus};
use pike::AppError;

fn state(token: Option<&str>, public_url: Option<&str>) -> AppState {
    AppState {
        token: token.map(|s| s.to_string()),
        cid: String::new(),
        cloud: None,
        addr: "10.0.0.1".into(),
        port: 8080,
        public_url: public_url.map(|s| s.to_string()),
        local_sensors: vec![],
        has_api: false,
        download_count: 0,
        max_downloads: 0,
        hosts: vec![],
        tags: None,
    }
}

fn test_host(hostname: &str) -> HostEntry {
    HostEntry {
        hostname: hostname.to_string(),
        platform: "deb".into(),
        arch: "x86_64".into(),
        ip: "10.0.0.1".into(),
        status: HostStatus::Registered,
        time: 0,
    }
}

// --- push_host ---

#[test]
fn push_host_single() {
    let mut state = state(None, None);
    state.push_host(test_host("host1"));
    assert_eq!(state.hosts.len(), 1);
    assert_eq!(state.hosts[0].hostname, "host1");
}

#[test]
fn push_host_eviction_at_max() {
    let mut state = state(None, None);
    for i in 0..MAX_HOSTS {
        state.push_host(test_host(&format!("host{i}")));
    }
    assert_eq!(state.hosts.len(), MAX_HOSTS);
    // One more triggers eviction of 25%
    state.push_host(test_host("overflow"));
    let evicted = MAX_HOSTS / 4;
    assert_eq!(state.hosts.len(), MAX_HOSTS - evicted + 1);
    assert!(state.hosts.iter().all(|h| h.hostname != "host0"));
    assert!(state.hosts.iter().any(|h| h.hostname == "overflow"));
    assert_eq!(state.hosts[0].hostname, format!("host{evicted}"));
}

// --- update_host_status ---

#[test]
fn update_host_status_found() {
    let mut state = state(None, None);
    state.push_host(test_host("myhost"));
    state.update_host_status("myhost", HostStatus::Installed, 5);
    assert!(matches!(state.hosts[0].status, HostStatus::Installed));
    assert_eq!(state.hosts[0].time, 5);
}

#[test]
fn update_host_status_updates_latest() {
    let mut state = state(None, None);
    state.push_host(test_host("myhost"));
    state.push_host(test_host("myhost"));
    state.update_host_status("myhost", HostStatus::SensorReady, 1);
    assert!(matches!(state.hosts[0].status, HostStatus::Registered));
    assert!(matches!(state.hosts[1].status, HostStatus::SensorReady));
}

#[test]
fn update_host_status_missing_noop() {
    let mut state = state(None, None);
    state.push_host(test_host("host1"));
    state.update_host_status("nonexistent", HostStatus::Installed, 1);
    assert!(matches!(state.hosts[0].status, HostStatus::Registered));
    assert_eq!(state.hosts[0].time, 0);
}

// --- HostStatus ---

#[test]
fn status_icons() {
    assert_eq!(HostStatus::Registered.icon(), "○");
    assert_eq!(HostStatus::SensorReady.icon(), "◐");
    assert_eq!(HostStatus::Installed.icon(), "●");
    assert_eq!(HostStatus::Failed("err".into()).icon(), "✕");
}

#[test]
fn status_texts() {
    assert_eq!(HostStatus::Registered.text(), "Registered");
    assert_eq!(HostStatus::SensorReady.text(), "Ready");
    assert_eq!(HostStatus::Installed.text(), "Installed");
    assert_eq!(HostStatus::Failed("err".into()).text(), "Failed");
}

// --- base_url ---

#[test]
fn base_url_no_token_no_public() {
    assert_eq!(state(None, None).base_url(), "http://10.0.0.1:8080");
}

#[test]
fn base_url_with_token() {
    assert_eq!(
        state(Some("abc123"), None).base_url(),
        "http://10.0.0.1:8080/abc123"
    );
}

#[test]
fn base_url_with_public_url() {
    assert_eq!(
        state(None, Some("https://deploy.example.com")).base_url(),
        "https://deploy.example.com"
    );
}

#[test]
fn base_url_public_url_with_token() {
    assert_eq!(
        state(Some("tok"), Some("https://deploy.example.com/")).base_url(),
        "https://deploy.example.com/tok"
    );
}

#[test]
fn base_url_with_host_no_token() {
    assert_eq!(
        state(None, None).base_url_with_host("myhost:9090"),
        "http://myhost:9090"
    );
}

#[test]
fn base_url_with_host_and_token() {
    assert_eq!(
        state(Some("t0k"), None).base_url_with_host("myhost:9090"),
        "http://myhost:9090/t0k"
    );
}

// --- /done ---

fn state_with_host(hostname: &str) -> AppState {
    let mut st = state(None, None);
    st.push_host(HostEntry {
        hostname: hostname.into(),
        platform: "deb".into(),
        arch: "x86_64".into(),
        ip: "10.0.0.5".into(),
        status: HostStatus::SensorReady,
        time: 0,
    });
    st
}

fn failed_message(st: &AppState) -> String {
    match &st.hosts[0].status {
        HostStatus::Failed(msg) => msg.clone(),
        _ => panic!("expected Failed"),
    }
}

#[test]
fn ok_marks_the_host_installed() {
    let mut st = state_with_host("host1");
    let resp = st.serve_done("host1|ok", 1);
    assert_eq!(resp.status, 200);
    assert!(matches!(st.hosts[0].status, HostStatus::Installed));
}

#[test]
fn error_keeps_the_reported_message() {
    let mut st = state_with_host("host1");
    st.serve_done("host1|error|dpkg exited 1", 1);
    assert_eq!(failed_message(&st), "dpkg exited 1");
}

#[test]
fn too_few_fields_is_a_bad_request() {
    let mut st = state_with_host("host1");
    let resp = st.serve_done("host1", 1);
    assert_eq!(resp.status, 400);
}

#[test]
fn hostname_with_a_newline_is_rejected() {
    let mut st = state_with_host("host1");
    let resp = st.serve_done("host1\n[host] fake|ok", 1);
    assert_eq!(resp.status, 400);
    assert!(matches!(st.hosts[0].status, HostStatus::SensorReady));
}

#[test]
fn control_characters_are_stripped_from_the_message() {
    let mut st = state_with_host("host1");
    st.serve_done("host1|error|dpkg failed\n[host] host1 installed successfully", 1);
    let msg = failed_message(&st);
    assert!(!msg.contains('\n'), "the newline should be gone: {msg:?}");
}

#[test]
fn overlong_message_is_truncated() {
    let mut st = state_with_host("host1");
    let long = "x".repeat(1000);
    st.serve_done(&format!("host1|error|{long}"), 1);
    assert_eq!(failed_message(&st).chars().count(), MAX_MESSAGE_LEN);
}

#[test]
fn blank_message_falls_back_to_a_placeholder() {
    let mut st = state_with_host("host1");
    st.serve_done("host1|error|   ", 1);
    assert_eq!(failed_message(&st), "unknown error");
}

#[test]
fn sanitize_message_examples() {
    assert_eq!(sanitize_message("  a\u{7}b  "), "ab");
    assert_eq!(sanitize_message("\n\t"), "unknown error");
}

// --- /cb ---

fn local(filename: &str, sha: &str, t: SensorType) -> Sensor {
    Sensor { filename: filename.into(), sha256: sha.into(), sensor_type: t }
}

fn meta(name: &str, sha: &str) -> SensorMeta {
    SensorMeta {
        name: name.into(),
        sha256: sha.into(),
        platform: "linux".into(),
        os: "Ubuntu".into(),
        file_type: "deb".into(),
        file_size: 10,
        version: "7.0".into(),
        architectures: vec![],
    }
}

#[test]
fn malformed_body_is_rejected() {
    let mut st = state(None, None);
    match st.callback_begin("not a callback", "10.0.0.9", 1) {
        CallbackStep::Answer(r) => assert_eq!(r.status, 400),
        CallbackStep::NeedList(_) => panic!("expected an answer"),
    }
    assert!(st.hosts.is_empty());
}

#[test]
fn local_sensor_is_announced_and_host_registered() {
    let mut st = state(None, None);
    st.local_sensors = vec![local("falcon_amd64.deb", "abc", SensorType::Deb)];
    match st.callback_begin("web1|deb|x86_64|ubuntu|22.04", "10.0.0.9", 7) {
        CallbackStep::Answer(r) => {
            assert_eq!(r.status, 200);
            assert_eq!(r.body, "falcon_amd64.deb|abc");
        }
        CallbackStep::NeedList(_) => panic!("expected an answer"),
    }
    assert_eq!(st.hosts.len(), 1);
    assert_eq!(st.hosts[0].ip, "10.0.0.9");
    assert!(matches!(st.hosts[0].status, HostStatus::SensorReady));
}

#[test]
fn without_api_and_local_sensors_answers_404() {
    let mut st = state(None, None);
    match st.callback_begin("web1|deb|x86_64|ubuntu|22.04", "10.0.0.9", 1) {
        CallbackStep::Answer(r) => {
            assert_eq!(r.status, 404);
            assert_eq!(r.body, "no matching sensor available");
        }
        CallbackStep::NeedList(_) => panic!("expected an answer"),
    }
    assert!(matches!(st.hosts[0].status, HostStatus::Failed(_)));
}

#[test]
fn unavailable_sensor_list_answers_503() {
    let mut st = state(None, None);
    st.has_api = true;
    let info = match st.callback_begin("web1|deb|x86_64|ubuntu|22.04", "10.0.0.9", 1) {
        CallbackStep::NeedList(i) => i,
        CallbackStep::Answer(_) => panic!("expected the list to be needed"),
    };
    let step = st.callback_with_list(&info, Err(AppError::Other("api down".into())), 2);
    match step {
        ListStep::Answer(r) => assert_eq!(r.status, 503),
        _ => panic!("expected an answer"),
    }
    assert_eq!(failed_message(&st), "sensor list unavailable");
}

#[test]
fn no_matching_arch_answers_404() {
    let mut st = state(None, None);
    st.has_api = true;
    let info = match st.callback_begin("web1|deb|aarch64|ubuntu|22.04", "10.0.0.9", 1) {
        CallbackStep::NeedList(i) => i,
        CallbackStep::Answer(_) => panic!("expected the list to be needed"),
    };
    let step = st.callback_with_list(&info, Ok(vec![meta("falcon_amd64.deb", "aa")]), 2);
    match step {
        ListStep::Answer(r) => assert_eq!(r.status, 404),
        _ => panic!("expected an answer"),
    }
}

#[test]
fn api_sensor_is_downloaded_and_announced_by_sha256() {
    let mut st = state(None, None);
    st.has_api = true;
    let info = match st.callback_begin("web1|deb|x86_64|ubuntu|22.04", "10.0.0.9", 1) {
        CallbackStep::NeedList(i) => i,
        CallbackStep::Answer(_) => panic!("expected the list to be needed"),
    };
    let upper = "AB".repeat(32);
    let step = st.callback_with_list(&info, Ok(vec![meta("falcon_amd64.deb", &upper)]), 2);
    let (name, sha) = match step {
        ListStep::NeedBinary { name, sha256, file_size } => {
            assert_eq!(file_size, 10);
            (name, sha256)
        }
        _ => panic!("expected a download"),
    };
    assert_eq!(sha, "ab".repeat(32));
    let r = st.callback_with_binary(&info, &name, &sha, Ok(()), 3);
    assert_eq!(r.status, 200);
    assert_eq!(r.body, format!("falcon_amd64.deb|{}", "ab".repeat(32)));
    assert!(matches!(st.hosts[0].status, HostStatus::SensorReady));

    let r = st.callback_with_binary(&info, &name, &sha, Err(AppError::Other("x".into())), 4);
    assert_eq!(r.status, 502);
}

// --- /lin, /win, /s/ ---

#[test]
fn scripts_need_a_cid() {
    let st = state(None, None);
    assert_eq!(st.serve_script(Platform::Linux).status, 404);
    let mut st = state(Some("tok"), None);
    st.cid = "ABCDEF".into();
    let r = st.serve_script(Platform::Linux);
    assert_eq!(r.status, 200);
    assert!(r.body.contains("http://10.0.0.1:8080/tok"));
    assert!(r.body.contains("ABCDEF"));
    let r = st.serve_script(Platform::Windows);
    assert_eq!(r.status, 200);
    assert!(r.body.contains("ABCDEF"));
    assert_eq!(Platform::Windows.label(), "windows");
}

#[test]
fn malformed_sha256_is_rejected_before_any_lookup() {
    let st = state(None, None);
    assert!(matches!(st.sensor_source("../../etc/passwd"), SensorSource::BadRequest));
}

#[test]
fn unknown_sha256_does_not_consume_the_download_budget() {
    let mut st = state(None, None);
    st.max_downloads = 3;
    assert!(matches!(st.sensor_source(&"b".repeat(64)), SensorSource::NotFound));
    assert_eq!(st.download_count, 0);
}

#[test]
fn local_files_win_and_the_cache_is_only_looked_at() {
    let mut st = state(None, None);
    st.local_sensors = vec![local("a.deb", &"c".repeat(64), SensorType::Deb)];
    assert!(matches!(st.sensor_source(&"c".repeat(64)), SensorSource::Local(0)));
    st.has_api = true;
    match st.sensor_source(&"d".repeat(64)) {
        SensorSource::Cached(name) => assert_eq!(name, "d".repeat(64)),
        _ => panic!("expected the cache"),
    }
}

#[test]
fn download_counter_reaches_the_limit() {
    let mut st = state(None, None);
    st.max_downloads = 2;
    let (n, note) = st.count_download();
    assert_eq!((n, note.as_str()), (1, "download 1/2"));
    assert!(!st.limit_reached(n));
    let (n, note) = st.count_download();
    assert_eq!((n, note.as_str()), (2, "download 2/2"));
    assert!(st.limit_reached(n));
    let mut st = state(None, None);
    let (n, note) = st.count_download();
    assert_eq!((n, note.as_str()), (1, "download 1"));
    assert!(!st.limit_reached(n));
}

#[test]
fn request_log_lines_and_route_prefix() {
    assert_eq!(
        request_log_line("12:00:01", "GET", "/lin", "10.0.0.9", 200, ""),
        "[12:00:01] GET /lin from 10.0.0.9 — 200"
    );
    assert_eq!(
        request_log_line("12:00:01", "GET", "/s/x", "10.0.0.9", 404, "sensor not in cache"),
        "[12:00:01] GET /s/x from 10.0.0.9 — 404 (sensor not in cache)"
    );
    assert_eq!(route_prefix(Some("tok")), "/tok");
    assert_eq!(route_prefix(None), "");
}
