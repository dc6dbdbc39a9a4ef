use pike::config::defaults::default_cache_dir;
use pike::config::{resolve, validate_cloud, validate_token, FileConfig, ResolvedConfig, ServeArgs};
use pike::AppError;

fn empty_args() -> ServeArgs {
    ServeArgs::default()
}

fn file_with_port(port: u16) -> FileConfig {
    let mut f = FileConfig::default();
    f.server.port = Some(port);
    f
}

fn cache_dir() -> String {
    default_cache_dir(None, Some("/home/op".to_string()), "/tmp".to_string())
}

fn run(args: &ServeArgs, file: FileConfig) -> Result<ResolvedConfig, AppError> {
    resolve(args, file, cache_dir())
}

// --- defaults ---

fn check_defaults() {
    let cfg = run(&empty_args(), FileConfig::default()).unwrap();
    assert_eq!(cfg.bind, "0.0.0.0");
    assert_eq!(cfg.port, 8080);
    assert_eq!(cfg.timeout_minutes, 0);
    assert_eq!(cfg.max_downloads, 0);
    assert_eq!(cfg.metadata_ttl_minutes, 60);
    assert_eq!(cfg.cache_max_bytes, 21_474_836_480);
    assert!(cfg.default_tag);
    assert!(cfg.auth_enabled);
    assert!(cfg.token.is_none());
    assert_eq!(cfg.cloud.as_deref(), Some("eu-1"));
}

#[test]
fn resolve_defaults_when_nothing_set() {
    check_defaults();
}

#[test]
fn config_defaults_when_nothing_set() {
    check_defaults();
}

#[test]
fn cloud_from_file_beats_default() {
    let mut file = FileConfig::default();
    file.falcon.cloud = Some("us-2".into());
    let cfg = run(&empty_args(), file).unwrap();
    assert_eq!(cfg.cloud.as_deref(), Some("us-2"));
}

#[test]
fn cloud_arg_beats_file() {
    let mut args = empty_args();
    args.cloud = Some("us-gov-1".into());
    let mut file = FileConfig::default();
    file.falcon.cloud = Some("us-2".into());
    let cfg = run(&args, file).unwrap();
    assert_eq!(cfg.cloud.as_deref(), Some("us-gov-1"));
}

// --- precedence ---

fn check_file_value_used_when_no_arg() {
    let cfg = run(&empty_args(), file_with_port(9090)).unwrap();
    assert_eq!(cfg.port, 9090);
}

#[test]
fn resolve_file_value_used_when_no_arg() {
    check_file_value_used_when_no_arg();
}

#[test]
fn config_file_value_used_when_no_arg() {
    check_file_value_used_when_no_arg();
}

fn check_arg_overrides_file() {
    let mut args = empty_args();
    args.port = Some(7070);
    let cfg = run(&args, file_with_port(9090)).unwrap();
    assert_eq!(cfg.port, 7070);
}

#[test]
fn resolve_arg_overrides_file() {
    check_arg_overrides_file();
}

#[test]
fn config_arg_overrides_file() {
    check_arg_overrides_file();
}

// --- token ---

fn check_token_from_file_is_kept() {
    let mut file = FileConfig::default();
    file.server.token = Some("abc123DEF".into());
    let cfg = run(&empty_args(), file).unwrap();
    assert_eq!(cfg.token.as_deref(), Some("abc123DEF"));
}

#[test]
fn resolve_token_from_file_is_kept() {
    check_token_from_file_is_kept();
}

#[test]
fn config_token_from_file_is_kept() {
    check_token_from_file_is_kept();
}

fn check_token_with_url_unsafe_chars_rejected() {
    let mut file = FileConfig::default();
    file.server.token = Some("bad/token".into());
    assert!(run(&empty_args(), file).is_err());
}

#[test]
fn resolve_token_with_url_unsafe_chars_rejected() {
    check_token_with_url_unsafe_chars_rejected();
}

#[test]
fn config_token_with_url_unsafe_chars_rejected() {
    check_token_with_url_unsafe_chars_rejected();
}

fn check_no_auth_clears_token() {
    let mut args = empty_args();
    args.no_auth = true;
    let mut file = FileConfig::default();
    file.server.token = Some("abc123".into());
    let cfg = run(&args, file).unwrap();
    assert!(!cfg.auth_enabled);
    assert!(cfg.token.is_none());
}

#[test]
fn resolve_no_auth_clears_token() {
    check_no_auth_clears_token();
}

#[test]
fn config_no_auth_clears_token() {
    check_no_auth_clears_token();
}

// --- blank values ---

#[test]
fn blank_flag_value_falls_through_to_the_file() {
    let mut args = empty_args();
    args.cid = Some("   ".into());
    let mut file = FileConfig::default();
    file.falcon.cid = Some("FROM-FILE".into());
    let cfg = run(&args, file).unwrap();
    assert_eq!(cfg.cid.as_deref(), Some("FROM-FILE"));
}

fn check_blank_strings_in_file_are_unset() {
    // public_url = "" and cid = "" in the file
    let mut file = FileConfig::default();
    file.server.public_url = Some("".into());
    file.falcon.cid = Some("".into());
    let cfg = run(&empty_args(), file).unwrap();
    assert!(cfg.public_url.is_none());
    assert!(cfg.cid.is_none());
}

#[test]
fn resolve_blank_strings_in_file_are_unset() {
    check_blank_strings_in_file_are_unset();
}

#[test]
fn config_blank_strings_in_file_are_unset() {
    check_blank_strings_in_file_are_unset();
}

// --- cloud ---

#[test]
fn unknown_cloud_is_an_error() {
    let mut args = empty_args();
    args.cloud = Some("eu1".into());
    assert!(run(&args, FileConfig::default()).is_err());
}

#[test]
fn unknown_cloud_in_the_file_is_an_error() {
    let mut file = FileConfig::default();
    file.falcon.cloud = Some("europe".into());
    assert!(run(&empty_args(), file).is_err());
}

#[test]
fn unknown_cloud_error_names_the_supported_regions() {
    let e = validate_cloud("eu1").unwrap_err();
    assert_eq!(
        e.message(),
        "Invalid cloud 'eu1': use one of us-1, us-2, eu-1, us-gov-1, us-gov-2"
    );
    assert!(validate_cloud("us-gov-2").is_ok());
}

// --- tags ---

fn check_no_default_tag_flag_overrides_file() {
    let mut args = empty_args();
    args.no_default_tag = true;
    let mut file = FileConfig::default();
    file.sensors.default_tag = Some(true);
    let cfg = run(&args, file).unwrap();
    assert!(!cfg.default_tag);
}

#[test]
fn resolve_no_default_tag_flag_overrides_file() {
    check_no_default_tag_flag_overrides_file();
}

#[test]
fn config_no_default_tag_flag_overrides_file() {
    check_no_default_tag_flag_overrides_file();
}

// --- files and cache dir ---

#[test]
fn sensor_flags_win_over_file_list() {
    let mut args = empty_args();
    args.sensors = vec!["/srv/a.deb".to_string()];
    let mut file = FileConfig::default();
    file.sensors.files = Some(vec!["/srv/b.rpm".to_string()]);
    let cfg = run(&args, file).unwrap();
    assert_eq!(cfg.files, vec!["/srv/a.deb".to_string()]);

    let mut file = FileConfig::default();
    file.sensors.files = Some(vec!["/srv/b.rpm".to_string()]);
    let cfg = run(&empty_args(), file).unwrap();
    assert_eq!(cfg.files, vec!["/srv/b.rpm".to_string()]);
}

#[test]
fn cache_dir_defaults_follow_xdg_then_home_then_temp() {
    assert_eq!(
        default_cache_dir(Some("/x".into()), Some("/h".into()), "/tmp".into()),
        "/x/pike"
    );
    assert_eq!(
        default_cache_dir(Some("  ".into()), Some("/h".into()), "/tmp".into()),
        "/h/.cache/pike"
    );
    assert_eq!(default_cache_dir(None, None, "/tmp".into()), "/tmp/pike-cache");
    let cfg = run(&empty_args(), FileConfig::default()).unwrap();
    assert_eq!(cfg.cache_dir, "/home/op/.cache/pike");
}

// --- validate ---

#[test]
fn accepts_url_safe_tokens() {
    assert!(validate_token("labtoken01").is_ok());
    assert!(validate_token("a-b_c").is_ok());
}

#[test]
fn rejects_path_separators_and_empty() {
    assert!(validate_token("bad/token").is_err());
    assert!(validate_token("").is_err());
    assert!(validate_token(&"a".repeat(129)).is_err());
}

#[test]
fn invalid_token_message_names_the_token() {
    let e = validate_token("bad/token").unwrap_err();
    assert_eq!(
        e.message(),
        "Invalid token 'bad/token': use 1-128 chars from [A-Za-z0-9_-]"
    );
    assert!(validate_token(&"a".repeat(128)).is_ok());
}
