use pike::scripts::{
    generate_linux_script, generate_windows_script, resolve_tags, sanitize_cid, sanitize_cloud,
    sanitize_tags,
};

// --- sanitize_cid ---

#[test]
fn sanitize_cid_normal_hex() {
    assert_eq!(sanitize_cid("ABCDEF01234567890abcdef-12"), "ABCDEF01234567890abcdef-12");
}

#[test]
fn sanitize_cid_injection() {
    // Only hex chars and '-' survive; ";" space "/" are stripped
    assert_eq!(sanitize_cid("\"; rm -rf /"), "-f");
}

#[test]
fn sanitize_cid_empty() {
    assert_eq!(sanitize_cid(""), "");
}

#[test]
fn sanitize_cid_mixed() {
    assert_eq!(sanitize_cid("abc123!@#$%^&*()def"), "abc123def");
}

// --- sanitize_cloud ---

#[test]
fn sanitize_cloud_valid() {
    for cloud in &["us-1", "us-2", "eu-1", "us-gov-1", "us-gov-2"] {
        assert_eq!(sanitize_cloud(cloud), Some(*cloud));
    }
}

#[test]
fn sanitize_cloud_invalid() {
    assert_eq!(sanitize_cloud("us-3"), None);
    assert_eq!(sanitize_cloud("ap-1"), None);
    assert_eq!(sanitize_cloud("'; DROP TABLE"), None);
}

#[test]
fn sanitize_cloud_empty() {
    assert_eq!(sanitize_cloud(""), None);
}

// --- resolve_tags ---

#[test]
fn resolve_tags_default_only() {
    assert_eq!(resolve_tags(None, true), Some("deployment/pike".into()));
}

#[test]
fn resolve_tags_default_plus_user() {
    assert_eq!(
        resolve_tags(Some("env/prod,web"), true),
        Some("deployment/pike,env/prod,web".into())
    );
}

#[test]
fn resolve_tags_no_default_with_user() {
    assert_eq!(
        resolve_tags(Some("env/prod"), false),
        Some("env/prod".into())
    );
}

#[test]
fn resolve_tags_no_default_no_user() {
    assert_eq!(resolve_tags(None, false), None);
}

#[test]
fn resolve_tags_default_with_empty_user() {
    assert_eq!(resolve_tags(Some("  "), true), Some("deployment/pike".into()));
}

#[test]
fn resolve_tags_no_default_with_empty_user() {
    assert_eq!(resolve_tags(Some("  "), false), None);
}

// --- sanitize_tags ---

#[test]
fn sanitize_tags_normal() {
    assert_eq!(sanitize_tags("Tag1,Tag2"), Some("Tag1,Tag2".into()));
}

#[test]
fn sanitize_tags_allowed_chars() {
    assert_eq!(
        sanitize_tags("env/prod,role-web,v1.0,team@ops"),
        Some("env/prod,role-web,v1.0,team@ops".into())
    );
}

#[test]
fn sanitize_tags_strips_bad_chars() {
    assert_eq!(sanitize_tags("Tag1;rm -rf /"), Some("Tag1rm-rf/".into()));
}

#[test]
fn sanitize_tags_empty() {
    assert_eq!(sanitize_tags(""), None);
}

#[test]
fn sanitize_tags_all_bad_chars() {
    assert_eq!(sanitize_tags("!#$%^&*()"), None);
}

#[test]
fn sanitize_tags_too_long() {
    let long = "a".repeat(257);
    assert_eq!(sanitize_tags(&long), None);
}

#[test]
fn sanitize_tags_exactly_256() {
    let exact = "a".repeat(256);
    assert_eq!(sanitize_tags(&exact), Some(exact));
}

// --- generate_linux_script ---

#[test]
fn linux_script_contains_cid() {
    let script = generate_linux_script("http://10.0.0.1:8080/tok", "AABBCC", None, None);
    assert!(script.contains("AABBCC"));
}

#[test]
fn linux_script_contains_base_url() {
    let script = generate_linux_script("http://10.0.0.1:8080/tok", "AABB", None, None);
    assert!(script.contains("http://10.0.0.1:8080/tok"));
}

#[test]
fn linux_script_cloud_flag() {
    let script = generate_linux_script("http://host", "AA", Some("us-1"), None);
    assert!(script.contains("--cloud=us-1"));
}

#[test]
fn linux_script_no_cloud_flag() {
    let script = generate_linux_script("http://host", "AA", None, None);
    assert!(!script.contains("--cloud="));
}

#[test]
fn linux_script_with_tags() {
    let script = generate_linux_script("http://host", "AA", None, Some("Tag1,Tag2"));
    assert!(script.contains("--tags='Tag1,Tag2'"));
}

#[test]
fn linux_script_no_tags() {
    let script = generate_linux_script("http://host", "AA", None, None);
    assert!(!script.contains("--tags="));
}

// --- generate_windows_script ---

#[test]
fn windows_script_contains_cid() {
    let script = generate_windows_script("http://host/tok", "DDEEFF", None, None);
    assert!(script.contains("DDEEFF"));
}

#[test]
fn windows_script_contains_base_url() {
    let script = generate_windows_script("http://host/tok", "AA", None, None);
    assert!(script.contains("http://host/tok"));
}

#[test]
fn windows_script_cloud_param() {
    let script = generate_windows_script("http://host", "AA", Some("eu-1"), None);
    assert!(script.contains("CLOUD=eu-1"));
}

#[test]
fn windows_script_no_cloud_param() {
    let script = generate_windows_script("http://host", "AA", None, None);
    assert!(!script.contains("CLOUD="));
}

#[test]
fn windows_script_with_tags() {
    let script = generate_windows_script("http://host", "AA", None, Some("Tag1,Tag2"));
    assert!(script.contains("GROUPING_TAGS=Tag1,Tag2"));
}

#[test]
fn windows_script_no_tags() {
    let script = generate_windows_script("http://host", "AA", None, None);
    assert!(!script.contains("GROUPING_TAGS="));
}

// --- own cases ---

#[test]
fn linux_script_drops_an_unknown_cloud() {
    let script = generate_linux_script("http://host", "AA", Some("us-3"), None);
    assert!(!script.contains("--cloud="));
}

#[test]
fn scripts_carry_only_the_sanitized_cid() {
    let script = generate_linux_script("http://host", "AB;rm -rf /", None, None);
    assert!(script.contains("AB-f"));
    assert!(!script.contains("AB;rm"));
    let script = generate_windows_script("http://host", "AB;rm -rf /", None, None);
    assert!(script.contains("AB-f"));
    assert!(!script.contains("AB;rm"));
}

#[test]
fn windows_script_sanitizes_tags() {
    let script = generate_windows_script("http://host", "AA", None, Some("a;b"));
    assert!(script.contains("GROUPING_TAGS=ab"));
}
