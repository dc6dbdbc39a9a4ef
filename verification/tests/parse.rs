use pike::sensors::SensorType;
use pike::server::parse::{
    is_valid_arch, is_valid_distro_field, is_valid_hostname, is_valid_sha256, parse_callback,
};

#[test]
fn parse_hostname_valid() {
    assert!(is_valid_hostname("web-server.example.com"));
    assert!(is_valid_hostname("host_01"));
    assert!(is_valid_hostname("a"));
}

#[test]
fn parse_hostname_empty() {
    assert!(!is_valid_hostname(""));
}

#[test]
fn parse_hostname_too_long() {
    let long = "a".repeat(254);
    assert!(!is_valid_hostname(&long));
}

#[test]
fn parse_hostname_253_ok() {
    let exact = "a".repeat(253);
    assert!(is_valid_hostname(&exact));
}

#[test]
fn parse_hostname_special_chars() {
    assert!(!is_valid_hostname("host;rm -rf /"));
    assert!(!is_valid_hostname("host name"));
    assert!(!is_valid_hostname("host\nname"));
}

#[test]
fn parse_hostname_unicode() {
    assert!(!is_valid_hostname("höst"));
}

#[test]
fn parse_arch_valid_all() {
    for arch in &[
        "x86_64", "amd64", "AMD64", "aarch64", "arm64", "s390x", "ppc64le",
    ] {
        assert!(is_valid_arch(arch), "{arch} should be valid");
    }
}

#[test]
fn parse_arch_invalid() {
    assert!(!is_valid_arch("i386"));
    assert!(!is_valid_arch("i686"));
    assert!(!is_valid_arch(""));
    assert!(!is_valid_arch("x86"));
}

#[test]
fn parse_distro_field_valid() {
    assert!(is_valid_distro_field("ubuntu"));
    assert!(is_valid_distro_field("22.04"));
    assert!(is_valid_distro_field("opensuse-leap"));
    assert!(is_valid_distro_field("")); // empty is valid (optional field)
}

#[test]
fn parse_distro_field_too_long() {
    let long = "a".repeat(65);
    assert!(!is_valid_distro_field(&long));
}

#[test]
fn parse_distro_field_special_chars() {
    assert!(!is_valid_distro_field("ubuntu; rm -rf /"));
    assert!(!is_valid_distro_field("distro\nid"));
}

#[test]
fn parse_parse_callback_valid_5_fields() {
    let result = parse_callback("myhost|deb|x86_64|ubuntu|22.04").unwrap();
    assert_eq!(result.hostname, "myhost");
    assert_eq!(result.pkg_type, "deb");
    assert_eq!(result.arch, "x86_64");
    assert_eq!(result.distro_id, "ubuntu");
    assert_eq!(result.distro_version, "22.04");
    assert_eq!(result.target_type, SensorType::Deb);
}

#[test]
fn parse_parse_callback_valid_3_fields() {
    let result = parse_callback("winhost|exe|AMD64").unwrap();
    assert_eq!(result.hostname, "winhost");
    assert_eq!(result.pkg_type, "exe");
    assert_eq!(result.arch, "AMD64");
    assert_eq!(result.distro_id, "");
    assert_eq!(result.distro_version, "");
    assert_eq!(result.target_type, SensorType::WindowsExe);
}

#[test]
fn parse_parse_callback_rpm() {
    let result = parse_callback("rhelbox|rpm|aarch64|rhel|9.2").unwrap();
    assert_eq!(result.target_type, SensorType::Rpm);
}

#[test]
fn parse_parse_callback_too_few_fields() {
    assert!(parse_callback("host|deb").is_err());
    assert!(parse_callback("host").is_err());
    assert!(parse_callback("").is_err());
}

#[test]
fn parse_parse_callback_bad_hostname() {
    assert!(parse_callback("|deb|x86_64").is_err());
    assert!(parse_callback("host;evil|deb|x86_64").is_err());
}

#[test]
fn parse_parse_callback_bad_arch() {
    assert!(parse_callback("host|deb|i386").is_err());
}

#[test]
fn parse_parse_callback_bad_pkg_type() {
    assert!(parse_callback("host|msi|x86_64").is_err());
}

#[test]
fn parse_parse_callback_trims_whitespace() {
    let result = parse_callback("  myhost|deb|x86_64|ubuntu|22.04\n").unwrap();
    assert_eq!(result.hostname, "myhost");
}

#[test]
fn handlers_hostname_valid() {
    assert!(is_valid_hostname("web-server.example.com"));
    assert!(is_valid_hostname("host_01"));
    assert!(is_valid_hostname("a"));
}

#[test]
fn handlers_hostname_empty() {
    assert!(!is_valid_hostname(""));
}

#[test]
fn handlers_hostname_too_long() {
    let long = "a".repeat(254);
    assert!(!is_valid_hostname(&long));
}

#[test]
fn handlers_hostname_253_ok() {
    let exact = "a".repeat(253);
    assert!(is_valid_hostname(&exact));
}

#[test]
fn handlers_hostname_special_chars() {
    assert!(!is_valid_hostname("host;rm -rf /"));
    assert!(!is_valid_hostname("host name"));
    assert!(!is_valid_hostname("host\nname"));
}

#[test]
fn handlers_hostname_unicode() {
    assert!(!is_valid_hostname("höst"));
}

#[test]
fn handlers_arch_valid_all() {
    for arch in &["x86_64", "amd64", "AMD64", "aarch64", "arm64", "s390x", "ppc64le"] {
        assert!(is_valid_arch(arch), "{arch} should be valid");
    }
}

#[test]
fn handlers_arch_invalid() {
    assert!(!is_valid_arch("i386"));
    assert!(!is_valid_arch("i686"));
    assert!(!is_valid_arch(""));
    assert!(!is_valid_arch("x86"));
}

#[test]
fn handlers_distro_field_valid() {
    assert!(is_valid_distro_field("ubuntu"));
    assert!(is_valid_distro_field("22.04"));
    assert!(is_valid_distro_field("opensuse-leap"));
    assert!(is_valid_distro_field("")); // empty is valid (optional field)
}

#[test]
fn handlers_distro_field_too_long() {
    let long = "a".repeat(65);
    assert!(!is_valid_distro_field(&long));
}

#[test]
fn handlers_distro_field_special_chars() {
    assert!(!is_valid_distro_field("ubuntu; rm -rf /"));
    assert!(!is_valid_distro_field("distro\nid"));
}

#[test]
fn handlers_parse_callback_valid_5_fields() {
    let result = parse_callback("myhost|deb|x86_64|ubuntu|22.04").unwrap();
    assert_eq!(result.hostname, "myhost");
    assert_eq!(result.pkg_type, "deb");
    assert_eq!(result.arch, "x86_64");
    assert_eq!(result.distro_id, "ubuntu");
    assert_eq!(result.distro_version, "22.04");
    assert_eq!(result.target_type, SensorType::Deb);
}

#[test]
fn handlers_parse_callback_valid_3_fields() {
    let result = parse_callback("winhost|exe|AMD64").unwrap();
    assert_eq!(result.hostname, "winhost");
    assert_eq!(result.pkg_type, "exe");
    assert_eq!(result.arch, "AMD64");
    assert_eq!(result.distro_id, "");
    assert_eq!(result.distro_version, "");
    assert_eq!(result.target_type, SensorType::WindowsExe);
}

#[test]
fn handlers_parse_callback_rpm() {
    let result = parse_callback("rhelbox|rpm|aarch64|rhel|9.2").unwrap();
    assert_eq!(result.target_type, SensorType::Rpm);
}

#[test]
fn handlers_parse_callback_too_few_fields() {
    assert!(parse_callback("host|deb").is_err());
    assert!(parse_callback("host").is_err());
    assert!(parse_callback("").is_err());
}

#[test]
fn handlers_parse_callback_bad_hostname() {
    assert!(parse_callback("|deb|x86_64").is_err());
    assert!(parse_callback("host;evil|deb|x86_64").is_err());
}

#[test]
fn handlers_parse_callback_bad_arch() {
    assert!(parse_callback("host|deb|i386").is_err());
}

#[test]
fn handlers_parse_callback_bad_pkg_type() {
    assert!(parse_callback("host|msi|x86_64").is_err());
}

#[test]
fn handlers_parse_callback_trims_whitespace() {
    let result = parse_callback("  myhost|deb|x86_64|ubuntu|22.04\n").unwrap();
    assert_eq!(result.hostname, "myhost");
}

#[test]
fn handlers_sha256_path_valid() {
    assert!(is_valid_sha256(&"a".repeat(64)));
    assert!(is_valid_sha256("0123456789abcdef".repeat(4).as_str()));
}

#[test]
fn handlers_sha256_path_rejects_wrong_length() {
    assert!(!is_valid_sha256(&"a".repeat(63)));
    assert!(!is_valid_sha256(&"a".repeat(65)));
    assert!(!is_valid_sha256(""));
}

#[test]
fn handlers_sha256_path_rejects_traversal_and_non_hex() {
    assert!(!is_valid_sha256("../../etc/passwd"));
    assert!(
        !is_valid_sha256(&"A".repeat(64)),
        "верхній регістр не приймаємо"
    );
    assert!(!is_valid_sha256(&"g".repeat(64)));
}

#[test]
fn download_sha256_path_valid() {
    assert!(is_valid_sha256(&"a".repeat(64)));
    assert!(is_valid_sha256("0123456789abcdef".repeat(4).as_str()));
}

#[test]
fn download_sha256_path_rejects_wrong_length() {
    assert!(!is_valid_sha256(&"a".repeat(63)));
    assert!(!is_valid_sha256(&"a".repeat(65)));
    assert!(!is_valid_sha256(""));
}

#[test]
fn download_sha256_path_rejects_traversal_and_non_hex() {
    assert!(!is_valid_sha256("../../etc/passwd"));
    assert!(
        !is_valid_sha256(&"A".repeat(64)),
        "uppercase is not accepted"
    );
    assert!(!is_valid_sha256(&"g".repeat(64)));
}

#[test]
fn parse_callback_errors_say_what_is_wrong() {
    assert!(parse_callback("host|deb").is_err());
    let ok = parse_callback("h|rpm|s390x|sles|15.5").unwrap();
    assert_eq!(ok.distro_id, "sles");
    assert_eq!(ok.distro_version, "15.5");
    assert!(parse_callback("h|deb|x86_64|bad id|1").is_err());
}
