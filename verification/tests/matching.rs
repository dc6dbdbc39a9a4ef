use pike::sensors::matching::{
    check_sensor_filename, deb_filename_matches, distro_tag, find_best_api_sensor,
    find_best_local_sensor, is_rhel_family, rhel_fallback_tags, rpm_filename_matches,
    validate_sensor_filenames,
};
use pike::sensors::{Sensor, SensorMeta, SensorType};

fn test_sensor(filename: &str, sensor_type: SensorType) -> Sensor {
    Sensor {
        filename: filename.to_string(),
        sha256: "abc123".to_string(),
        sensor_type,
    }
}

fn test_meta(name: &str, file_type: &str, os: &str) -> SensorMeta {
    SensorMeta {
        name: name.to_string(),
        sha256: "def456".to_string(),
        platform: "linux".to_string(),
        os: os.to_string(),
        file_type: file_type.to_string(),
        file_size: 1000,
        version: "7.0".to_string(),
        architectures: vec![],
    }
}

// --- distro_tag ---

#[test]
fn distro_tag_rhel9() {
    assert_eq!(distro_tag("rhel", "9.2"), Some("el9".into()));
}

#[test]
fn distro_tag_rhel8() {
    assert_eq!(distro_tag("rhel", "8.7"), Some("el8".into()));
}

#[test]
fn distro_tag_centos() {
    assert_eq!(distro_tag("centos", "7"), Some("el7".into()));
}

#[test]
fn distro_tag_rocky() {
    assert_eq!(distro_tag("rocky", "9.1"), Some("el9".into()));
}

#[test]
fn distro_tag_alma() {
    assert_eq!(distro_tag("almalinux", "9.3"), Some("el9".into()));
}

#[test]
fn distro_tag_oracle() {
    assert_eq!(distro_tag("ol", "8.6"), Some("el8".into()));
}

#[test]
fn distro_tag_fedora_40() {
    assert_eq!(distro_tag("fedora", "40"), Some("el9".into()));
}

#[test]
fn distro_tag_fedora_41() {
    assert_eq!(distro_tag("fedora", "41"), Some("el10".into()));
}

#[test]
fn distro_tag_amazon_2() {
    assert_eq!(distro_tag("amzn", "2"), Some("amzn2".into()));
}

#[test]
fn distro_tag_amazon_2023() {
    assert_eq!(distro_tag("amzn", "2023"), Some("amzn2023".into()));
}

#[test]
fn distro_tag_suse15() {
    assert_eq!(distro_tag("sles", "15.4"), Some("suse15".into()));
}

#[test]
fn distro_tag_opensuse() {
    assert_eq!(distro_tag("opensuse-leap", "15.5"), Some("suse15".into()));
}

#[test]
fn distro_tag_ubuntu_none() {
    assert_eq!(distro_tag("ubuntu", "22.04"), None);
}

#[test]
fn distro_tag_debian_none() {
    assert_eq!(distro_tag("debian", "12"), None);
}

#[test]
fn distro_tag_unknown() {
    assert_eq!(distro_tag("archlinux", "rolling"), None);
}

// --- rhel_fallback_tags ---

#[test]
fn fallback_el10() {
    assert_eq!(rhel_fallback_tags("el10"), vec!["el10", "el9"]);
}

#[test]
fn fallback_el9() {
    assert_eq!(rhel_fallback_tags("el9"), vec!["el9", "el8"]);
}

#[test]
fn fallback_el8() {
    assert_eq!(rhel_fallback_tags("el8"), vec!["el8", "el9"]);
}

#[test]
fn fallback_unknown_tag() {
    assert_eq!(rhel_fallback_tags("amzn2023"), vec!["amzn2023"]);
}

// --- is_rhel_family ---

#[test]
fn rhel_family_true() {
    for id in &["fedora", "rhel", "centos", "rocky", "almalinux", "ol"] {
        assert!(is_rhel_family(id), "{id} should be RHEL family");
    }
}

#[test]
fn rhel_family_false() {
    for id in &["ubuntu", "debian", "sles", "amzn", "archlinux"] {
        assert!(!is_rhel_family(id), "{id} should not be RHEL family");
    }
}

// --- rpm_filename_matches ---

#[test]
fn rpm_match_el9_x86() {
    assert!(rpm_filename_matches(
        "falcon-sensor-7.33.0-18606.el9.x86_64.rpm",
        "el9",
        "x86_64"
    ));
}

#[test]
fn rpm_mismatch_wrong_distro() {
    assert!(!rpm_filename_matches(
        "falcon-sensor-7.33.0-18606.el9.x86_64.rpm",
        "el8",
        "x86_64"
    ));
}

#[test]
fn rpm_mismatch_wrong_arch() {
    assert!(!rpm_filename_matches(
        "falcon-sensor-7.33.0-18606.el9.x86_64.rpm",
        "el9",
        "aarch64"
    ));
}

#[test]
fn rpm_match_suse_s390x() {
    assert!(rpm_filename_matches(
        "falcon-sensor-7.33.0-18606.suse15.s390x.rpm",
        "suse15",
        "s390x"
    ));
}

// --- deb_filename_matches ---

#[test]
fn deb_match_amd64() {
    assert!(deb_filename_matches(
        "falcon-sensor_7.33.0-18606_amd64.deb",
        "x86_64"
    ));
}

#[test]
fn deb_match_arm64() {
    assert!(deb_filename_matches(
        "falcon-sensor_7.33.0-18606_arm64.deb",
        "aarch64"
    ));
}

#[test]
fn deb_mismatch_wrong_arch() {
    assert!(!deb_filename_matches(
        "falcon-sensor_7.33.0-18606_amd64.deb",
        "aarch64"
    ));
}

#[test]
fn deb_match_s390x_passthrough() {
    assert!(deb_filename_matches(
        "falcon-sensor_7.33.0-18606_s390x.deb",
        "s390x"
    ));
}

// --- find_best_local_sensor ---

#[test]
fn local_deb_exact_match() {
    let sensors = vec![
        test_sensor("falcon_amd64.deb", SensorType::Deb),
        test_sensor("falcon_arm64.deb", SensorType::Deb),
    ];
    let result = find_best_local_sensor(&sensors, SensorType::Deb, "aarch64", "ubuntu", "22.04");
    assert_eq!(result.unwrap().filename, "falcon_arm64.deb");
}

#[test]
fn local_deb_no_fallback_wrong_arch() {
    let sensors = vec![test_sensor("falcon_arm64.deb", SensorType::Deb)];
    let result = find_best_local_sensor(&sensors, SensorType::Deb, "x86_64", "ubuntu", "22.04");
    assert!(result.is_none());
}

#[test]
fn local_rpm_exact_match() {
    let sensors = vec![
        test_sensor("falcon.el8.x86_64.rpm", SensorType::Rpm),
        test_sensor("falcon.el9.x86_64.rpm", SensorType::Rpm),
    ];
    let result = find_best_local_sensor(&sensors, SensorType::Rpm, "x86_64", "rhel", "9.2");
    assert_eq!(result.unwrap().filename, "falcon.el9.x86_64.rpm");
}

#[test]
fn local_rpm_fallback_chain() {
    let sensors = vec![test_sensor("falcon.el8.x86_64.rpm", SensorType::Rpm)];
    let result = find_best_local_sensor(&sensors, SensorType::Rpm, "x86_64", "rhel", "9");
    assert_eq!(result.unwrap().filename, "falcon.el8.x86_64.rpm");
}

#[test]
fn local_no_match_wrong_type() {
    let sensors = vec![test_sensor("falcon_amd64.deb", SensorType::Deb)];
    let result = find_best_local_sensor(&sensors, SensorType::Rpm, "x86_64", "rhel", "9");
    assert!(result.is_none());
}

#[test]
fn local_windows_first() {
    let sensors = vec![
        test_sensor("FalconSensor_Windows.exe", SensorType::WindowsExe),
        test_sensor("FalconSensor_Windows_v2.exe", SensorType::WindowsExe),
    ];
    let result = find_best_local_sensor(&sensors, SensorType::WindowsExe, "AMD64", "", "");
    assert_eq!(result.unwrap().filename, "FalconSensor_Windows.exe");
}

#[test]
fn local_empty_sensors() {
    let sensors: Vec<Sensor> = vec![];
    let result = find_best_local_sensor(&sensors, SensorType::Deb, "x86_64", "ubuntu", "22.04");
    assert!(result.is_none());
}

// --- find_best_api_sensor ---

#[test]
fn api_deb_match() {
    let metas = vec![
        test_meta("falcon_amd64.deb", "deb", "Ubuntu"),
        test_meta("falcon_arm64.deb", "deb", "Ubuntu"),
    ];
    let result = find_best_api_sensor(&metas, "deb", "aarch64", "ubuntu", "22.04");
    assert_eq!(result.unwrap().name, "falcon_arm64.deb");
}

#[test]
fn api_rpm_exact_match() {
    let metas = vec![
        test_meta("falcon.el8.x86_64.rpm", "rpm", "RHEL/CentOS/Oracle 8"),
        test_meta("falcon.el9.x86_64.rpm", "rpm", "RHEL/CentOS/Oracle 9"),
    ];
    let result = find_best_api_sensor(&metas, "rpm", "x86_64", "rhel", "9.2");
    assert_eq!(result.unwrap().name, "falcon.el9.x86_64.rpm");
}

#[test]
fn api_rpm_no_fallback_unknown_distro() {
    let metas = vec![test_meta("falcon.el9.x86_64.rpm", "rpm", "RHEL 9")];
    let result = find_best_api_sensor(&metas, "rpm", "x86_64", "archlinux", "rolling");
    assert!(result.is_none());
}

#[test]
fn api_exe_first() {
    let metas = vec![test_meta("FalconSensor_Windows.exe", "exe", "Windows")];
    let result = find_best_api_sensor(&metas, "exe", "AMD64", "", "");
    assert_eq!(result.unwrap().name, "FalconSensor_Windows.exe");
}

#[test]
fn api_rpm_rhel_fallback_chain() {
    // el9 not available, should fall back to el8 via RHEL chain
    let metas = vec![test_meta("falcon.el8.x86_64.rpm", "rpm", "RHEL 8")];
    let result = find_best_api_sensor(&metas, "rpm", "x86_64", "rhel", "9");
    assert_eq!(result.unwrap().name, "falcon.el8.x86_64.rpm");
}

#[test]
fn api_rpm_no_fallback_wrong_arch() {
    let metas = vec![test_meta("falcon.el9.x86_64.rpm", "rpm", "RHEL 9")];
    let result = find_best_api_sensor(&metas, "rpm", "aarch64", "rhel", "9");
    assert!(result.is_none());
}

#[test]
fn api_deb_no_fallback_wrong_arch() {
    let metas = vec![test_meta("falcon_amd64.deb", "deb", "Ubuntu")];
    let result = find_best_api_sensor(&metas, "deb", "aarch64", "ubuntu", "22.04");
    assert!(result.is_none());
}

#[test]
fn api_no_match_unknown_type() {
    let metas = vec![test_meta("falcon_amd64.deb", "deb", "Ubuntu")];
    let result = find_best_api_sensor(&metas, "msi", "x86_64", "", "");
    assert!(result.is_none());
}

// --- validate_sensor_filenames ---

#[test]
fn validate_good_rpm() {
    let sensors = vec![test_sensor("falcon.el9.x86_64.rpm", SensorType::Rpm)];
    assert!(validate_sensor_filenames(&sensors).is_empty());
}

#[test]
fn validate_bad_rpm_no_tags() {
    let sensors = vec![test_sensor("sensor1.rpm", SensorType::Rpm)];
    let warnings = validate_sensor_filenames(&sensors);
    assert_eq!(warnings.len(), 1);
    assert!(warnings[0].contains("sensor1.rpm"));
}

#[test]
fn validate_bad_rpm_missing_arch() {
    let sensors = vec![test_sensor("falcon.el9.rpm", SensorType::Rpm)];
    let warnings = validate_sensor_filenames(&sensors);
    assert_eq!(warnings.len(), 1);
}

#[test]
fn validate_good_deb() {
    let sensors = vec![test_sensor("falcon_amd64.deb", SensorType::Deb)];
    assert!(validate_sensor_filenames(&sensors).is_empty());
}

#[test]
fn validate_bad_deb_no_arch() {
    let sensors = vec![test_sensor("sensor.deb", SensorType::Deb)];
    let warnings = validate_sensor_filenames(&sensors);
    assert_eq!(warnings.len(), 1);
    assert!(warnings[0].contains("sensor.deb"));
}

#[test]
fn validate_exe_no_warning() {
    let sensors = vec![test_sensor("anything.exe", SensorType::WindowsExe)];
    assert!(validate_sensor_filenames(&sensors).is_empty());
}

#[test]
fn validate_mixed_good_and_bad() {
    let sensors = vec![
        test_sensor("falcon.el9.x86_64.rpm", SensorType::Rpm),
        test_sensor("mystery.rpm", SensorType::Rpm),
        test_sensor("falcon_amd64.deb", SensorType::Deb),
        test_sensor("blob.deb", SensorType::Deb),
    ];
    let warnings = validate_sensor_filenames(&sensors);
    assert_eq!(warnings.len(), 2);
}

// --- no fallback to first sensor ---

#[test]
fn local_rpm_no_fallback_untagged() {
    let sensors = vec![
        test_sensor("sensor1.rpm", SensorType::Rpm),
        test_sensor("sensor2.rpm", SensorType::Rpm),
    ];
    let result = find_best_local_sensor(&sensors, SensorType::Rpm, "x86_64", "rhel", "9");
    assert!(result.is_none());
}

#[test]
fn local_rpm_no_cross_distro_fallback() {
    // Кеш накопичив SUSE-сенсор; RHEL-хост не має його отримати
    let sensors = vec![test_sensor(
        "falcon-sensor-7.33.0-18606.suse15.x86_64.rpm",
        SensorType::Rpm,
    )];
    let result = find_best_local_sensor(&sensors, SensorType::Rpm, "x86_64", "rhel", "10");
    assert!(result.is_none());
}

#[test]
fn local_rpm_no_fallback_unknown_distro() {
    let sensors = vec![test_sensor("falcon.el9.x86_64.rpm", SensorType::Rpm)];
    let result =
        find_best_local_sensor(&sensors, SensorType::Rpm, "x86_64", "archlinux", "rolling");
    assert!(result.is_none());
}

// --- own cases ---

#[test]
fn check_sensor_filename_names_the_file() {
    let w = check_sensor_filename("sensor.deb", SensorType::Deb).unwrap();
    assert!(w.contains("sensor.deb"));
    assert!(check_sensor_filename("falcon_amd64.deb", SensorType::Deb).is_none());
    assert!(check_sensor_filename("x.exe", SensorType::WindowsExe).is_none());
}

#[test]
fn api_rpm_prefers_the_exact_tag_over_the_fallback() {
    let metas = vec![
        test_meta("falcon.el8.x86_64.rpm", "rpm", "RHEL 8"),
        test_meta("falcon.el9.x86_64.rpm", "rpm", "RHEL 9"),
    ];
    let result = find_best_api_sensor(&metas, "rpm", "x86_64", "rocky", "9.4");
    assert_eq!(result.unwrap().name, "falcon.el9.x86_64.rpm");
}
