use pike::digest::{hex16_of, sha256_hex};
use pike::path::{path_components_of, same_path_str};
use pike::token::token_from;
use pike::sensors::eviction::{plan_eviction, CacheEntry};
use pike::sensors::loading::{detect_sensor_type, extension, make_sensor, sensor_type_of_name};
use pike::sensors::metadata::{Lookup, MetadataCache, RETRY_AFTER_FAILURE_MS};
use pike::sensors::store::{check_integrity, integrity_verdict, tmp_name, tmp_name_from, BinaryStore};
use pike::sensors::{SensorMeta, SensorType};
use pike::AppError;

// --- plan_eviction ---

fn entry(name: &str, size: u64, secs_ago: u64) -> CacheEntry {
    CacheEntry {
        path: name.to_string(),
        size,
        modified: ((1_000_000 - secs_ago) as i128) * 1_000_000_000,
    }
}

#[test]
fn eviction_noop_when_under_limit() {
    let entries = vec![entry("a", 10, 100), entry("b", 10, 50)];
    assert!(plan_eviction(entries, 100).is_empty());
}

#[test]
fn eviction_removes_oldest_first() {
    let entries = vec![
        entry("newest", 40, 10),
        entry("oldest", 40, 300),
        entry("middle", 40, 100),
    ];
    let evicted = plan_eviction(entries, 100);
    assert_eq!(evicted, vec!["oldest".to_string()]);
}

#[test]
fn eviction_continues_until_under_limit() {
    let entries = vec![
        entry("newest", 40, 10),
        entry("oldest", 40, 300),
        entry("middle", 40, 100),
    ];
    let evicted = plan_eviction(entries, 50);
    assert_eq!(evicted, vec!["oldest".to_string(), "middle".to_string()]);
}

#[test]
fn eviction_of_equally_old_files_keeps_their_listed_order() {
    let entries = vec![entry("b", 40, 10), entry("a", 40, 10), entry("c", 40, 10)];
    let evicted = plan_eviction(entries, 40);
    assert_eq!(evicted, vec!["b".to_string(), "a".to_string()]);
}

#[test]
fn eviction_with_zero_limit_removes_everything() {
    // the empty file is the oldest: it goes first, and frees nothing
    let entries = vec![entry("a", 1, 10), entry("b", 0, 20)];
    let evicted = plan_eviction(entries, 0);
    assert_eq!(evicted, vec!["b".to_string(), "a".to_string()]);
}

#[test]
fn just_downloaded_file_survives_gc() {
    let store = BinaryStore::new("/cache".to_string(), 4);
    let keep = store.path_for(&"AA".repeat(32));
    let entries = vec![
        CacheEntry { path: keep.clone(), size: 30, modified: 5 },
        CacheEntry { path: "/cache/old".into(), size: 10, modified: 1 },
    ];
    let plan = store.plan_gc(entries, &keep, 0);
    assert_eq!(plan.victims, vec!["/cache/old".to_string()]);
    assert_eq!(plan.oversized, Some(30));
}

#[test]
fn gc_counts_downloads_in_flight() {
    let store = BinaryStore::new("/cache".to_string(), 100);
    let entries = vec![
        CacheEntry { path: "/cache/new".into(), size: 40, modified: 9 },
        CacheEntry { path: "/cache/a".into(), size: 30, modified: 1 },
        CacheEntry { path: "/cache/b".into(), size: 30, modified: 2 },
    ];
    let plan = store.plan_gc(entries, "/cache/new", 25);
    assert_eq!(plan.victims, vec!["/cache/a".to_string()]);
    assert_eq!(plan.oversized, None);
}

// --- paths ---

#[test]
fn paths_compare_by_components() {
    assert_eq!(path_components_of("/var//cache/./pike/"), vec!["/", "var", "cache", "pike"]);
    assert_eq!(path_components_of("./a/../b"), vec![".", "a", "..", "b"]);
    assert_eq!(path_components_of("a/."), vec!["a"]);
    assert_eq!(path_components_of(".hidden"), vec![".hidden"]);
    assert!(same_path_str("/cache//x", "/cache/x"));
    assert!(same_path_str("/cache/x/", "/cache/./x"));
    assert!(!same_path_str("/cache/x", "cache/x"));
    assert!(!same_path_str("./x", "x"));
    assert!(same_path_str("a/./x", "a/x"));
}

#[test]
fn gc_spares_the_kept_file_however_its_path_is_spelled() {
    let store = BinaryStore::new("/cache".to_string(), 50);
    let entries = vec![
        CacheEntry { path: "/cache//new".into(), size: 40, modified: 9 },
        CacheEntry { path: "/cache/a".into(), size: 30, modified: 1 },
    ];
    let plan = store.plan_gc(entries, "/cache/new", 0);
    assert_eq!(plan.victims, vec!["/cache/a".to_string()]);
    assert_eq!(plan.oversized, None);
}

#[test]
fn uppercase_sha256_maps_to_the_lowercase_path() {
    let store = BinaryStore::new("/var/cache/pike".to_string(), u64::MAX);
    let sha = "ab12".repeat(16);
    assert_eq!(store.path_for(&sha.to_uppercase()), format!("/var/cache/pike/{sha}"));
    assert_eq!(store.tmp_dir(), "/var/cache/pike/tmp");
    let t = store.tmp_path(&sha);
    assert!(t.starts_with(&format!("/var/cache/pike/tmp/{sha}.")));
    assert_eq!(t.len(), "/var/cache/pike/tmp/".len() + 64 + 17);
}

#[test]
fn tmp_names_are_distinct_and_hex() {
    let a = tmp_name("abc");
    let b = tmp_name("abc");
    assert_ne!(a, b);
    assert!(a.starts_with("abc."));
    assert_eq!(a.len(), 3 + 17);
    assert!(a[4..].chars().all(|c| c.is_ascii_hexdigit() && !c.is_ascii_uppercase()));
}

#[test]
fn hex_of_drawn_numbers() {
    assert_eq!(hex16_of(0x0102_0304_0506_0708), "0807060504030201");
    assert_eq!(hex16_of(255), "ff00000000000000");
    assert_eq!(hex16_of(u64::MAX), "ffffffffffffffff");
    assert_eq!(token_from(1, 0xabcd), "0100000000000000cdab000000000000");
    assert_eq!(tmp_name_from("abc", 0xab), "abc.ab00000000000000");
}

// --- digest and integrity ---

#[test]
fn sha256_of_known_inputs() {
    assert_eq!(
        sha256_hex(b""),
        "e3b0c44298fc1c149afbf4c8996fb92427ae41e4649b934ca495991b7852b855"
    );
    assert_eq!(
        sha256_hex(b"abc"),
        "ba7816bf8f01cfea414140de5dae2223b00361a396177a9cb410ff61f20015ad"
    );
}

#[test]
fn rejects_sha256_mismatch() {
    let expected = sha256_hex(b"expected");
    let err = check_integrity(b"not what was promised", &expected).unwrap_err();
    let actual = sha256_hex(b"not what was promised");
    assert_eq!(
        err.message(),
        format!("sensor integrity check failed: expected sha256 {expected}, got {actual}")
    );
    assert!(check_integrity(b"expected", &expected).is_ok());
    assert!(check_integrity(b"expected", &expected.to_uppercase()).is_ok());
}

#[test]
fn integrity_verdict_ignores_case_only() {
    assert!(integrity_verdict("abcdef", "ABCDEF").is_ok());
    assert!(integrity_verdict("abcdef", "abcdee").is_err());
}

// --- loading ---

#[test]
fn detect_deb() {
    assert_eq!(detect_sensor_type("falcon_amd64.deb"), Some(SensorType::Deb));
}

#[test]
fn detect_rpm() {
    assert_eq!(detect_sensor_type("falcon.el9.x86_64.rpm"), Some(SensorType::Rpm));
}

#[test]
fn detect_exe() {
    assert_eq!(detect_sensor_type("FalconSensor.exe"), Some(SensorType::WindowsExe));
}

#[test]
fn detect_txt_none() {
    assert_eq!(detect_sensor_type("readme.txt"), None);
}

#[test]
fn detect_no_extension() {
    assert_eq!(detect_sensor_type("Makefile"), None);
}

#[test]
fn extension_follows_the_path_rules() {
    assert_eq!(extension(".bashrc"), None);
    assert_eq!(extension("a.tar.gz").as_deref(), Some("gz"));
    assert_eq!(extension("trailing.").as_deref(), Some(""));
    assert_eq!(extension(".."), None);
    assert_eq!(sensor_type_of_name("x.DEB"), None);
    assert_eq!(detect_sensor_type("/srv/sensors/falcon_arm64.deb"), Some(SensorType::Deb));
}

#[test]
fn make_sensor_names_and_hashes_the_file() {
    let s = make_sensor("/srv/sensors/falcon_amd64.deb", b"abc").unwrap();
    assert_eq!(s.filename, "falcon_amd64.deb");
    assert_eq!(s.sensor_type, SensorType::Deb);
    assert_eq!(s.sha256, "ba7816bf8f01cfea414140de5dae2223b00361a396177a9cb410ff61f20015ad");
    let e = make_sensor("/srv/readme.txt", b"abc").unwrap_err();
    assert_eq!(
        e.message(),
        "Unknown sensor type for '/srv/readme.txt'. Supported: .deb, .rpm, .exe"
    );
}

// --- sensor-list cache ---

fn meta(name: &str) -> SensorMeta {
    SensorMeta {
        name: name.to_string(),
        sha256: "a".repeat(64),
        platform: "linux".into(),
        os: "Ubuntu".into(),
        file_type: "deb".into(),
        file_size: 10,
        version: "7.0".into(),
        architectures: vec![],
    }
}

/// Runs one request against the cache as the server does: ask, and fetch
/// from `api` only when told to. Returns the answer and whether the API
/// was called.
fn get(
    cache: &mut MetadataCache,
    platform: &str,
    now: u64,
    api: Result<Vec<SensorMeta>, AppError>,
) -> (Result<Vec<SensorMeta>, AppError>, bool) {
    match cache.lookup(platform, now) {
        Lookup::Serve(m) => (Ok(m), false),
        Lookup::Refuse(e) => (Err(e), false),
        Lookup::Fetch => (cache.record(platform, now, api), true),
    }
}

fn down() -> Result<Vec<SensorMeta>, AppError> {
    Err(AppError::Other("api down".into()))
}

#[test]
fn fetches_once_then_serves_from_cache() {
    let mut cache = MetadataCache::new(3_600_000);
    let (a, called) = get(&mut cache, "linux", 0, Ok(vec![meta("sensor0.deb")]));
    assert!(called);
    let (b, called) = get(&mut cache, "linux", 1, Ok(vec![meta("sensor1.deb")]));
    assert!(!called);
    assert_eq!(a.unwrap()[0].name, b.unwrap()[0].name);
}

#[test]
fn refetches_after_ttl() {
    let mut cache = MetadataCache::new(60_000);
    get(&mut cache, "linux", 0, Ok(vec![meta("sensor0.deb")])).0.unwrap();
    let (second, called) = get(&mut cache, "linux", 61_000, Ok(vec![meta("sensor1.deb")]));
    assert!(called);
    assert_eq!(second.unwrap()[0].name, "sensor1.deb");
}

#[test]
fn serves_stale_snapshot_when_api_fails() {
    let mut cache = MetadataCache::new(60_000);
    get(&mut cache, "linux", 0, Ok(vec![meta("sensor0.deb")])).0.unwrap();
    let (stale, called) = get(&mut cache, "linux", 61_000, down());
    assert!(called);
    assert_eq!(stale.unwrap()[0].name, "sensor0.deb");
}

#[test]
fn negative_caching_suppresses_immediate_retry() {
    let mut cache = MetadataCache::new(60_000);
    get(&mut cache, "linux", 0, Ok(vec![meta("sensor0.deb")])).0.unwrap();
    let (r, called) = get(&mut cache, "linux", 61_000, down());
    assert!(called && r.is_ok());
    let (r, called) = get(&mut cache, "linux", 61_001, down());
    assert!(!called && r.is_ok());
    let (r, called) = get(&mut cache, "linux", 61_000 + RETRY_AFTER_FAILURE_MS + 1, down());
    assert!(called && r.is_ok());
}

#[test]
fn negative_caching_applies_without_any_snapshot() {
    let mut cache = MetadataCache::new(60_000);
    let (r, called) = get(&mut cache, "linux", 0, down());
    assert!(called && r.is_err());
    let (r, called) = get(&mut cache, "linux", 1, down());
    assert!(!called);
    assert_eq!(
        r.unwrap_err().message(),
        "sensor list for 'linux' unavailable; the last API call failed and the retry window has not elapsed"
    );
    let (r, called) = get(&mut cache, "linux", 61_001, down());
    assert!(called && r.is_err());
}

#[test]
fn errors_when_no_snapshot_at_all() {
    let mut cache = MetadataCache::new(60_000);
    let (r, _) = get(&mut cache, "linux", 0, down());
    assert_eq!(r.unwrap_err().message(), "api down");
}

#[test]
fn platforms_are_cached_independently() {
    let mut cache = MetadataCache::new(3_600_000);
    let (_, a) = get(&mut cache, "linux", 0, Ok(vec![meta("l.deb")]));
    let (_, b) = get(&mut cache, "windows", 0, Ok(vec![meta("w.exe")]));
    assert!(a && b);
    let (l, _) = get(&mut cache, "linux", 1, down());
    assert_eq!(l.unwrap()[0].name, "l.deb");
    assert_eq!(cache.ttl(), 3_600_000);
}
