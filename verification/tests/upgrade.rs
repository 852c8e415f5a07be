use emux::upgrade::{
    download_plan, extract_json_string, is_newer, latest_release_url, release_from_description,
    target_triple, update_check_due,
};

#[test]
fn is_newer_detects_patch_bump() {
    assert!(is_newer("0.1.0", "0.1.1"));
}

#[test]
fn is_newer_detects_minor_bump() {
    assert!(is_newer("0.1.0", "0.2.0"));
}

#[test]
fn is_newer_detects_major_bump() {
    assert!(is_newer("0.1.0", "1.0.0"));
}

#[test]
fn is_newer_same_version() {
    assert!(!is_newer("0.1.0", "0.1.0"));
}

#[test]
fn is_newer_older_version() {
    assert!(!is_newer("0.2.0", "0.1.0"));
}

#[test]
fn extract_tag_name_from_json() {
    let json = r#"{"tag_name": "v0.2.0", "name": "Release v0.2.0"}"#;
    assert_eq!(extract_json_string(json, "tag_name"), Some("v0.2.0".into()));
}

#[test]
fn extract_missing_key_returns_none() {
    let json = r#"{"name": "test"}"#;
    assert_eq!(extract_json_string(json, "tag_name"), None);
}

#[test]
fn is_newer_skips_unparsable_parts() {
    // "x" is skipped, so "1.x.2" reads as 1.2.0.
    assert!(is_newer("1.1.9", "1.x.2"));
    assert!(!is_newer("1.2.0", "1.x.2"));
}

#[test]
fn is_newer_missing_parts_count_as_zero() {
    assert!(!is_newer("1", "1.0.0"));
    assert!(is_newer("1", "1.0.1"));
}

#[test]
fn is_newer_overflowing_part_is_skipped() {
    // 4294967296 does not fit in a u32 and is skipped: "0.4294967296.3" reads as 0.3.0.
    assert!(!is_newer("0.3.0", "0.4294967296.3"));
    assert!(is_newer("0.2.9", "0.4294967296.3"));
}

#[test]
fn extract_value_after_whitespace_and_newline() {
    let json = "{\"tag_name\" :\n\t \"v1.2.3\"}";
    assert_eq!(extract_json_string(json, "tag_name"), Some("v1.2.3".to_string()));
}

#[test]
fn extract_non_string_value_returns_none() {
    let json = r#"{"tag_name": 5}"#;
    assert_eq!(extract_json_string(json, "tag_name"), None);
}

#[test]
fn extract_unterminated_string_returns_none() {
    let json = r#"{"tag_name": "v1"#;
    assert_eq!(extract_json_string(json, "tag_name"), None);
}

#[test]
fn extract_non_ascii_value() {
    let json = "{\"name\": \"héllo wörld\"}";
    assert_eq!(extract_json_string(json, "name"), Some("héllo wörld".to_string()));
}

#[test]
fn current_target_returns_valid_triple() {
    // The platform these tests are built for: Linux on x86_64.
    assert!(target_triple("linux", "x86_64").is_ok());
}

#[test]
fn target_triples_of_supported_platforms() {
    assert_eq!(target_triple("linux", "x86_64").unwrap(), "x86_64-unknown-linux-gnu");
    assert_eq!(target_triple("linux", "aarch64").unwrap(), "aarch64-unknown-linux-gnu");
    assert_eq!(target_triple("macos", "aarch64").unwrap(), "aarch64-apple-darwin");
    assert_eq!(target_triple("windows", "x86_64").unwrap(), "x86_64-pc-windows-msvc");
    assert_eq!(target_triple("freebsd", "x86_64").unwrap_err(), "unsupported platform: freebsd/x86_64");
}

#[test]
fn release_from_description_strips_leading_vs() {
    let r = release_from_description(r#"{"tag_name": "v0.2.0"}"#).unwrap();
    assert_eq!(r.tag, "v0.2.0");
    assert_eq!(r.version, "0.2.0");
    let r = release_from_description(r#"{"tag_name":"vv1.0"}"#).unwrap();
    assert_eq!(r.version, "1.0");
    let e = release_from_description(r#"{"name": "x"}"#).unwrap_err();
    assert_eq!(e, "could not find tag_name in release response");
}

#[test]
fn download_plan_names_archive_and_address() {
    let p = download_plan("v0.2.0", "x86_64-unknown-linux-gnu", false);
    assert_eq!(p.archive_name, "emux-v0.2.0-x86_64-unknown-linux-gnu.tar.gz");
    assert_eq!(
        p.url,
        "https://github.com/IISweetHeartII/emux/releases/download/v0.2.0/emux-v0.2.0-x86_64-unknown-linux-gnu.tar.gz"
    );
    assert_eq!(p.binary_name, "emux");
    let w = download_plan("v1", "x86_64-pc-windows-msvc", true);
    assert_eq!(w.archive_name, "emux-v1-x86_64-pc-windows-msvc.zip");
    assert_eq!(w.binary_name, "emux.exe");
    assert_eq!(latest_release_url(), "https://api.github.com/repos/IISweetHeartII/emux/releases/latest");
}

#[test]
fn update_checks_once_a_day() {
    assert!(update_check_due(None));
    assert!(!update_check_due(Some(0)));
    assert!(!update_check_due(Some(86399)));
    assert!(update_check_due(Some(86400)));
}

#[test]
fn newer_is_a_strict_order_on_examples() {
    assert!(!is_newer("1.2.3", "1.2.3"));
    assert!(is_newer("1.2", "1.2.1"));
    assert!(!is_newer("1.2.1", "1.2"));
    // Parts that are not numbers are skipped: "x.1" reads as 1.0.0.
    assert!(!is_newer("x.1", "0.2"));
    assert!(is_newer("0.2", "x.1"));
}

#[test]
fn formatted_versions_compare_as_triples() {
    let triples = [(0u32, 0u32, 0u32), (0, 0, 9), (0, 1, 0), (1, 2, 3), (1, 10, 0), (2, 0, 0), (4294967295, 0, 1)];
    for a in triples.iter() {
        for b in triples.iter() {
            let cur = format!("{}.{}.{}", a.0, a.1, a.2);
            let lat = format!("{}.{}.{}", b.0, b.1, b.2);
            assert_eq!(is_newer(&cur, &lat), b > a, "{} -> {}", cur, lat);
        }
    }
}
