use femboylose::version::is_legacy_version;

#[test]
fn legacy_major_zero() {
    assert!(is_legacy_version("v0.9"));
    assert!(is_legacy_version("0.1.2"));
    assert!(is_legacy_version("vv0.1"));
}

#[test]
fn legacy_one_zero() {
    assert!(is_legacy_version("1.0.5"));
    assert!(is_legacy_version("v1.0"));
    assert!(is_legacy_version("1.-3"));
    assert!(is_legacy_version("1.+0"));
}

#[test]
fn current_versions_are_not_legacy() {
    assert!(!is_legacy_version("v1.1.0"));
    assert!(!is_legacy_version("2.0"));
    assert!(!is_legacy_version("1"));
    assert!(!is_legacy_version("v1"));
    assert!(!is_legacy_version("1.x"));
    assert!(!is_legacy_version("1."));
}

#[test]
fn unparsable_major_is_not_legacy() {
    assert!(!is_legacy_version(""));
    assert!(!is_legacy_version("nightly-0.1"));
    assert!(!is_legacy_version("v"));
    assert!(!is_legacy_version("+"));
    assert!(!is_legacy_version("-"));
    assert!(!is_legacy_version(" 0.1"));
    assert!(!is_legacy_version("99999999999.0"));
}

#[test]
fn signed_majors_follow_i32_parsing() {
    assert!(is_legacy_version("-1.5"));
    assert!(is_legacy_version("+0"));
    assert!(is_legacy_version("-2147483648"));
    assert!(!is_legacy_version("-2147483649"));
    assert!(!is_legacy_version("2147483647"));
    assert!(!is_legacy_version("2147483648"));
}

#[test]
fn v_prefix_law_example() {
    for tag in ["0.5", "1.0", "1.1", "3", "x"] {
        let with_v = format!("v{tag}");
        assert_eq!(is_legacy_version(tag), is_legacy_version(&with_v));
    }
}
