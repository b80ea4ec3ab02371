use dsondt::version::{is_newer, newest_version, parse_ver};

#[test]
fn version_compare() {
    assert!(is_newer("0.3.4", "0.3.3"));
    assert!(is_newer("v0.4.1", "0.3.9"));
    assert!(is_newer("0.3.10", "0.3.9"));
    assert!(!is_newer("0.3.3", "0.3.3"));
    assert!(!is_newer("0.3.2", "0.3.3"));
    assert!(!is_newer("garbage", "0.3.3"));
}

#[test]
fn parse_ver_strips_prefix_and_suffix() {
    assert_eq!(parse_ver("v0.3.10-beta"), vec![0, 3, 10]);
    assert_eq!(parse_ver("  V1.2+build.7 "), vec![1, 2]);
    assert_eq!(parse_ver("vv2.0"), vec![2, 0]);
}

#[test]
fn parse_ver_non_numeric_segments_count_as_zero() {
    assert_eq!(parse_ver("garbage"), vec![0]);
    assert_eq!(parse_ver(""), vec![0]);
    assert_eq!(parse_ver("1..2"), vec![1, 0, 2]);
    assert_eq!(parse_ver("1.2rc3.4"), vec![1, 2, 4]);
    assert_eq!(parse_ver("1."), vec![1, 0]);
}

#[test]
fn parse_ver_overflowing_segment_is_zero() {
    assert_eq!(parse_ver("4294967295.4294967296"), vec![4294967295, 0]);
    assert_eq!(parse_ver("99999999999999999999999.1"), vec![0, 1]);
}

#[test]
fn trailing_zero_segments_do_not_matter() {
    assert!(!is_newer("0.3.0", "0.3"));
    assert!(!is_newer("0.3", "0.3.0"));
    assert!(is_newer("0.3.0.1", "0.3"));
}

#[test]
fn newer_is_asymmetric_and_transitive_on_examples() {
    assert!(is_newer("1.10", "1.9") && !is_newer("1.9", "1.10"));
    assert!(is_newer("2.0", "1.10") && is_newer("1.10", "1.9") && is_newer("2.0", "1.9"));
}

#[test]
fn newest_version_picks_the_maximum() {
    let vs = vec!["0.3.2".to_string(), "0.3.10".to_string(), "0.3.9".to_string()];
    assert_eq!(newest_version(vs), Some("0.3.10".to_string()));
    assert_eq!(newest_version(vec![]), None);
    let ties = vec!["1.0".to_string(), "1.0.0".to_string()];
    assert_eq!(newest_version(ties), Some("1.0".to_string()));
}
