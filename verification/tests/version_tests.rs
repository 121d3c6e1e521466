use gores_map_downloader::version::{version_greater_than, version_newer};

#[test]
fn plain_version_comparisons() {
    assert!(version_greater_than("1.2.3", "1.2.2"));
    assert!(version_greater_than("2.0", "1.9.9"));
    assert!(!version_greater_than("1.2.2", "1.2.3"));
    assert!(!version_greater_than("1.2.3", "1.2.3"));
}

#[test]
fn longer_version_beats_its_prefix() {
    assert!(version_greater_than("1.2.3", "1.2"));
    assert!(!version_greater_than("1.2", "1.2.3"));
}

#[test]
fn components_compare_numerically_not_textually() {
    assert!(version_greater_than("1.10", "1.2"));
    assert!(!version_greater_than("1.2", "1.10"));
    assert!(version_greater_than("10.0", "9.0"));
}

#[test]
fn non_numeric_components_are_dropped() {
    // "1.a.2" keys as [1, 2], like "1.2"
    assert!(!version_greater_than("1.a.2", "1.2"));
    assert!(!version_greater_than("1.2", "1.a.2"));
    assert!(version_greater_than("1.a.3", "1.2"));
}

#[test]
fn empty_and_unparsable_versions_key_empty() {
    assert!(!version_greater_than("", "1"));
    assert!(version_greater_than("1", ""));
    assert!(!version_greater_than("", ""));
    assert!(!version_greater_than("beta", "1"));
}

#[test]
fn leading_plus_and_zeroes_parse() {
    assert!(version_greater_than("+3", "2"));
    assert!(!version_greater_than("1.02", "1.2"));
    assert!(!version_greater_than("1.2", "1.02"));
}

#[test]
fn component_overflow_is_dropped() {
    // a component beyond u32 does not parse, so "4294967296" keys as []
    assert!(!version_greater_than("4294967296", "1"));
    assert!(version_greater_than("4294967295", "1"));
}

#[test]
fn newer_versions_are_detected() {
    assert!(version_newer("1.0.1", "1.0.0"));
    assert!(version_newer("v1.2.3", "1.2.2"));
    assert!(version_newer("2.0.0", "v1.9.9"));
    assert!(!version_newer("1.0.0", "1.0.1"));
    assert!(!version_newer("1.0.0", "1.0.0"));
}

#[test]
fn missing_components_read_as_zero() {
    assert!(!version_newer("1.2", "1.2.0"));
    assert!(!version_newer("1.2.0", "1.2"));
    assert!(version_newer("1.2.1", "1.2"));
}
