use stellar_upgrader_plugin::security_checks::version_check::VersionCheck;

#[test]
fn test_extract_binver() {
    let check = VersionCheck::new();

    let metadata = r#"[{"sc_meta_v0":{"key":"binver","val":"2.0.0"}},{"sc_meta_v0":{"key":"rsver","val":"1.85.0"}}]"#;
    let version = check.extract_binver(metadata).unwrap();
    assert_eq!(version, "2.0.0");
}

#[test]
fn test_extract_binver_not_found() {
    let check = VersionCheck::new();

    let metadata = r#"[{"sc_meta_v0":{"key":"rsver","val":"1.85.0"}}]"#;
    let result = check.extract_binver(metadata);
    assert!(result.is_err());
}

#[test]
fn test_compare_versions() {
    let check = VersionCheck::new();

    // Test major version upgrade
    assert!(check.compare_versions("1.0.0", "2.0.0").unwrap());
    assert!(!check.compare_versions("2.0.0", "1.0.0").unwrap());

    // Test minor version upgrade
    assert!(check.compare_versions("1.0.0", "1.1.0").unwrap());
    assert!(!check.compare_versions("1.1.0", "1.0.0").unwrap());

    // Test patch version upgrade
    assert!(check.compare_versions("1.0.0", "1.0.1").unwrap());
    assert!(!check.compare_versions("1.0.1", "1.0.0").unwrap());

    // Test equal versions
    assert!(!check.compare_versions("1.0.0", "1.0.0").unwrap());

    // Test different length versions
    assert!(check.compare_versions("1.0", "1.0.1").unwrap());
    assert!(check.compare_versions("1", "1.0.1").unwrap());
    assert!(!check.compare_versions("1.0.1", "1.0").unwrap());
}

#[test]
fn test_compare_versions_invalid() {
    let check = VersionCheck::new();

    let result = check.compare_versions("invalid", "1.0.0");
    assert!(result.is_err());

    let result = check.compare_versions("1.0.0", "invalid");
    assert!(result.is_err());
}

#[test]
fn test_version_check_unit_tests() {
    // Test the version comparison logic separately
    let version_check = VersionCheck::new();

    // Test version comparison
    assert!(version_check.compare_versions("1.0.0", "2.0.0").unwrap());
    assert!(!version_check.compare_versions("2.0.0", "1.0.0").unwrap());
    assert!(!version_check.compare_versions("1.0.0", "1.0.0").unwrap());

    // Test version extraction
    let metadata = r#"[{"sc_meta_v0":{"key":"binver","val":"1.5.2"}},{"sc_meta_v0":{"key":"rsver","val":"1.85.0"}}]"#;
    let version = version_check.extract_binver(metadata).unwrap();
    assert_eq!(version, "1.5.2");
}

#[test]
fn test_compare_versions_dictionary_order() {
    // Padded dictionary order, not numeric-string order: "2" beats "1.9".
    let check = VersionCheck::new();
    assert!(check.compare_versions("1.9", "2").unwrap());
    assert!(!check.compare_versions("2", "1.9").unwrap());
    assert!(!check.compare_versions("1", "1.0.0").unwrap());
    assert!(!check.compare_versions("1.0.0", "1").unwrap());
}

#[test]
fn test_compare_versions_malformed_segments() {
    let check = VersionCheck::new();
    // An empty segment is not a number.
    assert!(check.compare_versions("1..2", "1.0.0").is_err());
    assert!(check.compare_versions("", "1.0.0").is_err());
    assert!(check.compare_versions("1.", "1.0.0").is_err());
    // A sign is not a digit.
    assert!(check.compare_versions("+1", "1.0.0").is_err());
    assert!(check.compare_versions("1.0.0", "-1").is_err());
    // A segment beyond u32 range does not parse.
    assert!(check.compare_versions("4294967296", "1.0.0").is_err());
    // The largest representable segment still does.
    assert!(check.compare_versions("4294967295", "4294967295").is_ok());
}

#[test]
fn test_compare_versions_error_message() {
    let check = VersionCheck::new();
    let err = check.compare_versions("invalid", "1.0.0").unwrap_err();
    assert_eq!(err, "Invalid version format: invalid");
    let err = check.compare_versions("1.0.0", "bogus").unwrap_err();
    assert_eq!(err, "Invalid version format: bogus");
}

#[test]
fn test_extract_binver_empty_value() {
    let check = VersionCheck::new();
    let metadata = r#"[{"sc_meta_v0":{"key":"binver","val":""}}]"#;
    let version = check.extract_binver(metadata).unwrap();
    assert_eq!(version, "");
}

#[test]
fn test_extract_binver_first_record_wins() {
    let check = VersionCheck::new();
    let metadata = r#"[{"sc_meta_v0":{"key":"binver","val":"1.2.3"}},{"sc_meta_v0":{"key":"binver","val":"9.9.9"}}]"#;
    let version = check.extract_binver(metadata).unwrap();
    assert_eq!(version, "1.2.3");
}

#[test]
fn test_evaluate_metadata_upgrade_ok() {
    let check = VersionCheck::new();
    let current = r#"[{"sc_meta_v0":{"key":"binver","val":"1.0.0"}}]"#;
    let cand = r#"[{"sc_meta_v0":{"key":"binver","val":"1.0.1"}}]"#;
    assert!(check.evaluate_metadata(current, cand).is_ok());
}

#[test]
fn test_evaluate_metadata_downgrade_fails() {
    let check = VersionCheck::new();
    let current = r#"[{"sc_meta_v0":{"key":"binver","val":"2.0.0"}}]"#;
    let cand = r#"[{"sc_meta_v0":{"key":"binver","val":"1.9.9"}}]"#;
    let err = check.evaluate_metadata(current, cand).unwrap_err();
    assert!(err.contains("is not greater than current version"));
    assert!(err.contains("(1.9.9)"));
    assert!(err.contains("(2.0.0)"));
}

#[test]
fn test_evaluate_metadata_missing_field() {
    let check = VersionCheck::new();
    let current = r#"[{"sc_meta_v0":{"key":"rsver","val":"1.85.0"}}]"#;
    let cand = r#"[{"sc_meta_v0":{"key":"binver","val":"1.0.1"}}]"#;
    let err = check.evaluate_metadata(current, cand).unwrap_err();
    assert_eq!(err, "binver not found in metadata");
}

#[test]
fn test_evaluate_metadata_malformed_version() {
    let check = VersionCheck::new();
    let current = r#"[{"sc_meta_v0":{"key":"binver","val":"oops"}}]"#;
    let cand = r#"[{"sc_meta_v0":{"key":"binver","val":"1.0.1"}}]"#;
    let err = check.evaluate_metadata(current, cand).unwrap_err();
    assert_eq!(err, "Invalid version format: oops");
}
