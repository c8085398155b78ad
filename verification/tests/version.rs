use nimbus_reports::version::{evaluate_release_check, is_newer_version, trim_leading_v,
    ReleaseInfo};

#[test]
fn patch_bump_is_newer() {
    assert!(is_newer_version("1.2.3", "1.2.4"));
}

#[test]
fn major_bump_beats_minor() {
    assert!(is_newer_version("1.9.0", "2.0.0"));
}

#[test]
fn older_major_is_not_newer() {
    assert!(!is_newer_version("2.0.0", "1.9.9"));
}

#[test]
fn missing_components_count_as_zero() {
    assert!(!is_newer_version("1.0", "1.0.0"));
    assert!(is_newer_version("1.0", "1.0.1"));
}

#[test]
fn equal_versions_are_not_newer() {
    assert!(!is_newer_version("3.1.4", "3.1.4"));
}

#[test]
fn non_numeric_components_count_as_zero() {
    assert!(!is_newer_version("1.0.0", "1.x.0"));
    assert!(is_newer_version("1.x.0", "1.1.0"));
}

#[test]
fn fourth_component_is_ignored() {
    assert!(!is_newer_version("1.2.3", "1.2.3.9"));
}

#[test]
fn leading_v_is_stripped_from_tags() {
    assert_eq!(trim_leading_v("v1.2.3"), "1.2.3");
    assert_eq!(trim_leading_v("1.2.3"), "1.2.3");
}

#[test]
fn not_found_means_no_releases_not_an_error() {
    let info = evaluate_release_check(String::from("1.0.0"), 404, "", None).unwrap();
    assert_eq!(info.current_version, "1.0.0");
    assert_eq!(info.latest_version, None);
    assert!(!info.update_available);
    assert_eq!(info.release_url, None);
    assert_eq!(info.release_notes, None);
}

#[test]
fn other_failing_status_is_an_error_with_status_and_body() {
    let err = evaluate_release_check(String::from("1.0.0"), 500, "boom", None).unwrap_err();
    assert_eq!(err, "GitHub API returned status 500: boom");
}

#[test]
fn unparsable_release_body_is_an_error() {
    let err = evaluate_release_check(String::from("1.0.0"), 200, "{}", None).unwrap_err();
    assert!(err.starts_with("Failed to parse release info"), "{err}");
}

#[test]
fn newer_release_reports_an_update() {
    let rel = ReleaseInfo {
        tag_name: String::from("v1.2.0"),
        html_url: String::from("https://releases.example/v1.2.0"),
        notes: Some(String::from("fixes")),
    };
    let info = evaluate_release_check(String::from("1.0.0"), 200, "", Some(rel)).unwrap();
    assert_eq!(info.latest_version.as_deref(), Some("1.2.0"));
    assert!(info.update_available);
    assert_eq!(info.release_url.as_deref(), Some("https://releases.example/v1.2.0"));
    assert_eq!(info.release_notes.as_deref(), Some("fixes"));
}

#[test]
fn same_release_reports_no_update() {
    let rel = ReleaseInfo {
        tag_name: String::from("v1.0.0"),
        html_url: String::from("u"),
        notes: None,
    };
    let info = evaluate_release_check(String::from("1.0.0"), 200, "", Some(rel)).unwrap();
    assert_eq!(info.latest_version.as_deref(), Some("1.0.0"));
    assert!(!info.update_available);
}
