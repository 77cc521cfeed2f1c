use gdio::version::{is_version_compatible, parse_editor_name, parse_version_arg, parse_version_flavor};
use gdio::releases::{list_compatible_releases, Release};

fn release(version: &str, min: Option<&str>, max: Option<&str>) -> Release {
    Release {
        download_url: format!("https://example.org/{}.zip", version),
        version: version.to_string(),
        stable: true,
        min_godot_version: min.map(|s| s.to_string()),
        max_godot_version: max.map(|s| s.to_string()),
    }
}

#[test]
fn flavor_after_dash() {
    assert_eq!(parse_version_flavor("4.3-beta1"), ("4.3".to_string(), "beta1".to_string()));
}

#[test]
fn flavor_after_dot_with_mono_suffix() {
    assert_eq!(parse_version_flavor("4.4.stable.mono"), ("4.4".to_string(), "stable".to_string()));
}

#[test]
fn flavor_found_searching_back_through_segments() {
    assert_eq!(
        parse_version_flavor("4.8.dev.custom_build.7216a6290"),
        ("4.8".to_string(), "dev".to_string())
    );
    assert_eq!(parse_version_flavor("4.4.rc1.mono"), ("4.4".to_string(), "rc1".to_string()));
}

#[test]
fn flavor_defaults_to_stable() {
    assert_eq!(parse_version_flavor("4.3"), ("4.3".to_string(), "stable".to_string()));
}

#[test]
fn version_arg_with_flavor() {
    assert_eq!(parse_version_arg("4.3-rc2"), ("4.3".to_string(), Some("rc2".to_string())));
}

#[test]
fn version_arg_stable_keeps_argument() {
    assert_eq!(parse_version_arg("4.3-stable"), ("4.3-stable".to_string(), None));
    assert_eq!(parse_version_arg("4.2.1"), ("4.2.1".to_string(), None));
}

#[test]
fn compatibility_minimum_and_maximum() {
    assert!(is_version_compatible("4.3", "4.2", true));
    assert!(!is_version_compatible("4.1", "4.2", true));
    assert!(!is_version_compatible("4.3", "4.2", false));
    assert!(!is_version_compatible("4.2.1", "4.2", false));
    assert!(is_version_compatible("v4.2", "4.2.0", true));
    assert!(is_version_compatible("4.2-beta1", "4.2", false));
}

#[test]
fn compatibility_is_reflexive() {
    for v in ["4.3", "3.5.2", "v1.0.0-beta2"] {
        assert!(is_version_compatible(v, v, true));
        assert!(is_version_compatible(v, v, false));
    }
}

#[test]
fn compatible_releases_filtered_and_sorted_highest_first() {
    let releases = vec![
        release("1.0.0", None, None),
        release("2.0.0-beta1", Some("4.2"), None),
        release("2.0.0", Some("4.4"), None),
        release("1.5.0", None, Some("4.2")),
        release("2.0.0-rc1", None, None),
        release("1.0.0", None, None),
    ];
    let out = list_compatible_releases(&releases, "4.3");
    let versions: Vec<&str> = out.iter().map(|r| r.version.as_str()).collect();
    assert_eq!(versions, vec!["2.0.0-rc1", "2.0.0-beta1", "1.0.0", "1.0.0"]);
    assert!(std::ptr::eq(out[2], &releases[0]));
    assert!(std::ptr::eq(out[3], &releases[5]));
}

#[test]
fn editor_name_from_download() {
    assert_eq!(
        parse_editor_name("Godot_v4.3-stable_win64.exe"),
        ("4.3".to_string(), "Godot v4.3".to_string(), false)
    );
    assert_eq!(
        parse_editor_name("Godot_v4.2.1-stable_mono_linux_x86_64"),
        ("4.2.1".to_string(), "Godot v4.2.1".to_string(), true)
    );
}

#[test]
fn editor_name_without_v_or_digits() {
    assert_eq!(
        parse_editor_name("Godot_4.1_MONO"),
        ("4.1".to_string(), "Godot v4.1".to_string(), true)
    );
    assert_eq!(
        parse_editor_name("Godot"),
        ("unknown".to_string(), "Godot vunknown".to_string(), false)
    );
}
