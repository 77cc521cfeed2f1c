use gdio::addons::{quote_bare_toml_key, unquote_toml_key};
use gdio::builder::merge_args;
use gdio::config::{relative_time_at, Config, EditorInfo, EditorSource, ProjectInfo, Repository};
use gdio::numparse::decimal_string;
use gdio::repository::toggle_repository;
use gdio::version::is_version_compatible;
use gdio::tags::{parse_tags, write_tags};

#[test]
fn law_registered_editor_found_then_forgotten() {
    let mut config = Config::default();
    let e = EditorInfo {
        name: "Godot v4.3".to_string(),
        path: "/opt/g".to_string(),
        version: "4.3".to_string(),
        is_mono: true,
        source: EditorSource::Local,
    };
    config.register_editor(e);
    assert_eq!(config.find_editor_for_version("4.3-csharp").unwrap().path, "/opt/g");
    config.remove_editor("4.3-csharp");
    assert_eq!(config.editors.len(), 0);
}

#[test]
fn law_register_then_remove_project() {
    let mut config = Config::default();
    let p = ProjectInfo { path: "/p".to_string(), name: "P".to_string(), bound_editor: None, last_opened: None };
    config.register_project(&p);
    config.remove_project("/p");
    assert_eq!(config.projects.len(), 0);
    assert_eq!(config.recent_project, None);
}

#[test]
fn law_compatibility_min_and_max_agree_on_equal_numbers() {
    assert!(is_version_compatible("4.3.0", "4.3", true) && is_version_compatible("4.3.0", "4.3", false));
    assert!(is_version_compatible("4.4", "4.3", true) || is_version_compatible("4.4", "4.3", false));
    assert!(!(is_version_compatible("4.4", "4.3", true) && is_version_compatible("4.4", "4.3", false)));
}

#[test]
fn law_toggling_twice_restores_repositories() {
    let mut config = Config::default();
    config.addons.repositories.push(Repository { name: "r".to_string(), url: "https://r.org".to_string() });
    toggle_repository(&mut config, "https://new.org/x").unwrap();
    toggle_repository(&mut config, "https://new.org/x").unwrap();
    assert_eq!(config.addons.repositories.len(), 1);
    assert_eq!(config.addons.repositories[0].url, "https://r.org");
}

#[test]
fn law_gdio_header_round_trip() {
    for line in ["[bitwes/gut]", "\t[a/b.c]", "[x/y z]"] {
        let quoted = quote_bare_toml_key(line);
        assert_ne!(quoted, line);
        assert_eq!(unquote_toml_key(&quoted), line);
    }
}

#[test]
fn law_recorded_time_read_back() {
    for n in [0u64, 7, 1_700_000_000, u64::MAX] {
        let stamp = decimal_string(n);
        assert_eq!(stamp, n.to_string());
        assert_ne!(relative_time_at(&stamp, 1_700_000_100), "never");
    }
}

#[test]
fn law_extra_arguments_win() {
    let merged = merge_args(
        vec!["target=editor".to_string(), "dev_build=yes".to_string()],
        &["target=template_release".to_string()],
    );
    assert_eq!(merged, vec!["dev_build=yes".to_string(), "target=template_release".to_string()]);
}

#[test]
fn written_tags_are_read_back() {
    let owned = |v: &[&str]| v.iter().map(|s| s.to_string()).collect::<Vec<String>>();
    let texts = [
        "",
        "config_version=5\n",
        "[application]\nconfig/name=\"G\"\n",
        "[application]\nconfig/tags=PackedStringArray(\"old\")\nconfig/tags=PackedStringArray(\"older\")\n",
        "; note\n[rendering]\nx=1",
    ];
    let sets = [owned(&[]), owned(&["rpg"]), owned(&["2d", "pixel art", "jam"])];
    for t in texts.iter() {
        for tags in sets.iter() {
            assert_eq!(&parse_tags(&write_tags(t, tags)), tags);
        }
    }
}
