use gdio::addons::{
    add_linked, addon_entry_path, addon_folder_from_dir, addon_zip_name, detect_toplevel_prefix,
    gdio_text_for_parsing, gdio_text_for_writing, gitignore_add, gitignore_remove, parse_identifier,
    prune_linked_addon, quote_bare_toml_key, remove_linked, remove_project_reference, resolve_folder_name,
    split_identifier, store_dir_name, unquote_toml_key,
};
use gdio::config::{Config, GdioProject, GlobalAddonEntry, LinkedAddonInfo};

fn strings(v: &[&str]) -> Vec<String> {
    v.iter().map(|s| s.to_string()).collect()
}

#[test]
fn identifier_parts() {
    assert_eq!(parse_identifier("bitwes/gut").unwrap(), ("bitwes".to_string(), "gut".to_string()));
    assert_eq!(parse_identifier("a/b/c").unwrap(), ("a".to_string(), "b/c".to_string()));
}

#[test]
fn invalid_identifiers_are_refused() {
    for bad in ["bitwes", "/gut", "bitwes/", ""] {
        let e = parse_identifier(bad).unwrap_err();
        assert_eq!(e.identifier, bad);
        assert_eq!(
            e.message(),
            format!("Invalid identifier '{}'. Expected format: publisher/asset (e.g., bitwes/gut)", bad)
        );
    }
}

#[test]
fn store_and_archive_names() {
    assert_eq!(split_identifier("x"), None);
    assert_eq!(store_dir_name("bitwes/gut", "9.3.0"), Some("bitwes_gut_9.3.0".to_string()));
    assert_eq!(store_dir_name("gut", "9.3.0"), None);
    assert_eq!(addon_zip_name("bitwes/gut", "9.3.0"), "bitwes_gut_v9.3.0.zip");
}

#[test]
fn folder_name_resolution() {
    let mut config = Config::default();
    assert_eq!(resolve_folder_name(&config, "bitwes/gut"), Some("gut".to_string()));
    assert_eq!(resolve_folder_name(&config, "plain"), Some("plain".to_string()));
    config.addons.globals.insert(
        "bitwes/gut".to_string(),
        GlobalAddonEntry { version: None, folder_name: "gut_global".to_string(), repository: String::new(), linked: false },
    );
    assert_eq!(resolve_folder_name(&config, "bitwes/gut"), Some("gut_global".to_string()));
    config.addons.linked.insert(
        "bitwes/gut".to_string(),
        LinkedAddonInfo { version: "9.3.0".to_string(), folder_name: "gut_linked".to_string(), projects: vec![] },
    );
    assert_eq!(resolve_folder_name(&config, "bitwes/gut"), Some("gut_linked".to_string()));
}

#[test]
fn project_references_of_linked_addons() {
    let mut config = Config::default();
    config.addons.linked.insert(
        "bitwes/gut".to_string(),
        LinkedAddonInfo { version: "9.3.0".to_string(), folder_name: "gut".to_string(), projects: strings(&["/p1", "/p2"]) },
    );
    assert!(remove_project_reference(&mut config, "bitwes/gut", "/p1").is_none());
    assert_eq!(config.addons.linked.get("bitwes/gut").unwrap().projects, strings(&["/p2"]));
    let removed = remove_project_reference(&mut config, "bitwes/gut", "/p2").unwrap();
    assert_eq!(removed.version, "9.3.0");
    assert!(removed.projects.is_empty());
    assert!(config.addons.linked.get("bitwes/gut").is_none());
    assert!(remove_project_reference(&mut config, "bitwes/gut", "/p2").is_none());
}

#[test]
fn pruning_linked_addons() {
    let mut config = Config::default();
    config.addons.linked.insert(
        "a/b".to_string(),
        LinkedAddonInfo { version: "1".to_string(), folder_name: "b".to_string(), projects: strings(&["/x", "/y"]) },
    );
    assert!(prune_linked_addon(&mut config, "a/b", strings(&["/y"])).is_none());
    assert_eq!(config.addons.linked.get("a/b").unwrap().projects, strings(&["/y"]));
    let gone = prune_linked_addon(&mut config, "a/b", vec![]).unwrap();
    assert_eq!(gone.projects, strings(&["/y"]));
    assert_eq!(config.addons.linked.len(), 0);
}

#[test]
fn toml_headers_quoted_and_unquoted() {
    assert_eq!(quote_bare_toml_key("[bitwes/gut]"), "[\"bitwes/gut\"]");
    assert_eq!(quote_bare_toml_key("  [a/b]"), "  [\"a/b\"]");
    assert_eq!(quote_bare_toml_key("[section]"), "[section]");
    assert_eq!(quote_bare_toml_key("[\"a/b\"]"), "[\"a/b\"]");
    assert_eq!(unquote_toml_key("[\"bitwes/gut\"]"), "[bitwes/gut]");
    assert_eq!(unquote_toml_key("[\"plain\"]"), "[\"plain\"]");
    assert_eq!(unquote_toml_key(&quote_bare_toml_key(" [x/y]")), " [x/y]");
}

#[test]
fn gdio_texts() {
    assert_eq!(
        gdio_text_for_parsing("[bitwes/gut]\nversion = \"9.3.0\"\n"),
        "[\"bitwes/gut\"]\nversion = \"9.3.0\""
    );
    assert_eq!(
        gdio_text_for_writing("[\"bitwes/gut\"]\r\nversion = \"9.3.0\"\r\n"),
        "[bitwes/gut]\nversion = \"9.3.0\""
    );
}

#[test]
fn gitignore_entries_added_once() {
    assert_eq!(gitignore_add("", "gut"), Some("addons/gut/\n".to_string()));
    assert_eq!(gitignore_add("node_modules", "gut"), Some("node_modules\naddons/gut/\n".to_string()));
    assert_eq!(gitignore_add("a\n", "gut"), Some("a\naddons/gut/\n".to_string()));
    assert_eq!(gitignore_add("x\n  addons/gut/  \n", "gut"), None);
}

#[test]
fn gitignore_entries_removed() {
    assert_eq!(gitignore_remove("a\naddons/gut/\nb\n", "gut"), Some("a\nb\n".to_string()));
    assert_eq!(gitignore_remove("addons/gut/\n", "gut"), Some(String::new()));
    assert_eq!(gitignore_remove("a\nb", "gut"), None);
}

#[test]
fn linked_addons_recorded_in_gdio() {
    let mut gdio = GdioProject::default();
    let ignore = add_linked(&mut gdio, "", "bitwes/gut", "9.3.0", "https://store.godotengine.org", "gut");
    assert_eq!(ignore, Some("addons/gut/\n".to_string()));
    let entry = gdio.addons.get("bitwes/gut").unwrap();
    assert_eq!(entry.version, "9.3.0");
    assert_eq!(entry.repository, "https://store.godotengine.org");
    let ignore = remove_linked(&mut gdio, Some("addons/gut/\n"), "bitwes/gut", "gut");
    assert_eq!(ignore, Some(String::new()));
    assert!(gdio.addons.get("bitwes/gut").is_none());
    assert_eq!(remove_linked(&mut gdio, None, "bitwes/gut", "gut"), None);
}

#[test]
fn archive_top_level_directory() {
    let entries = strings(&["gut-main/", "gut-main/addons/", "gut-main/addons/gut/plugin.cfg"]);
    assert_eq!(detect_toplevel_prefix(&entries), Some("gut-main/".to_string()));
    assert_eq!(detect_toplevel_prefix(&strings(&["addons/gut/plugin.cfg", "addons/"])), None);
    assert_eq!(detect_toplevel_prefix(&strings(&["a/x", "b/y"])), None);
    assert_eq!(detect_toplevel_prefix(&strings(&["readme.txt"])), None);
    assert_eq!(detect_toplevel_prefix(&[]), None);
}

#[test]
fn archive_entry_targets() {
    let p = Some("gut-main/");
    assert_eq!(addon_entry_path("gut-main/addons/gut/plugin.cfg", p, true), Some("gut/plugin.cfg".to_string()));
    assert_eq!(addon_entry_path("gut-main/addons/gut/plugin.cfg", p, false), Some("addons/gut/plugin.cfg".to_string()));
    assert_eq!(addon_entry_path("gut-main/", p, false), None);
    assert_eq!(addon_entry_path("gut-main", p, false), None);
    assert_eq!(addon_entry_path("addons/", None, true), None);
    assert_eq!(addon_entry_path("x/y", None, false), Some("x/y".to_string()));
    assert_eq!(addon_folder_from_dir("addons/gut/", false), Some("gut".to_string()));
    assert_eq!(addon_folder_from_dir("gut/sub/", true), Some("gut".to_string()));
    assert_eq!(addon_folder_from_dir("addons/", false), None);
}

#[test]
fn link_then_unlink_restores_entries_and_gitignore() {
    let mut gdio = GdioProject::default();
    gdio.addons.insert(
        "other/addon".to_string(),
        gdio::config::GdioAddonEntry { version: "1.0".to_string(), repository: String::new() },
    );
    let before = "*.import\n.godot/\nexport/";
    let added = add_linked(&mut gdio, before, "bitwes/gut", "9.3.0", "https://store.godotengine.org", "gut").unwrap();
    assert_eq!(added, "*.import\n.godot/\nexport/\naddons/gut/\n");
    let after = remove_linked(&mut gdio, Some(&added), "bitwes/gut", "gut").unwrap();
    assert_eq!(after.lines().collect::<Vec<_>>(), before.lines().collect::<Vec<_>>());
    assert_eq!(gdio.addons.len(), 1);
    assert!(gdio.addons.contains_key("other/addon"));
    assert!(!gdio.addons.contains_key("bitwes/gut"));
}
