use gdio::addons::identifier_for_folder;
use gdio::ci::{ci_tag, fill_workflow, replace_all};
use gdio::config::{Config, EditorInfo, EditorSource, GdioAddonEntry, GdioProject, LinkedAddonInfo, ProjectInfo};
use gdio::editors::{bind_candidate, editor_label_of, editor_listing, editor_total_line, removal_matches};
use gdio::globals::plugin_names;
use gdio::launch::{custom_args, new_project_text, script_args};
use gdio::project::ExportPreset;
use gdio::projects::{project_editor_name, project_list_line, project_opened_words, projects_by_recency};
use gdio::tags::{parse_tags, tags_setting_line, tags_summary, toggle_tag, write_tags};
use gdio::template_install::template_download_tasks;
use gdio::upload::{preset_platforms, presets_to_export};

fn strings(v: &[&str]) -> Vec<String> {
    v.iter().map(|s| s.to_string()).collect()
}

fn editor(name: &str, version: &str, mono: bool) -> EditorInfo {
    EditorInfo {
        name: name.to_string(),
        path: format!("/e/{}", version),
        version: version.to_string(),
        is_mono: mono,
        source: EditorSource::Downloaded,
    }
}

fn config_with_editors() -> Config {
    let mut config = Config::default();
    config.register_editor(editor("Godot v4.3-stable", "4.3-stable", false));
    config.register_editor(editor("Godot v4.2-stable-csharp", "4.2-stable", true));
    config.register_editor(editor("My Build", "local", false));
    config
}

#[test]
fn project_tags() {
    let content = "[application]\nconfig/name=\"G\"\nconfig/tags=PackedStringArray(\"rpg\", \"2d\")\n";
    assert_eq!(parse_tags(content), strings(&["rpg", "2d"]));
    assert!(parse_tags("[application]\n").is_empty());
    let mut tags = parse_tags(content);
    assert!(!toggle_tag(&mut tags, "RPG"));
    assert_eq!(tags, strings(&["2d"]));
    assert!(toggle_tag(&mut tags, "Puzzle"));
    assert_eq!(tags, strings(&["2d", "puzzle"]));
    assert_eq!(tags_setting_line(&tags), "config/tags=PackedStringArray(\"2d\", \"puzzle\")");
    let written = write_tags(content, &tags);
    assert_eq!(written, "[application]\nconfig/name=\"G\"\nconfig/tags=PackedStringArray(\"2d\", \"puzzle\")\n");
    assert_eq!(parse_tags(&written), tags);
    assert_eq!(
        write_tags("; c\n[application]\nconfig/name=\"G\"\n", &strings(&["a"])),
        "; c\n[application]\nconfig/tags=PackedStringArray(\"a\")\nconfig/name=\"G\"\n"
    );
    assert_eq!(write_tags("x=1", &strings(&[])), "x=1\n[application]\nconfig/tags=PackedStringArray()\n");
    assert_eq!(tags_summary(&strings(&["b", "a"])), "Tags: a, b");
    assert_eq!(tags_summary(&[]), "No tags");
}

#[test]
fn editor_selection() {
    let config = config_with_editors();
    let mut keys = removal_matches(&config, "4.");
    keys.sort();
    assert_eq!(keys, strings(&["4.2-stable-csharp", "4.3-stable"]));
    assert_eq!(removal_matches(&config, "my build"), strings(&["local"]));
    assert!(removal_matches(&config, "zzz").is_empty());
    assert_eq!(bind_candidate(&config, "BUILD").unwrap().name, "My Build");
    assert_eq!(bind_candidate(&config, "4.3").unwrap().version, "4.3-stable");
    assert!(bind_candidate(&config, "5.0").is_none());
    assert_eq!(editor_label_of(&editor("N", "1", false)), "N (1)");
}

#[test]
fn editor_list_lines() {
    let config = config_with_editors();
    let lines = editor_listing(&config);
    assert_eq!(
        lines,
        vec![
            format!("{:<35} {}", "Godot v4.2-stable-csharp (4.2-stable)", "/e/4.2-stable"),
            format!("{:<35} {}", "Godot v4.3-stable (4.3-stable)", "/e/4.3-stable"),
            format!("{:<35} {}", "My Build (local)", "/e/local"),
        ]
    );
    assert_eq!(editor_total_line(&config), "Total: 3 editor(s)");
}

#[test]
fn project_listing() {
    let mut config = config_with_editors();
    let p = |path: &str, name: &str, editor: Option<&str>, at: Option<&str>| ProjectInfo {
        path: path.to_string(),
        name: name.to_string(),
        bound_editor: editor.map(|s| s.to_string()),
        last_opened: at.map(|s| s.to_string()),
    };
    config.register_project(&p("/a", "A", Some("4.3-stable"), Some("100")));
    config.register_project(&p("/b", "B", None, None));
    config.register_project(&p("/c", "C", Some("9.9"), Some("200")));
    let order: Vec<String> = projects_by_recency(&config).into_iter().map(|p| p.path).collect();
    assert_eq!(order, strings(&["/c", "/a", "/b"]));
    assert_eq!(project_editor_name(&config, config.projects.get("/a").unwrap()), "Godot v4.3-stable");
    assert_eq!(project_editor_name(&config, config.projects.get("/b").unwrap()), "none");
    assert_eq!(project_editor_name(&config, config.projects.get("/c").unwrap()), "none");
    assert_eq!(project_opened_words(config.projects.get("/b").unwrap()), "never");
    assert_ne!(project_opened_words(config.projects.get("/a").unwrap()), "never");
    let long = "x".repeat(40);
    let line = project_list_line(&long, "Godot v4.3-stable-csharp", "just now");
    assert_eq!(line, format!("{:<40} {:<20} {}", format!("{}...", "x".repeat(37)), "Godot v4.3-stable...", "just now"));
    assert_eq!(project_list_line("A", "none", "never"), format!("{:<40} {:<20} {}", "A", "none", "never"));
}

#[test]
fn command_lines_and_workflows() {
    assert_eq!(custom_args("/p", &strings(&["-e", "--verbose"])), strings(&["--path", "/p", "-e", "--verbose"]));
    assert_eq!(script_args("res://s.gd"), strings(&["--headless", "--script", "res://s.gd"]));
    assert_eq!(new_project_text("Game"), "[application]\nconfig/name=\"Game\"\n");
    assert_eq!(replace_all("a{x}b{x}", "{x}", "1"), "a1b1");
    assert_eq!(replace_all("aaa", "aa", "b"), "ba");
    assert_eq!(ci_tag("4.3-stable"), ("4.3.stable".to_string(), true));
    assert_eq!(ci_tag("4.4-rc1"), ("4.4.rc1".to_string(), false));
    assert_eq!(fill_workflow("v={tag} cs={csharp_bool} {tag}", "4.3.stable", true), "v=4.3.stable cs=true 4.3.stable");
}

#[test]
fn export_preset_selection() {
    let preset = |name: &str, platform: &str| ExportPreset {
        name: name.to_string(),
        platform: platform.to_string(),
        export_path: None,
        binary_format: None,
    };
    let presets = vec![preset("Web", "Web"), preset("Win", "Windows Desktop"), preset("X", "Amiga"), preset("Web2", "Web")];
    assert_eq!(preset_platforms(&presets), strings(&["web", "windows"]));
    assert_eq!(presets_to_export(&presets, &strings(&["web"])), vec![0, 3]);
    assert_eq!(presets_to_export(&presets, &strings(&["windows", "linux"])), vec![1]);
}

#[test]
fn template_variants() {
    let all = template_download_tasks(&strings(&["windows"]), false, false);
    assert_eq!(all.len(), 12);
    let debug = template_download_tasks(&strings(&["windows", "macos"]), true, false);
    assert!(debug.iter().all(|(_, f)| !f.contains("release")));
    assert!(debug.iter().any(|(p, f)| p == "macos" && f == "macos.zip"));
    let release = template_download_tasks(&strings(&["linux"]), false, true);
    assert!(release.iter().all(|(p, f)| p == "linux" && f.contains("release")));
}

#[test]
fn folders_and_plugins() {
    let mut config = Config::default();
    let mut gdio = GdioProject::default();
    gdio.addons.insert("bitwes/gut".to_string(), GdioAddonEntry { version: "1".to_string(), repository: String::new() });
    config.addons.linked.insert(
        "a/b".to_string(),
        LinkedAddonInfo { version: "1".to_string(), folder_name: "bfolder".to_string(), projects: vec![] },
    );
    assert_eq!(identifier_for_folder(&gdio, &config, "gut").as_deref(), Some("bitwes/gut"));
    assert_eq!(identifier_for_folder(&gdio, &config, "bfolder").as_deref(), Some("a/b"));
    assert_eq!(identifier_for_folder(&gdio, &config, "none"), None);
    assert!(plugin_names("[plugin]\nname=\"Gut\"\n", "gut"));
    assert!(!plugin_names("[plugin]\nname=\"Gutter\"\n", "gut"));
    assert!(!plugin_names("title=\"gut\"", "gut"));
}
