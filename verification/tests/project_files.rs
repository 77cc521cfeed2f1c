use gdio::project::{
    can_enable_plugin, enable_plugin, parse_export_presets, parse_game_version, parse_godot_version,
    parse_project_name,
};

const PROJECT: &str = "; Engine configuration file.\n\
config_version=5\n\
\n\
[application]\n\
\n\
config/name=\"My Game\"\n\
config/version=\"v1.2.0\"\n\
config/features=PackedStringArray(\"4.3\", \"Forward Plus\")\n";

#[test]
fn reads_engine_version() {
    assert_eq!(parse_godot_version(PROJECT), Some("4.3".to_string()));
    assert_eq!(parse_godot_version("config/features=none\n"), None);
}

#[test]
fn reads_project_name() {
    assert_eq!(parse_project_name(PROJECT), Some("My Game".to_string()));
    assert_eq!(parse_project_name("[application]\n"), None);
}

#[test]
fn reads_game_version_without_v() {
    assert_eq!(parse_game_version(PROJECT), "1.2.0");
    assert_eq!(parse_game_version("config/version=\"\"\nconfig/version=\"2.0\"\n"), "2.0");
    assert_eq!(parse_game_version(""), "");
}

const PRESETS: &str = "[preset.0]\n\
\n\
name=\"Windows Desktop\"\n\
platform=\"Windows Desktop\"\n\
export_path=\"build/game.exe\"\n\
\n\
[preset.0.options]\n\
\n\
binary_format/architecture=\"x86_64\"\n\
\n\
[preset.1]\n\
\n\
name=\"Web\"\n\
platform=\"Web\"\n\
export_path=\"\"\n\
binary_format/architecture=\"wasm32\"\n";

#[test]
fn reads_export_presets() {
    let presets = parse_export_presets(PRESETS);
    assert_eq!(presets.len(), 2);
    assert_eq!(presets[0].name, "Windows Desktop");
    assert_eq!(presets[0].platform, "Windows Desktop");
    assert_eq!(presets[0].export_path, Some("build/game.exe".to_string()));
    assert_eq!(presets[0].binary_format, None);
    assert_eq!(presets[1].name, "Web");
    assert_eq!(presets[1].export_path, None);
    assert_eq!(presets[1].binary_format, Some("wasm32".to_string()));
}

#[test]
fn presets_without_name_are_dropped() {
    let presets = parse_export_presets("[preset.0]\nplatform=\"Linux\"\n[preset.1]\nname=\"L\"\n");
    assert_eq!(presets.len(), 1);
    assert_eq!(presets[0].name, "L");
    assert_eq!(presets[0].platform, "");
}

#[test]
fn enables_plugin_in_new_section() {
    let out = enable_plugin("config_version=5\n", "gut");
    assert_eq!(
        out,
        Some("config_version=5\n\n[editor_plugins]\nenabled=PackedStringArray(\"res://addons/gut/plugin.cfg\")".to_string())
    );
}

#[test]
fn enables_plugin_in_existing_array() {
    let content = "[editor_plugins]\r\nenabled=PackedStringArray(\"res://addons/a/plugin.cfg\")\r\n";
    assert!(can_enable_plugin(content, "gut"));
    let out = enable_plugin(content, "gut");
    assert_eq!(
        out,
        Some("[editor_plugins]\r\nenabled=PackedStringArray(\"res://addons/a/plugin.cfg\",\"res://addons/gut/plugin.cfg\")\r\n".to_string())
    );
}

#[test]
fn enables_plugin_after_section_header() {
    let out = enable_plugin("[editor_plugins]\n\n[rendering]\n", "gut");
    assert_eq!(
        out,
        Some("[editor_plugins]\nenabled=PackedStringArray(\"res://addons/gut/plugin.cfg\")\n\n[rendering]\n".to_string())
    );
}

#[test]
fn enabled_plugin_is_left_alone() {
    let content = "[editor_plugins]\nenabled=PackedStringArray(\"res://addons/gut/plugin.cfg\")\n";
    assert_eq!(enable_plugin(content, "gut"), None);
    let once = enable_plugin("x=1\n", "gut").unwrap();
    assert_eq!(enable_plugin(&once, "gut"), None);
}
