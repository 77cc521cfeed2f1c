use gdio::addons::addon_folder_of;
use gdio::config::Config;
use gdio::platform::TargetOs;
use gdio::upload::export_output_path;

fn entries(v: &[(&str, bool)]) -> Vec<(String, bool)> {
    v.iter().map(|(s, d)| (s.to_string(), *d)).collect()
}

#[test]
fn gdio_data_lives_in_dot_config() {
    let linux = Config::config_dir(TargetOs::Linux, "/home/u", "");
    assert_eq!(linux, "/home/u/.config/gdio");
    let mac = Config::config_dir(TargetOs::MacOs, "/Users/u", "");
    assert_eq!(mac, "/Users/u/.config/gdio");
    assert_eq!(Config::get_editors_dir(&mac, TargetOs::MacOs), "/Users/u/.config/gdio/editors");
    assert_eq!(
        Config::config_dir(TargetOs::Windows, "C:\\Users\\u", "C:\\Users\\u\\AppData\\Roaming"),
        "C:\\Users\\u\\AppData\\Roaming\\gdio"
    );
    assert_eq!(Config::config_path(&linux, TargetOs::Linux), "/home/u/.config/gdio/config.json");
}

#[test]
fn templates_go_where_godot_expects_them() {
    let linux = Config::get_godot_data_dir(TargetOs::Linux, "/home/u", "");
    assert_eq!(linux, "/home/u/.local/share/godot");
    assert_eq!(
        Config::get_godot_templates_dir(&linux, TargetOs::Linux),
        "/home/u/.local/share/godot/export_templates"
    );
    assert_eq!(
        Config::get_godot_data_dir(TargetOs::MacOs, "/Users/u", ""),
        "/Users/u/Library/Application Support/Godot"
    );
    assert_eq!(
        Config::get_godot_data_dir(TargetOs::Windows, "C:\\Users\\u", "C:\\AppData"),
        "C:\\AppData\\Godot"
    );
}

#[test]
fn addon_folder_from_directory_entries() {
    let es = entries(&[("README.md", false), ("gut/", true), ("gut/plugin.cfg", false)]);
    assert_eq!(addon_folder_of(&es, true), Some("gut".to_string()));
    let es = entries(&[("addons/", true), ("addons/dialogic/", true), ("addons/dialogic/x.gd", false)]);
    assert_eq!(addon_folder_of(&es, false), Some("dialogic".to_string()));
}

#[test]
fn addon_folder_from_file_only_archive() {
    let es = entries(&[("gut/plugin.cfg", false), ("gut/gut.gd", false)]);
    assert_eq!(addon_folder_of(&es, true), Some("gut".to_string()));
    let es = entries(&[("addons/gut/x.gd", false)]);
    assert_eq!(addon_folder_of(&es, false), Some("gut".to_string()));
    let es = entries(&[("LICENSE", false)]);
    assert_eq!(addon_folder_of(&es, true), None);
    assert_eq!(addon_folder_of(&[], true), None);
}

#[test]
fn export_paths_by_platform() {
    let out = |p: &str, bf: Option<&str>| export_output_path("/g", "/g/export", "my_game", p, None, bf, TargetOs::Linux);
    assert_eq!(out("windows", None), "/g/export/windows/my_game.exe");
    assert_eq!(out("linux", None), "/g/export/linux/my_game.x86_64");
    assert_eq!(out("macos", None), "/g/export/macos/my_game.zip");
    assert_eq!(out("web", None), "/g/export/web/index.html");
    assert_eq!(out("android", None), "/g/export/android/my_game.apk");
    assert_eq!(out("android", Some("1")), "/g/export/android/my_game.aab");
    assert_eq!(out("ios", None), "/g/export/ios/my_game.ipa");
}

#[test]
fn export_path_of_the_preset_wins() {
    assert_eq!(
        export_output_path("/g", "/g/export", "my_game", "linux", Some("build/game.x86_64"), None, TargetOs::Linux),
        "/g/build/game.x86_64"
    );
    assert_eq!(
        export_output_path("/g", "/g/export", "my_game", "linux", Some("/tmp/out.x86_64"), None, TargetOs::Linux),
        "/tmp/out.x86_64"
    );
    assert_eq!(
        export_output_path("/g", "/g/export", "my_game", "linux", Some(""), None, TargetOs::Linux),
        "/g/export/linux/my_game.x86_64"
    );
    assert_eq!(
        export_output_path("C:\\g", "C:\\g\\export", "my_game", "windows", None, None, TargetOs::Windows),
        "C:\\g\\export\\windows\\my_game.exe"
    );
}
