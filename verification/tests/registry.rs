use gdio::config::{
    format_relative_time, relative_time_at, Config, EditorInfo, EditorSource, ItchProjectConfig, ProjectInfo,
};
use gdio::github::{
    find_editor_asset, pick_editor_executable, pick_release, release_stage_priority, release_tag, GitHubAsset,
    GitHubRelease,
};
use gdio::gdre::{find_platform_asset, gdre_exe_name, gdre_is_current, gdre_latest_version, gdre_needs_update, record_gdre_check};
use gdio::platform::{detect_platforms, godot_platform_to_gdio, join_path, platform_template_files, PlatformFlags, TargetOs};
use gdio::projects::relative_time_words;
use gdio::shared::{chrono_now, register_opened_project};

fn editor(version: &str, mono: bool) -> EditorInfo {
    EditorInfo {
        name: format!("Godot v{}", version),
        path: format!("/opt/godot/{}", version),
        version: version.to_string(),
        is_mono: mono,
        source: EditorSource::Downloaded,
    }
}

fn project(path: &str) -> ProjectInfo {
    ProjectInfo { path: path.to_string(), name: "Game".to_string(), bound_editor: None, last_opened: None }
}

fn asset(name: &str) -> GitHubAsset {
    GitHubAsset { name: name.to_string(), browser_download_url: format!("https://dl/{}", name) }
}

#[test]
fn registered_editor_is_found() {
    let mut config = Config::default();
    config.register_editor(editor("4.3.1", false));
    config.register_editor(editor("4.2", true));
    assert_eq!(config.find_editor_for_version("4.3.1").unwrap().version, "4.3.1");
    assert_eq!(config.find_editor_for_version("v4.3").unwrap().version, "4.3.1");
    assert_eq!(config.find_editor_for_version("4.2-csharp").unwrap().version, "4.2");
    assert!(config.find_editor_for_version("3.5").is_none());
    let removed = config.remove_editor("4.3.1").unwrap();
    assert_eq!(removed.path, "/opt/godot/4.3.1");
    assert!(config.find_editor_for_version("4.3.1").is_none());
}

#[test]
fn editor_keys() {
    assert_eq!(editor("4.2", true).key(), "4.2-csharp");
    assert_eq!(editor("4.2", false).key(), "4.2");
}

#[test]
fn projects_and_recent_project() {
    let mut config = Config::default();
    config.register_project(&project("/games/a"));
    config.register_project(&project("/games/b"));
    assert_eq!(config.recent_project.as_deref(), Some("/games/b"));
    config.update_project_editor("/games/a", "4.3");
    assert_eq!(config.projects.get("/games/a").unwrap().bound_editor.as_deref(), Some("4.3"));
    config.update_project_editor("/games/none", "4.3");
    assert!(config.projects.get("/games/none").is_none());
    assert!(config.remove_project("/games/a").is_some());
    assert_eq!(config.recent_project.as_deref(), Some("/games/b"));
    assert!(config.remove_project("/games/b").is_some());
    assert_eq!(config.recent_project, None);
    assert!(config.remove_project("/games/b").is_none());
}

#[test]
fn opened_project_recorded_now() {
    let mut config = Config::default();
    register_opened_project(&mut config, "/games/c".to_string(), "C".to_string(), "4.3");
    let p = config.projects.get("/games/c").unwrap();
    assert_eq!(p.bound_editor.as_deref(), Some("4.3"));
    let stamp = p.last_opened.clone().unwrap();
    assert!(stamp.chars().all(|c| c.is_ascii_digit()));
    assert_ne!(format_relative_time(&stamp), "never");
    assert_eq!(config.recent_project.as_deref(), Some("/games/c"));
    let now = chrono_now();
    assert!(now.parse::<u64>().is_ok());
}

#[test]
fn itch_settings() {
    let mut config = Config::default();
    assert!(config.get_itch_config().is_none());
    assert!(config.get_itch_project("/g").is_none());
    config.set_itch_project("/g", ItchProjectConfig { game: "me/game".to_string() });
    assert_eq!(config.get_itch_project("/g").unwrap().game, "me/game");
    assert_eq!(config.get_itch_config().unwrap().butler_path, "butler");
    let itch = config.get_or_default_itch();
    itch.butler_path = "/opt/butler".to_string();
    assert_eq!(config.get_itch_config().unwrap().butler_path, "/opt/butler");
    assert_eq!(config.get_itch_project("/g").unwrap().game, "me/game");
}

#[test]
fn directories() {
    assert_eq!(Config::get_editors_dir("/home/u/.config/gdio", TargetOs::Linux), "/home/u/.config/gdio/editors");
    assert_eq!(Config::get_downloads_dir("/c", TargetOs::Linux), "/c/downloads");
    assert_eq!(join_path("a/", "b", TargetOs::Linux), "a/b");
    assert_eq!(join_path("", "b", TargetOs::Linux), "b");
    assert_eq!(join_path("C:\\x", "y", TargetOs::Windows), "C:\\x\\y");
}

#[test]
fn relative_times() {
    assert_eq!(relative_time_at("abc", 0), "never");
    assert_eq!(relative_time_at("200", 100), "just now");
    assert_eq!(relative_time_at("100", 130), "just now");
    assert_eq!(relative_time_at("0", 60), "1 min ago");
    assert_eq!(relative_time_at("0", 125), "2 min ago");
    assert_eq!(relative_time_at("0", 3600), "1 h ago");
    assert_eq!(relative_time_at("0", 5400), "1 h 30 min ago");
    assert_eq!(relative_time_at("0", 7200 + 60), "2 h 1 min ago");
    assert_eq!(relative_time_at("0", 8 * 86400), "1 week 1 d ago");
    assert_eq!(relative_time_at("0", 14 * 86400), "2 weeks ago");
    assert_eq!(relative_time_at("0", 45 * 86400), "1 month ago");
    assert_eq!(relative_time_at("0", 800 * 86400), "2 years ago");
}

#[test]
fn relative_times_in_words() {
    assert_eq!(relative_time_words("x", 10), "never");
    assert_eq!(relative_time_words("20", 10), "just now");
    assert_eq!(relative_time_words("0", 3600), "1 hour ago");
    assert_eq!(relative_time_words("0", 3 * 86400), "3 days ago");
}

#[test]
fn release_tags_and_stages() {
    assert_eq!(release_tag("4.3", "stable"), "4.3-stable");
    assert_eq!(release_stage_priority("stable"), 100);
    assert_eq!(release_stage_priority("rc2"), 82);
    assert_eq!(release_stage_priority("beta"), 60);
    assert_eq!(release_stage_priority("dev3"), 43);
    assert_eq!(release_stage_priority("alpha1"), 21);
    assert_eq!(release_stage_priority("custom"), 0);
}

#[test]
fn best_release_chosen() {
    let rel = |tag: &str| GitHubRelease { tag_name: tag.to_string(), assets: vec![] };
    let releases = vec![rel("4.3-beta1"), rel("4.3-rc2"), rel("4.3-rc1"), rel("4.2-stable"), rel("4.3-rc2")];
    assert_eq!(pick_release(&releases, "4.3"), Some((1, "rc2".to_string())));
    assert_eq!(pick_release(&releases, "4.2"), Some((3, "stable".to_string())));
    assert_eq!(pick_release(&releases, "4.4"), None);
}

#[test]
fn editor_assets() {
    let release = GitHubRelease {
        tag_name: "4.3-stable".to_string(),
        assets: vec![
            asset("Godot_v4.3-stable_export_templates.tpz"),
            asset("Godot_v4.3-stable_linux.x86_64.zip"),
            asset("Godot_v4.3-stable_mono_linux_x86_64.zip"),
            asset("Godot_v4.3-stable_win64.exe.zip"),
            asset("Godot_v4.3-stable_win64_console.exe.zip"),
            asset("Godot_v4.3-stable_mono_win64.zip"),
        ],
    };
    assert_eq!(find_editor_asset(&release, false, TargetOs::Linux).unwrap().name, "Godot_v4.3-stable_linux.x86_64.zip");
    assert!(find_editor_asset(&release, true, TargetOs::Linux).is_none());
    assert_eq!(find_editor_asset(&release, false, TargetOs::Windows).unwrap().name, "Godot_v4.3-stable_win64_console.exe.zip");
    assert_eq!(find_editor_asset(&release, true, TargetOs::Windows).unwrap().name, "Godot_v4.3-stable_mono_win64.zip");
    assert!(find_editor_asset(&release, false, TargetOs::Other).is_none());
}

#[test]
fn editor_executable_chosen() {
    let files = vec![
        ("readme.txt".to_string(), false),
        ("Godot_v4.3-stable_win64.exe".to_string(), true),
        ("Godot_v4.3-stable_win64_console.exe".to_string(), true),
    ];
    assert_eq!(pick_editor_executable(&files), Some(2));
    assert_eq!(pick_editor_executable(&files[..2]), Some(1));
    assert_eq!(pick_editor_executable(&[("godot".to_string(), false)]), None);
}

#[test]
fn gdre_tools() {
    let release = GitHubRelease {
        tag_name: "v1.0.0".to_string(),
        assets: vec![asset("GDRE_tools-v1.0.0-android.zip"), asset("GDRE_tools-v1.0.0-Linux.zip")],
    };
    assert_eq!(find_platform_asset(&release, TargetOs::Linux).unwrap().name, "GDRE_tools-v1.0.0-Linux.zip");
    assert!(find_platform_asset(&release, TargetOs::Windows).is_none());
    assert!(find_platform_asset(&release, TargetOs::Other).is_none());
    assert_eq!(gdre_exe_name(TargetOs::Windows), "gdre_tools.exe");
    assert_eq!(gdre_latest_version("vv1.0.0"), "1.0.0");
    let mut config = Config::default();
    assert!(gdre_needs_update(&config, "1.0.0", true) == false);
    assert!(gdre_needs_update(&config, "1.0.0", false));
    record_gdre_check(&mut config, Some("0.9".to_string()), 1000);
    assert!(gdre_needs_update(&config, "1.0.0", true));
    assert!(gdre_is_current(&config, true, 1000 + 86399));
    assert!(!gdre_is_current(&config, true, 1000 + 86400));
    assert!(!gdre_is_current(&config, false, 1000));
    assert!(gdre_is_current(&config, true, 10));
}

#[test]
fn platforms() {
    assert_eq!(platform_template_files("macos"), vec!["macos.zip"]);
    assert_eq!(platform_template_files("android").len(), 3);
    assert!(platform_template_files("amiga").is_empty());
    assert_eq!(godot_platform_to_gdio("Windows Desktop"), Some("windows"));
    assert_eq!(godot_platform_to_gdio("HTML5"), Some("web"));
    assert_eq!(godot_platform_to_gdio("Amiga"), None);
    let files = vec!["windows_debug_x86_64.exe".to_string(), "web_release.zip".to_string()];
    assert_eq!(detect_platforms(&files), vec!["windows".to_string(), "web".to_string()]);
    let flags = PlatformFlags { linux: true, android: true, ..Default::default() };
    assert!(flags.any());
    assert_eq!(flags.to_platforms(), vec!["linux".to_string(), "android".to_string()]);
    assert!(!PlatformFlags::default().any());
}
