use gdio::config::{Config, EditorInfo, EditorSource, ProjectInfo};
use gdio::editors::{
    editor_dir_name, editor_menu, editor_named, name_taken_message, register_downloaded_editor, register_local_editor,
    unquoted_path,
};
use gdio::gut::{gut_args, pick_gut_release};
use gdio::launch::{butler_push_args, butler_zip_name, export_args, import_args, open_args, upload_zip_name, valid_game_id, CpuArch};
use gdio::news::{latest_news, latest_summary_width, news_tick, NewsState};
use gdio::platform::TargetOs;
use gdio::recovery::find_recoverable_files;
use gdio::releases::Release;
use gdio::shared::remove_missing_projects;
use gdio::shell::{
    cleanup_script, completion_removal_paths, completions_install_path, detect_shell, get_install_dir, ShellEnv, ShellKind,
};
use gdio::store_api::{
    is_missing_addon_error, is_transient_error, release_from_fields, release_list_url, release_tag_url, releases_url,
    retry_delay,
};
use gdio::template_install::{range_header, range_length};

fn strings(v: &[&str]) -> Vec<String> {
    v.iter().map(|s| s.to_string()).collect()
}

#[test]
fn downloaded_editors_register_once() {
    let mut config = Config::default();
    let e = register_downloaded_editor(&mut config, "/e/godot".to_string(), "4.3-stable", false, true).unwrap();
    assert_eq!(e.name, "Godot v4.3-stable-csharp");
    assert!(e.is_mono);
    assert_eq!(e.source, EditorSource::Downloaded);
    assert_eq!(config.editors.get("4.3-stable-csharp").unwrap().path, "/e/godot");
    assert!(register_downloaded_editor(&mut config, "/e/other".to_string(), "4.3-stable", false, false).is_none());
    assert!(register_downloaded_editor(&mut config, "/e/4.2".to_string(), "4.2-stable", false, false).is_some());
    assert_eq!(editor_dir_name("4.3", Some("rc1"), false, TargetOs::Linux), "Godot_v4.3-rc1_linux");
    assert_eq!(editor_dir_name("4.3", None, true, TargetOs::Windows), "Godot_v4.3_mono_win64");
}

#[test]
fn local_editors() {
    assert_eq!(unquoted_path("\"'/opt/godot'\""), "/opt/godot");
    assert_eq!(unquoted_path("plain"), "plain");
    assert_eq!(unquoted_path("\"\""), "");
    let mut config = Config::default();
    let e = register_local_editor(&mut config, "mine".to_string(), "/opt/godot".to_string());
    assert_eq!(e.version, "local");
    assert_eq!(config.editors.get("local").unwrap().name, "mine");
    let found = editor_named(&config, "mine").unwrap();
    assert_eq!(name_taken_message(found, "mine"), "'mine' taken by local (/opt/godot)");
    assert!(editor_named(&config, "other").is_none());
    assert_eq!(editor_menu(&config), strings(&["mine", "[add editor]"]));
    let d = EditorInfo {
        name: "n".to_string(),
        path: "/p".to_string(),
        version: "4".to_string(),
        is_mono: false,
        source: EditorSource::Downloaded,
    };
    assert_eq!(name_taken_message(&d, "n"), "'n' taken by downloaded (/p)");
}

#[test]
fn recoverable_file_choice() {
    let files = strings(&["b.pck", "setup.exe", "a.PCK", "game.apk", ".pck", "My Game.exe"]);
    assert_eq!(find_recoverable_files(&files), strings(&["a.PCK", "b.pck"]));
    let files = strings(&["x.apk", "godot_game.EXE"]);
    assert_eq!(find_recoverable_files(&files), strings(&["x.apk"]));
    let files = strings(&["tool.exe", "Game.exe", "godot.exe", "readme"]);
    assert_eq!(find_recoverable_files(&files), strings(&["Game.exe", "godot.exe"]));
    assert!(find_recoverable_files(&strings(&["notes.txt"])).is_empty());
}

#[test]
fn godot_and_butler_command_lines() {
    assert_eq!(import_args("/p"), strings(&["--headless", "--path", "/p", "--import"]));
    assert_eq!(open_args("/p", true), strings(&["--path", "/p", "--editor"]));
    assert_eq!(open_args("/p", false), strings(&["--path", "/p", "--game"]));
    assert_eq!(
        export_args("/p", "Web", "/p/export/web/index.html", false),
        strings(&["--headless", "--path", "/p", "--export-release", "Web", "/p/export/web/index.html"])
    );
    assert_eq!(export_args("/p", "W", "o", true)[3], "--export-debug");
    assert!(valid_game_id("me/game"));
    assert!(!valid_game_id("game"));
    assert_eq!(upload_zip_name("Game", "web", "1.0"), "Game-web-v1.0.zip");
    assert_eq!(
        butler_push_args("/t/g.zip", "me/game", "web-v1.0", "1.0"),
        strings(&["push", "/t/g.zip", "me/game:web-v1.0", "--userversion", "1.0"])
    );
    assert_eq!(butler_zip_name(TargetOs::MacOs, CpuArch::Aarch64).as_deref(), Some("butler-darwin-arm64.zip"));
    assert_eq!(butler_zip_name(TargetOs::Windows, CpuArch::X86_64).as_deref(), Some("butler-windows-amd64.zip"));
    assert_eq!(butler_zip_name(TargetOs::Windows, CpuArch::Aarch64), None);
}

fn env(xdg: bool) -> ShellEnv {
    ShellEnv {
        home: "/home/u".to_string(),
        brew_prefix: Some("/opt/homebrew".to_string()),
        xdg_data_home: if xdg { Some("/x/data".to_string()) } else { None },
        zdotdir: None,
        xdg_config_home: if xdg { Some("/x/config".to_string()) } else { None },
    }
}

#[test]
fn shells_and_completions() {
    assert_eq!(detect_shell(Some("zsh"), false), ShellKind::Zsh);
    assert_eq!(detect_shell(Some("sh"), true), ShellKind::Bash);
    assert_eq!(detect_shell(Some("nu"), true), ShellKind::PowerShell);
    assert_eq!(detect_shell(None, false), ShellKind::Bash);
    assert_eq!(
        completions_install_path(ShellKind::Bash, &env(false), TargetOs::Linux).as_deref(),
        Some("/home/u/.local/share/bash-completion/completions/gdio")
    );
    assert_eq!(
        completions_install_path(ShellKind::Bash, &env(true), TargetOs::MacOs).as_deref(),
        Some("/opt/homebrew/etc/bash_completion.d/gdio")
    );
    assert_eq!(
        completions_install_path(ShellKind::Fish, &env(true), TargetOs::Linux).as_deref(),
        Some("/x/config/fish/completions/gdio.fish")
    );
    assert_eq!(
        completions_install_path(ShellKind::PowerShell, &env(false), TargetOs::Windows).as_deref(),
        Some("/home/u\\Documents/PowerShell/Modules/gdio/gdio.psm1")
    );
    assert_eq!(completions_install_path(ShellKind::Elvish, &env(false), TargetOs::Linux), None);
    let paths = completion_removal_paths(&env(true), TargetOs::Linux);
    assert_eq!(paths.len(), 6);
    assert_eq!(paths[2], "/x/data/bash-completion/completions/gdio");
    assert_eq!(paths[5], "/x/config/powershell/Modules/gdio/gdio.psm1");
}

#[test]
fn installation_and_cleanup() {
    assert_eq!(get_install_dir(Some("/custom"), TargetOs::Linux, None, Some("/h")), "/custom");
    assert_eq!(get_install_dir(None, TargetOs::Linux, None, Some("/h")), "/h/.gdio/bin");
    assert_eq!(get_install_dir(None, TargetOs::Windows, Some("C:\\Data"), None), "C:\\Data\\gdio\\bin");
    assert_eq!(get_install_dir(None, TargetOs::Linux, None, None), "./.gdio/bin");
    assert_eq!(
        cleanup_script(42, "/h/.gdio/bin", false),
        "#!/bin/sh\nwhile kill -0 42 2>/dev/null; do\n\tsleep 1\ndone\nrm -rf \"/h/.gdio/bin\"\n"
    );
    assert_eq!(
        cleanup_script(7, "C:\\it's", true),
        "while (Get-Process -Id 7 -ErrorAction SilentlyContinue) { Start-Sleep -Seconds 1 }; Remove-Item -Path 'C:\\it''s' -Recurse -Force -ErrorAction SilentlyContinue"
    );
}

fn release(v: &str, stable: bool) -> Release {
    Release { download_url: format!("u{}", v), version: v.to_string(), stable, min_godot_version: None, max_godot_version: None }
}

#[test]
fn gut_runs_and_release() {
    assert_eq!(
        gut_args(false, "/p", None, false),
        strings(&["--headless", "--path", "/p", "-s", "addons/gut/gut_cmdln.gd", "-gdir=res://", "-ginclude_subdirs", "-gexit"])
    );
    assert_eq!(
        gut_args(true, "/p", Some("/\\tests/unit"), true),
        strings(&["--path", "/p", "-s", "addons/gut/gut_cmdln.gd", "-gdir=res://tests/unit", "-gcompact_mode"])
    );
    assert_eq!(gut_args(false, "/p", None, true).len(), 6);
    let rs = vec![release("9.2.0", true), release("9.10.0", false), release("9.3.0", true), release("9.3", true)];
    assert_eq!(pick_gut_release(&rs), Some(3));
    assert_eq!(pick_gut_release(&[release("1", false), release("2", false)]), Some(0));
    assert_eq!(pick_gut_release(&[]), None);
}

#[test]
fn latest_news_item() {
    let xml = "<rss><title>Feed</title><item><title> Godot 4.3 </title><link>https://g/4.3</link>\
               <pubDate>Thu, 15 Aug 2024 12:00:00 +0000</pubDate><summary>Big</summary></item></rss>";
    let item = latest_news(xml);
    assert_eq!(item.title, "Godot 4.3");
    assert_eq!(item.link, "https://g/4.3");
    assert_eq!(item.pub_date, "15 Aug");
    assert_eq!(item.summary, "Big");
    assert_eq!(latest_news("<title>Only</title>").title, "Only");
    assert_eq!(latest_summary_width(100), 90);
    assert_eq!(latest_summary_width(4), 0);
}

#[test]
fn news_is_not_repeated() {
    let mut st = NewsState { last_shown_url: None, last_shown_at: None, shown_count: None };
    assert!(news_tick(&mut st, "a", 1000));
    assert_eq!((st.shown_count, st.last_shown_at), (Some(1), Some(1000)));
    assert!(!news_tick(&mut st, "a", 1000 + 3600));
    assert!(news_tick(&mut st, "a", 1000 + 43200));
    assert_eq!(st.shown_count, Some(2));
    assert!(news_tick(&mut st, "a", 100_000));
    assert!(news_tick(&mut st, "a", 200_000));
    assert_eq!(st.shown_count, Some(4));
    assert!(!news_tick(&mut st, "a", 300_000));
    assert!(news_tick(&mut st, "b", 300_001));
    assert_eq!(st.shown_count, Some(1));
    assert_eq!(st.last_shown_url.as_deref(), Some("b"));
}

#[test]
fn missing_projects_are_forgotten() {
    let mut config = Config::default();
    for p in ["/a", "/b", "/c"] {
        config.register_project(&ProjectInfo { path: p.to_string(), name: p.to_string(), bound_editor: None, last_opened: None });
    }
    let removed = remove_missing_projects(&mut config, &strings(&["/c", "/x", "/a", "/c"]));
    assert_eq!(removed.iter().map(|p| p.path.as_str()).collect::<Vec<_>>(), vec!["/c", "/a"]);
    assert!(config.projects.get("/b").is_some());
    assert!(config.projects.get("/a").is_none());
    assert_eq!(config.recent_project, None);
}

#[test]
fn repository_requests() {
    assert_eq!(releases_url("https://store.godotengine.org//", "bitwes", "gut"), "https://store.godotengine.org/api/v1/releases/bitwes/gut/");
    let r = release_from_fields(Some("u".to_string()), Some("v1.2".to_string()), None, Some("4.2".to_string()), None).unwrap();
    assert_eq!((r.version.as_str(), r.stable), ("1.2", false));
    assert_eq!(r.min_godot_version.as_deref(), Some("4.2"));
    let r = release_from_fields(Some("u".to_string()), Some("vv2".to_string()), Some(true), None, None).unwrap();
    assert_eq!((r.version.as_str(), r.stable), ("v2", true));
    assert!(release_from_fields(None, Some("1".to_string()), None, None, None).is_none());
    assert!(release_from_fields(Some("u".to_string()), None, None, None, None).is_none());
    assert!(is_missing_addon_error("Addon 'a/b' does not exist on the asset store."));
    assert!(!is_missing_addon_error("HTTP 500"));
    assert!(is_transient_error("error sending request: connection reset"));
    assert!(is_transient_error("peer closed connection without sending TLS close_notify"));
    assert!(!is_transient_error("HTTP 404"));
    assert_eq!(retry_delay(1, true), Some(2));
    assert_eq!(retry_delay(2, true), Some(4));
    assert_eq!(retry_delay(3, true), Some(8));
    assert_eq!(retry_delay(4, true), None);
    assert_eq!(retry_delay(1, false), None);
    assert_eq!(release_tag_url("4.3-stable"), "https://api.github.com/repos/godotengine/godot-builds/releases/tags/4.3-stable");
    assert_eq!(release_list_url(), "https://api.github.com/repos/godotengine/godot-builds/releases?per_page=100");
    assert_eq!(range_header(0, 99), "bytes=0-99");
    assert_eq!(range_length(10, 19), 10);
    assert_eq!(range_length(5, 4), u64::MAX);
    assert_eq!(range_length(0, u64::MAX), u64::MAX);
}
