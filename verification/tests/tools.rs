use gdio::builder::{
    detect_godot_version, dir_from_url, get_templates_dir, merge_args, progress_parts, scons_base_args,
    strip_sideband_prefix, VersionPyError,
};
use gdio::news::{extract_tag, format_date, parse_news, truncate_str};
use gdio::platform::TargetOs;
use gdio::search::{build_items, desc_width, fuzzy_match, fuzzy_match_lowered, matching_indices, truncate_to_width, SearchResult};
use gdio::shared::{looks_like_path, needs_download, snake_case};

fn strings(v: &[&str]) -> Vec<String> {
    v.iter().map(|s| s.to_string()).collect()
}

#[test]
fn extra_scons_arguments_override() {
    let merged = merge_args(strings(&["a=1", "b=2", "c"]), &strings(&["b=3", "d=4"]));
    assert_eq!(merged, strings(&["a=1", "c", "b=3", "d=4"]));
    assert_eq!(merge_args(strings(&["x=1"]), &[]), strings(&["x=1"]));
}

#[test]
fn base_scons_arguments() {
    assert_eq!(
        scons_base_args(true),
        strings(&["module_mono_enabled=yes", "production=yes", "debug_symbols=no", "lto=auto", "disable_path_overrides=no"])
    );
    assert_eq!(scons_base_args(false).len(), 4);
}

#[test]
fn template_directory() {
    assert_eq!(
        get_templates_dir("/home/u/.local/share/godot", TargetOs::Linux, "4.3.stable"),
        "/home/u/.local/share/godot/export_templates/4.3.stable"
    );
    assert_eq!(
        get_templates_dir("C:\\Godot", TargetOs::Windows, "4.3.stable"),
        "C:\\Godot\\export_templates\\4.3.stable"
    );
}

#[test]
fn source_version_from_version_py() {
    let py = "short_name = \"godot\"\nmajor = 4\nminor = 3\npatch = 0\nstatus = \"beta\"\n";
    assert_eq!(detect_godot_version(py), Ok("4.3.0.beta".to_string()));
    assert_eq!(detect_godot_version("major = 4\nminor = 2\n"), Ok("4.2.0.stable".to_string()));
    assert_eq!(detect_godot_version("major=4\nminor=x\n"), Err(VersionPyError::MissingMinor));
    assert_eq!(detect_godot_version("minor = 3\n"), Err(VersionPyError::MissingMajor));
    assert_eq!(VersionPyError::MissingMajor.message(), "Could not parse 'major' from version.py");
}

#[test]
fn sideband_byte_dropped() {
    assert_eq!(strip_sideband_prefix("\u{2}remote: Counting"), "remote: Counting");
    assert_eq!(strip_sideband_prefix("plain"), "plain");
    assert_eq!(strip_sideband_prefix(""), "");
}

#[test]
fn clone_directory_names() {
    assert_eq!(dir_from_url("https://github.com/godotengine/godot.git"), "godot");
    assert_eq!(dir_from_url("git@github.com:user/repo/"), "repo");
    assert_eq!(dir_from_url("host:project"), "project");
    assert_eq!(dir_from_url("plain"), "plain");
}

#[test]
fn progress_line_parts() {
    let p = progress_parts("Receiving objects:  45% (450/1000), 1.20 MiB | 2.00 MiB/s").unwrap();
    assert_eq!(p.label, "Receiving objects");
    assert_eq!(p.percent, "45");
    assert_eq!(p.counts, Some((450, 1000)));
    let q = progress_parts("remote: Compressing objects: 100% (10/10), done.").unwrap();
    assert_eq!(q.label, "Compressing objects");
    assert_eq!(q.counts, Some((10, 10)));
    let r = progress_parts("Updating files:  12%").unwrap();
    assert_eq!(r.counts, None);
    assert!(progress_parts("Cloning into 'godot'...").is_none());
    assert!(progress_parts("Resolving deltas").is_none());
}

#[test]
fn feed_tags() {
    let item = "<title> Godot 4.3 released </title><link>https://godotengine.org/x</link>";
    assert_eq!(extract_tag(item, "title"), Some("Godot 4.3 released".to_string()));
    assert_eq!(extract_tag(item, "summary"), None);
    assert_eq!(extract_tag("<a>unclosed", "a"), None);
}

#[test]
fn feed_text_shortened() {
    assert_eq!(truncate_str("hello world", 8), "hello...");
    assert_eq!(truncate_str("hi", 8), "hi");
    assert_eq!(truncate_str("hello", 2), "he");
    assert_eq!(truncate_str("héllo wörld", 6), "hé...");
}

#[test]
fn feed_dates() {
    assert_eq!(format_date("Tue, 14 Oct 2025 12:00:00 +0000"), "14 Oct");
    assert_eq!(format_date("yesterday"), "yesterday");
}

#[test]
fn feed_items() {
    let xml = "<rss><item><title>A</title><link>l1</link><pubDate>Mon, 1 Jan 2024 0:0</pubDate></item>\
<item><title>B</title><summary> s </summary></item></rss>";
    let items = parse_news(xml, 5);
    assert_eq!(items.len(), 2);
    assert_eq!(items[0].title, "A");
    assert_eq!(items[0].link, "l1");
    assert_eq!(items[0].pub_date, "1 Jan");
    assert_eq!(items[1].summary, "s");
    assert_eq!(items[1].pub_date, "");
    assert_eq!(parse_news(xml, 1).len(), 1);
    assert_eq!(parse_news("<rss/>", 3).len(), 0);
}

#[test]
fn search_columns() {
    assert_eq!(truncate_to_width("abcdef", 5), "ab...");
    assert_eq!(truncate_to_width("abc", 5), "ab...");
    assert_eq!(truncate_to_width("ab", 5), "ab");
    assert_eq!(truncate_to_width("abcdef", 0), "");
    assert_eq!(truncate_to_width("abcdef", 2), "...");
    assert_eq!(desc_width(100), 58);
    assert_eq!(desc_width(10), 0);
}

#[test]
fn search_lines() {
    let results = vec![SearchResult {
        identifier: "bitwes/gut".to_string(),
        description: "Unit testing".to_string(),
        store_url: String::new(),
    }];
    let items = build_items(&results, 50);
    assert_eq!(items, vec![format!("bitwes/gut{} Unit ...", " ".repeat(25))]);
}

#[test]
fn fuzzy_filter() {
    assert!(fuzzy_match("gt", "bitwes/GUT"));
    assert!(!fuzzy_match("tg", "gut"));
    assert!(fuzzy_match("", "anything"));
    assert!(fuzzy_match_lowered("abc", "xaxbxc"));
    assert!(!fuzzy_match_lowered("abc", "acb"));
    let items = strings(&["gut", "dialogic", "godot-jolt"]);
    assert_eq!(matching_indices("gt", &items), vec![0, 2]);
}

#[test]
fn identifiers_and_paths() {
    assert_eq!(snake_case("My Game-2!"), "my_game_2_");
    assert_eq!(snake_case("Ünï"), "_n_");
    assert!(looks_like_path("/opt/godot"));
    assert!(looks_like_path("C:\\godot.exe"));
    assert!(!looks_like_path("4.3"));
}

#[test]
fn butler_download_decision() {
    assert!(!needs_download(false, &None, true));
    assert!(needs_download(false, &Some("1".to_string()), false));
    assert!(needs_download(true, &None, false));
    assert!(!needs_download(true, &Some("1".to_string()), false));
}
