use gdio::addons::cleanup_orphaned_links;
use gdio::config::{Config, GdioAddonEntry, GdioProject, LinkedAddonInfo};
use gdio::releases::Release;
use gdio::config::GlobalAddonEntry;
use gdio::sync::{
    dependency_source, find_release_version, global_sync_step, is_excluded, link_step, linked_sync_target,
    pick_global_release, repository_serves, search_reply, search_start, sync_tick, visit, DepSource, GlobalStep,
    LinkStep, SearchPass, SearchStep,
};

fn strings(v: &[&str]) -> Vec<String> {
    v.iter().map(|s| s.to_string()).collect()
}

fn release(version: &str, min: Option<&str>, max: Option<&str>) -> Release {
    Release {
        download_url: format!("https://dl/{}", version),
        version: version.to_string(),
        stable: true,
        min_godot_version: min.map(|s| s.to_string()),
        max_godot_version: max.map(|s| s.to_string()),
    }
}

fn linked(version: &str, projects: &[&str]) -> LinkedAddonInfo {
    LinkedAddonInfo { version: version.to_string(), folder_name: "gut".to_string(), projects: strings(projects) }
}

#[test]
fn exclusions() {
    let mut config = Config::default();
    config.addons.globals_exclusions.insert("bitwes/gut".to_string(), strings(&["/games/a"]));
    assert!(is_excluded(&config, "bitwes/gut", "/games/a"));
    assert!(!is_excluded(&config, "bitwes/gut", "/games/b"));
    assert!(!is_excluded(&config, "other/addon", "/games/a"));
}

#[test]
fn every_twentieth_sync_validates_links() {
    let mut config = Config::default();
    for _ in 0..19 {
        assert!(!sync_tick(&mut config));
    }
    assert_eq!(config.addons.sync_count, 19);
    assert!(sync_tick(&mut config));
    assert_eq!(config.addons.sync_count, 0);
    assert!(!sync_tick(&mut config));
    assert_eq!(config.addons.sync_count, 1);
}

#[test]
fn linked_targets() {
    let mut config = Config::default();
    let mut gdio = GdioProject::default();
    assert!(linked_sync_target(&config, &gdio, "plain").is_none());
    let t = linked_sync_target(&config, &gdio, "bitwes/gut").unwrap();
    assert_eq!((t.publisher.as_str(), t.asset.as_str()), ("bitwes", "gut"));
    assert_eq!((t.folder_name.as_str(), t.version.as_str()), ("gut", "unknown"));
    assert_eq!(t.repository, "https://store.godotengine.org");
    assert_eq!(t.wanted_version, "unknown");
    config.addons.linked.insert("bitwes/gut".to_string(), linked("9.3.0", &["/g"]));
    gdio.addons.insert(
        "bitwes/gut".to_string(),
        GdioAddonEntry { version: "9.4.0".to_string(), repository: "https://repo".to_string() },
    );
    let t = linked_sync_target(&config, &gdio, "bitwes/gut").unwrap();
    assert_eq!(t.version, "9.3.0");
    assert_eq!(t.wanted_version, "9.4.0");
    assert_eq!(t.repository, "https://repo");
}

#[test]
fn repository_filter() {
    assert!(repository_serves("https://repo", "https://repo"));
    assert!(repository_serves("https://repo", ""));
    assert!(!repository_serves("https://repo", "https://other"));
}

#[test]
fn global_release_choice() {
    let releases = vec![
        release("1.0.0", Some("4.0"), Some("4.1")),
        release("2.0.0", Some("4.2"), None),
        release("1.5.0", Some("4.0"), None),
    ];
    assert_eq!(find_release_version(&releases, "1.5.0"), Some(2));
    assert_eq!(find_release_version(&releases, "3.0.0"), None);
    assert_eq!(pick_global_release(&releases, Some("1.0.0"), Some("4.3")).unwrap().version, "1.0.0");
    assert!(pick_global_release(&releases, Some("9.9"), None).is_none());
    assert_eq!(pick_global_release(&releases, None, None).unwrap().version, "1.0.0");
    assert_eq!(pick_global_release(&releases, None, Some("4.3")).unwrap().version, "2.0.0");
    assert_eq!(pick_global_release(&releases, None, Some("4.1")).unwrap().version, "1.5.0");
    assert!(pick_global_release(&releases, None, Some("3.5")).is_none());
    assert!(pick_global_release(&[], None, None).is_none());
}

#[test]
fn orphaned_links_are_removed() {
    let mut config = Config::default();
    config.addons.linked.insert("a/one".to_string(), linked("1", &["/g1", "/g2"]));
    config.addons.linked.insert("b/two".to_string(), linked("2", &["/g1"]));
    config.addons.linked.insert("c/three".to_string(), linked("3", &["/g3"]));
    let removed = cleanup_orphaned_links(
        &mut config,
        vec![
            ("a/one".to_string(), strings(&["/g2"])),
            ("b/two".to_string(), vec![]),
            ("c/three".to_string(), strings(&["/g3"])),
        ],
    );
    assert_eq!(removed.len(), 1);
    assert_eq!(removed[0].0, "b/two");
    assert_eq!(removed[0].1.version, "2");
    assert!(config.addons.linked.get("b/two").is_none());
    assert_eq!(config.addons.linked.get("a/one").unwrap().projects, strings(&["/g2"]));
    assert_eq!(config.addons.linked.get("c/three").unwrap().projects, strings(&["/g3"]));
}

#[test]
fn link_steps() {
    assert_eq!(link_step(false, false, false), LinkStep::Create);
    assert_eq!(link_step(true, false, true), LinkStep::Conflict);
    assert_eq!(link_step(true, true, true), LinkStep::Current);
    assert_eq!(link_step(true, true, false), LinkStep::Create);
}

fn global(repository: &str) -> GlobalAddonEntry {
    GlobalAddonEntry {
        version: None,
        folder_name: "gut".to_string(),
        repository: repository.to_string(),
        linked: false,
    }
}

#[test]
fn global_sync_steps() {
    let mut config = Config::default();
    config.addons.globals.insert("bitwes/gut".to_string(), global("https://store.godotengine.org"));
    config.addons.globals.insert("me/tool".to_string(), global("https://mine.example"));
    config.addons.globals.insert("plain".to_string(), global(""));
    config.addons.globals.insert("a/b".to_string(), global(""));
    config.addons.globals_exclusions.insert("bitwes/gut".to_string(), strings(&["/games/a"]));
    assert!(matches!(global_sync_step(&config, "bitwes/gut", "/games/a", false), GlobalStep::Excluded));
    assert!(matches!(global_sync_step(&config, "bitwes/gut", "/games/b", true), GlobalStep::Present));
    match global_sync_step(&config, "bitwes/gut", "/games/b", false) {
        GlobalStep::Fetch { publisher, asset } => assert_eq!((publisher.as_str(), asset.as_str()), ("bitwes", "gut")),
        other => panic!("unexpected step {:?}", other),
    }
    assert!(matches!(global_sync_step(&config, "me/tool", "/games/b", false), GlobalStep::ThirdParty));
    assert!(matches!(global_sync_step(&config, "plain", "/games/b", false), GlobalStep::Invalid));
    assert!(matches!(global_sync_step(&config, "a/b", "/games/b", false), GlobalStep::Fetch { .. }));
}

#[test]
fn dependency_walk_visits_each_addon_once() {
    let mut visited: Vec<String> = Vec::new();
    assert!(visit(&mut visited, "gut"));
    assert!(visit(&mut visited, "dialogic"));
    assert!(!visit(&mut visited, "gut"));
    assert_eq!(visited, strings(&["gut", "dialogic"]));
}

#[test]
fn dependency_sources() {
    assert_eq!(dependency_source(true, true, true), DepSource::Present);
    assert_eq!(dependency_source(true, false, true), DepSource::Store);
    assert_eq!(dependency_source(false, true, false), DepSource::Repository);
    assert_eq!(dependency_source(false, false, false), DepSource::Repository);
}

#[test]
fn release_search_asks_serving_repositories_first() {
    let urls = strings(&["https://a", "https://store", "https://b"]);
    let start = search_start(&urls, "https://store");
    assert_eq!(start, SearchStep::Ask { pass: SearchPass::Wanted, repo: 1 });
    let rs = vec![release("2.0", None, None), release("1.0", None, None)];
    assert_eq!(
        search_reply(&urls, "https://store", "1.0", SearchPass::Wanted, 1, Some(&rs)),
        SearchStep::Take { release: 1 }
    );
}

#[test]
fn release_search_falls_back_to_any_first_release() {
    let urls = strings(&["https://a", "https://store"]);
    let rs = vec![release("2.0", None, None)];
    let after = search_reply(&urls, "https://store", "1.0", SearchPass::Wanted, 1, Some(&rs));
    assert_eq!(after, SearchStep::Ask { pass: SearchPass::Newest, repo: 0 });
    assert_eq!(search_reply(&urls, "https://store", "1.0", SearchPass::Newest, 0, None), SearchStep::Ask {
        pass: SearchPass::Newest,
        repo: 1
    });
    assert_eq!(
        search_reply(&urls, "https://store", "1.0", SearchPass::Newest, 1, Some(&rs)),
        SearchStep::Take { release: 0 }
    );
    assert_eq!(search_reply(&urls, "https://store", "1.0", SearchPass::Newest, 1, Some(&[])), SearchStep::GiveUp);
    assert_eq!(search_start(&[], ""), SearchStep::GiveUp);
}

#[test]
fn release_search_without_named_repository_asks_all() {
    let urls = strings(&["https://a", "https://b"]);
    assert_eq!(search_start(&urls, ""), SearchStep::Ask { pass: SearchPass::Wanted, repo: 0 });
    assert_eq!(
        search_reply(&urls, "", "1.0", SearchPass::Wanted, 0, None),
        SearchStep::Ask { pass: SearchPass::Wanted, repo: 1 }
    );
}

#[test]
fn sync_tick_changes_only_the_count() {
    let mut config = Config::default();
    config.addons.repositories.push(gdio::config::Repository { name: "mine".to_string(), url: "https://mine".to_string() });
    config.gdre_tools_version = Some("v1".to_string());
    config.addons.globals_exclusions.insert("a/b".to_string(), strings(&["/p"]));
    assert!(!sync_tick(&mut config));
    assert_eq!(config.addons.sync_count, 1);
    assert_eq!(config.addons.repositories.len(), 1);
    assert_eq!(config.addons.repositories[0].url, "https://mine");
    assert_eq!(config.gdre_tools_version, Some("v1".to_string()));
    assert!(config.addons.globals_exclusions.contains_key("a/b"));
}
