use gdio::addon_install::{mode_switch, release_menu, ModeSwitch};
use gdio::addons::add_project_reference;
use gdio::config::{Config, GlobalAddonEntry, LinkedAddonInfo};
use gdio::exclude::{exclude_menu, exclude_project, readd_plan, revert_exclusion_entry, revert_menu, ExcludeOutcome, RevertOutcome};
use gdio::globals::{global_listing, global_remove_menu, parse_plugin_version, plan_global_addon, remove_global, GlobalAddError};
use gdio::releases::Release;

fn strings(v: &[&str]) -> Vec<String> {
    v.iter().map(|s| s.to_string()).collect()
}

fn global(version: Option<&str>, folder: &str) -> GlobalAddonEntry {
    GlobalAddonEntry {
        version: version.map(|s| s.to_string()),
        folder_name: folder.to_string(),
        repository: "https://store.godotengine.org".to_string(),
        linked: false,
    }
}

fn config_with_gut() -> Config {
    let mut config = Config::default();
    config.addons.globals.insert("bitwes/gut".to_string(), global(None, "gut"));
    config
}

#[test]
fn exclusion_round_trip() {
    let mut config = config_with_gut();
    assert_eq!(exclude_project(&mut config, "other/addon", "/g"), ExcludeOutcome::NotGlobal);
    assert_eq!(exclude_project(&mut config, "bitwes/gut", "/g"), ExcludeOutcome::Excluded);
    assert_eq!(config.addons.globals_exclusions.get("bitwes/gut").unwrap(), &strings(&["/g"]));
    assert_eq!(exclude_project(&mut config, "bitwes/gut", "/g"), ExcludeOutcome::AlreadyExcluded);
    assert_eq!(exclude_project(&mut config, "bitwes/gut", "/h"), ExcludeOutcome::Excluded);
    assert_eq!(config.addons.globals_exclusions.get("bitwes/gut").unwrap(), &strings(&["/g", "/h"]));
    assert_eq!(revert_exclusion_entry(&mut config, "bitwes/gut", "/x"), RevertOutcome::NotExcluded);
    assert_eq!(revert_exclusion_entry(&mut config, "bitwes/gut", "/g"), RevertOutcome::Reverted);
    assert_eq!(config.addons.globals_exclusions.get("bitwes/gut").unwrap(), &strings(&["/h"]));
    assert_eq!(revert_exclusion_entry(&mut config, "bitwes/gut", "/h"), RevertOutcome::Reverted);
    assert!(config.addons.globals_exclusions.get("bitwes/gut").is_none());
    assert_eq!(revert_exclusion_entry(&mut config, "bitwes/gut", "/h"), RevertOutcome::NoExclusions);
}

#[test]
fn exclusion_menus() {
    let mut config = config_with_gut();
    config.addons.globals.insert("a/b".to_string(), global(Some("1.2"), "b"));
    exclude_project(&mut config, "a/b", "/g");
    assert_eq!(exclude_menu(&config, "/g"), strings(&["bitwes/gut vlatest", "a/b v1.2 (already excluded)"]));
    assert_eq!(revert_menu(&config, "/g"), vec![("a/b".to_string(), "1.2".to_string())]);
    assert!(revert_menu(&config, "/other").is_empty());
}

#[test]
fn readding_an_addon() {
    let mut config = config_with_gut();
    let plan = readd_plan(&config, "bitwes/gut").unwrap();
    assert_eq!(plan.store_dir, "bitwes_gut_unknown");
    assert_eq!(plan.folder_name, "gut");
    assert!(!plan.symlink);
    config.addons.linked.insert(
        "bitwes/gut".to_string(),
        LinkedAddonInfo { version: "9.3.0".to_string(), folder_name: "gut".to_string(), projects: vec![] },
    );
    let plan = readd_plan(&config, "bitwes/gut").unwrap();
    assert_eq!(plan.store_dir, "bitwes_gut_9.3.0");
    assert!(plan.symlink);
    assert!(readd_plan(&config, "x/y").is_none());
}

#[test]
fn global_listing_lines() {
    let mut config = config_with_gut();
    config.addons.globals_exclusions.insert("bitwes/gut".to_string(), strings(&["/a", "/b"]));
    let lines = global_listing(&config);
    assert_eq!(lines, vec![format!("  {: <30} v{:<10} {}{}", "bitwes/gut", "latest", "gut", " (2 excluded)")]);
    assert_eq!(global_remove_menu(&config), strings(&["bitwes/gut vlatest"]));
    assert!(remove_global(&mut config, "bitwes/gut"));
    assert!(!remove_global(&mut config, "bitwes/gut"));
    assert!(global_listing(&config).is_empty());
}

#[test]
fn plugin_versions() {
    assert_eq!(parse_plugin_version("[plugin]\nname=\"Gut\"\n  version=\"9.3.0\"\n"), Some("9.3.0".to_string()));
    assert_eq!(parse_plugin_version("version=1.0\r\nversion=2.0"), Some("1.0".to_string()));
    assert_eq!(parse_plugin_version("name=\"x\""), None);
}

#[test]
fn global_addon_plans() {
    let config = config_with_gut();
    assert_eq!(plan_global_addon(&config, "bitwes/gut", None, None, None, false, false).unwrap_err(), GlobalAddError::AlreadyGlobal);
    assert_eq!(plan_global_addon(&config, "plain", None, None, None, false, false).unwrap_err(), GlobalAddError::InvalidIdentifier);
    assert_eq!(plan_global_addon(&config, "a/b", None, None, None, true, false).unwrap_err(), GlobalAddError::NoReleases);
    assert_eq!(plan_global_addon(&config, "a/b", None, Some("b".to_string()), None, false, false).unwrap_err(), GlobalAddError::NotOnStore);
    let e = plan_global_addon(
        &config,
        "a/b",
        Some(("bfolder".to_string(), "1.0".to_string(), "https://r".to_string())),
        None,
        None,
        false,
        true,
    )
    .unwrap();
    assert_eq!((e.folder_name.as_str(), e.repository.as_str(), e.version, e.linked), ("bfolder", "https://r", None, true));
    let e = plan_global_addon(&config, "a/b", None, None, Some(("https://s".to_string(), "2.0".to_string())), true, false).unwrap();
    assert_eq!((e.folder_name.as_str(), e.repository.as_str()), ("b", "https://s"));
    assert_eq!(e.version.as_deref(), Some("2.0"));
}

#[test]
fn linking_a_project() {
    let mut config = Config::default();
    add_project_reference(&mut config, "a/b", "1".to_string(), "b".to_string(), "/g1".to_string());
    add_project_reference(&mut config, "a/b", "2".to_string(), "bb".to_string(), "/g2".to_string());
    add_project_reference(&mut config, "a/b", "2".to_string(), "bb".to_string(), "/g1".to_string());
    let info = config.addons.linked.get("a/b").unwrap();
    assert_eq!(info.projects, strings(&["/g1", "/g2"]));
    assert_eq!((info.version.as_str(), info.folder_name.as_str()), ("2", "bb"));
}

#[test]
fn install_modes_and_menus() {
    assert_eq!(mode_switch(true, false, true), ModeSwitch::ToLocal);
    assert_eq!(mode_switch(false, true, true), ModeSwitch::ToLinked);
    assert_eq!(mode_switch(false, true, false), ModeSwitch::Keep);
    assert_eq!(mode_switch(true, true, true), ModeSwitch::Keep);
    let r = |v: &str, stable: bool| Release {
        download_url: String::new(),
        version: v.to_string(),
        stable,
        min_godot_version: None,
        max_godot_version: None,
    };
    let menu = release_menu(&[("store".to_string(), r("1.0", true)), ("other".to_string(), r("2.0-beta", false))]);
    assert_eq!(menu, strings(&["v1.0 [store]", "v2.0-beta [other] (pre-release)"]));
}
