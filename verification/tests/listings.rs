use gdio::addon_list::{run as list_addons, sort_by_name};
use gdio::config::{Config, LinkedAddonInfo, Repository};
use gdio::project::ExportPreset;
use gdio::repository::{derive_name, run as repository_run, toggle_repository, RepositoryChange, RepositoryError};
use gdio::templates::{get_template_groups, template_tree_lines};
use gdio::upload::{default_channel, normalize_game_version, preset_platforms, presets_for_platform, sanitize_channel};
use gdio::zipdir::{decode_u16, decode_u32, decode_u64, find_zip_entries, parse_zip64_extra, ZipError};
use gdio::strmap::StrMap;

fn strings(v: &[&str]) -> Vec<String> {
    v.iter().map(|s| s.to_string()).collect()
}

fn official() -> Repository {
    Repository { name: "godot-official-store".to_string(), url: "https://store.godotengine.org".to_string() }
}

#[test]
fn repository_names() {
    assert_eq!(derive_name("https://store.godotengine.org"), "godot-official-store");
    assert_eq!(derive_name("https://www.example.com/repo/"), "example.com_repo");
    assert_eq!(derive_name("http://host:8080"), "host:8080");
    assert_eq!(derive_name("https://a.org//x/y"), "a.org_x");
}

#[test]
fn repositories_toggled() {
    let mut config = Config::default();
    config.addons.repositories.push(official());
    match toggle_repository(&mut config, "https://mirror.org/assets").unwrap() {
        RepositoryChange::Added(r) => assert_eq!(r.name, "mirror.org_assets"),
        RepositoryChange::Removed(_) => panic!("expected an addition"),
    }
    assert_eq!(config.addons.repositories.len(), 2);
    match toggle_repository(&mut config, "https://mirror.org/assets").unwrap() {
        RepositoryChange::Removed(r) => assert_eq!(r.url, "https://mirror.org/assets"),
        RepositoryChange::Added(_) => panic!("expected a removal"),
    }
    assert_eq!(config.addons.repositories.len(), 1);
    assert_eq!(
        toggle_repository(&mut config, "https://store.godotengine.org").err(),
        Some(RepositoryError::CannotRemoveDefault)
    );
    assert_eq!(config.addons.repositories.len(), 1);
}

#[test]
fn repository_command_output() {
    let mut config = Config::default();
    let report = repository_run(&mut config, None).unwrap();
    assert_eq!(report.lines, strings(&["No repositories registered."]));
    assert!(!report.changed);
    config.addons.repositories.push(official());
    let report = repository_run(&mut config, None).unwrap();
    assert_eq!(
        report.lines,
        strings(&["Repositories:", "  godot-official-store https://store.godotengine.org (default)"])
    );
    let report = repository_run(&mut config, Some("https://x.org")).unwrap();
    assert_eq!(report.lines, strings(&["Added repository 'x.org' (https://x.org)"]));
    assert!(report.changed);
    let listing = repository_run(&mut config, None).unwrap();
    assert_eq!(listing.lines[2], format!("  x.org{} https://x.org", " ".repeat(15)));
    let report = repository_run(&mut config, Some("https://x.org")).unwrap();
    assert_eq!(report.lines, strings(&["Removed repository 'x.org' (https://x.org)"]));
    assert_eq!(
        RepositoryError::CannotRemoveDefault.message(),
        "Cannot remove the default Godot Asset Store repository."
    );
}

#[test]
fn addon_listing() {
    let mut config = Config::default();
    assert_eq!(list_addons(&config, true, None), strings(&["No linked addons registered."]));
    config.addons.linked.insert(
        "bitwes/gut".to_string(),
        LinkedAddonInfo { version: "9.3.0".to_string(), folder_name: "gut".to_string(), projects: strings(&["/a", "/b"]) },
    );
    assert_eq!(
        list_addons(&config, true, None),
        vec!["Linked addons:".to_string(), format!("  {:<30} v{:<10} gut (2 projects)", "bitwes/gut", "9.3.0")]
    );
    assert_eq!(list_addons(&config, false, None), strings(&["No addons directory found."]));
    assert_eq!(list_addons(&config, false, Some(&[])), strings(&["No addons installed."]));
    let local = vec![("zeta".to_string(), false), ("Alpha".to_string(), true), ("beta".to_string(), false)];
    assert_eq!(
        list_addons(&config, false, Some(&local)),
        strings(&["Installed addons:", "  Alpha (global)", "  beta", "  zeta"])
    );
}

#[test]
fn names_sorted_stably() {
    let entries = vec![("b".to_string(), true), ("a".to_string(), false), ("b".to_string(), false), ("ab".to_string(), true)];
    let sorted = sort_by_name(&entries);
    assert_eq!(
        sorted,
        vec![("a".to_string(), false), ("ab".to_string(), true), ("b".to_string(), true), ("b".to_string(), false)]
    );
}

#[test]
fn template_groups() {
    let groups = get_template_groups();
    assert_eq!(groups.len(), 6);
    assert_eq!(groups[0].platform, "Windows");
    assert_eq!(groups[3].templates[3].name, "Web with Extensions Single-Threaded");
    let windows_files: Vec<&str> = groups[0].templates.iter().flat_map(|t| t.files.iter().copied()).collect();
    assert_eq!(windows_files, gdio::platform::platform_template_files("windows"));
}

#[test]
fn installed_template_tree() {
    let installed = strings(&["linux_debug.x86_64", "macos.zip", "windows_release_arm64.exe"]);
    assert_eq!(
        template_tree_lines(&installed),
        strings(&["  Windows", "    Windows arm64", "  Linux", "    Linux x86_64", "  macOS"])
    );
    assert!(template_tree_lines(&[]).is_empty());
}

#[test]
fn upload_presets_and_channels() {
    let preset = |name: &str, platform: &str| ExportPreset {
        name: name.to_string(),
        platform: platform.to_string(),
        export_path: None,
        binary_format: None,
    };
    let presets = vec![preset("Win", "Windows Desktop"), preset("Web", "Web"), preset("Win2", "Windows Desktop"), preset("X", "Amiga")];
    assert_eq!(presets_for_platform(&presets, "windows"), vec![0, 2]);
    assert_eq!(presets_for_platform(&presets, "linux"), Vec::<usize>::new());
    let mut platforms = preset_platforms(&presets);
    platforms.sort();
    assert_eq!(platforms, strings(&["web", "windows"]));
    assert_eq!(default_channel("windows", "1.2.0"), "windows-v1.2.0");
    assert_eq!(sanitize_channel("win/beta\\x"), "win_beta_x");
    assert_eq!(normalize_game_version("  v0.1.0-dev "), "0.1.0-dev");
}

fn zip_with_entry(name: &str, method: u16, comp: u32, offset: u32, cd_offset: u32) -> Vec<u8> {
    let mut d = Vec::new();
    d.extend_from_slice(&[0x50, 0x4b, 0x01, 0x02]);
    d.extend_from_slice(&[0u8; 6]);
    d.extend_from_slice(&method.to_le_bytes());
    d.extend_from_slice(&[0u8; 8]);
    d.extend_from_slice(&comp.to_le_bytes());
    d.extend_from_slice(&[0u8; 4]);
    d.extend_from_slice(&(name.len() as u16).to_le_bytes());
    d.extend_from_slice(&[0u8; 4]);
    d.extend_from_slice(&[0u8; 8]);
    d.extend_from_slice(&offset.to_le_bytes());
    assert_eq!(d.len(), 46);
    d.extend_from_slice(name.as_bytes());
    let cd_len = d.len() as u32;
    d.extend_from_slice(&[0x50, 0x4b, 0x05, 0x06]);
    d.extend_from_slice(&[0u8; 6]);
    d.extend_from_slice(&1u16.to_le_bytes());
    d.extend_from_slice(&cd_len.to_le_bytes());
    d.extend_from_slice(&cd_offset.to_le_bytes());
    d.extend_from_slice(&[0u8; 2]);
    d
}

#[test]
fn little_endian_fields() {
    assert_eq!(decode_u16(&[0x34, 0x12], 0), 0x1234);
    assert_eq!(decode_u32(&[0, 0x78, 0x56, 0x34, 0x12], 1), 0x12345678);
    assert_eq!(decode_u64(&[1, 0, 0, 0, 0, 0, 0, 0], 0), 1);
    assert_eq!(decode_u64(&[1, 2, 3], 0), 0);
}

#[test]
fn zip64_extra_field() {
    let mut extra = vec![0x01, 0x00, 16, 0];
    extra.extend_from_slice(&5_000_000_000u64.to_le_bytes());
    extra.extend_from_slice(&7u64.to_le_bytes());
    let (mut comp, mut off) = (0xFFFF_FFFFu64, 0xFFFF_FFFFu64);
    parse_zip64_extra(&extra, &mut comp, &mut off);
    assert_eq!((comp, off), (5_000_000_000, 7));
    let (mut comp, mut off) = (10u64, 0xFFFF_FFFFu64);
    parse_zip64_extra(&extra, &mut comp, &mut off);
    assert_eq!((comp, off), (10, 5_000_000_000));
}

#[test]
fn zip_central_directory() {
    let data = zip_with_entry("templates/version.txt", 8, 123, 4567, 0);
    let entries = find_zip_entries(&data, data.len() as u64).unwrap();
    assert_eq!(entries.len(), 1);
    assert_eq!(entries[0].filename, "templates/version.txt");
    assert_eq!(entries[0].method, 8);
    assert_eq!(entries[0].compressed_size, 123);
    assert_eq!(entries[0].offset, 4567);
    assert_eq!(entries[0].local_header_size, 30 + 21);
    let mut file = vec![0u8; 100];
    file.extend_from_slice(&zip_with_entry("a.txt", 0, 5, 0, 100));
    let tail = &file[100..];
    let entries = find_zip_entries(tail, file.len() as u64).unwrap();
    assert_eq!(entries[0].filename, "a.txt");
    assert_eq!(entries[0].compressed_size, 5);
    assert_eq!(find_zip_entries(&[1, 2, 3, 4, 5], 5).err(), Some(ZipError::EocdNotFound));
}

#[test]
fn string_maps() {
    let mut m: StrMap<u32> = StrMap::new();
    assert_eq!(m.insert("a".to_string(), 1), None);
    assert_eq!(m.insert("b".to_string(), 2), None);
    assert_eq!(m.insert("a".to_string(), 3), Some(1));
    assert_eq!(m.len(), 2);
    assert_eq!(m.get("a"), Some(&3));
    assert!(m.contains_key("b"));
    assert_eq!(m.remove("b"), Some(2));
    assert_eq!(m.remove("b"), None);
    assert_eq!(m.entries().len(), 1);
}

#[test]
fn template_table_lists_each_file_once() {
    let groups = get_template_groups();
    let mut seen: Vec<&str> = Vec::new();
    for g in &groups {
        assert!(!g.templates.is_empty());
        for t in &g.templates {
            assert!(!t.files.is_empty());
            for f in &t.files {
                assert!(!seen.contains(f), "{} listed twice", f);
                seen.push(f);
            }
        }
    }
    assert_eq!(seen.len(), 33);
}
