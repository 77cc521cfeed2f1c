use gdio::template_install::{
    choose_mirror, content_range_total, decompress_member, find_template_member, is_legacy_version,
    legacy_tpz_url, local_data_start, member_range, mirror_list_url, platforms_to_download, requested_platforms,
    should_remove, tail_start, template_dir_name, MemberError,
};
use gdio::zipdir::ZipEntry;
use std::io::Write;

fn strings(v: &[&str]) -> Vec<String> {
    v.iter().map(|s| s.to_string()).collect()
}

fn entry(name: &str, offset: u64, size: u64) -> ZipEntry {
    ZipEntry { filename: name.to_string(), offset, compressed_size: size, method: 8, local_header_size: 30 }
}

#[test]
fn requested_platform_flags() {
    assert_eq!(
        requested_platforms(false, false, false, false, false, false),
        strings(&["windows", "linux", "web", "macos", "ios", "android"])
    );
    assert_eq!(requested_platforms(true, false, true, false, false, true), strings(&["windows", "web", "android"]));
    assert_eq!(requested_platforms(false, false, false, true, false, false), strings(&["macos"]));
}

#[test]
fn legacy_versions() {
    assert!(is_legacy_version("3.5.3"));
    assert!(is_legacy_version("2"));
    assert!(!is_legacy_version("4.3"));
    assert!(!is_legacy_version("x.1"));
    assert_eq!(template_dir_name("4.3", "stable"), "4.3.stable");
}

#[test]
fn download_addresses() {
    assert_eq!(
        legacy_tpz_url("3.5.3", "stable"),
        "https://downloads.godotengine.org/?version=3.5.3&flavor=stable&slug=export_templates.tpz&platform=templates"
    );
    assert_eq!(mirror_list_url("4.3", "rc1"), "https://godotengine.org/mirrorlist/4.3.rc1.json");
}

#[test]
fn only_missing_platforms_are_downloaded() {
    let wanted = strings(&["windows", "linux", "web"]);
    let installed = strings(&["linux_debug.x86_64", "version.txt"]);
    assert_eq!(platforms_to_download(&wanted, &installed), strings(&["windows", "web"]));
    assert_eq!(platforms_to_download(&wanted, &[]), wanted);
}

#[test]
fn mirror_choice() {
    let script = Some("https://downloads.godotengine.org/?version=4.3".to_string());
    let plain = Some("https://github.com/godotengine/godot/releases/download/4.3-stable/".to_string());
    assert_eq!(choose_mirror(&[script.clone(), None, plain.clone()]), plain);
    assert_eq!(choose_mirror(&[script.clone()]), script);
    assert_eq!(choose_mirror(&[None, plain.clone()]), plain);
    assert_eq!(choose_mirror(&[None]), None);
    assert_eq!(choose_mirror(&[]), None);
}

#[test]
fn removal_by_platform() {
    let ps = strings(&["windows", "macos"]);
    assert!(should_remove("windows_debug_x86_64.exe", &ps));
    assert!(should_remove("macos.zip", &ps));
    assert!(!should_remove("linux_debug.x86_64", &ps));
    assert!(!should_remove("windowsish", &strings(&["unknown"])));
    assert!(should_remove("web_release.zip", &strings(&["web"])));
}

#[test]
fn archive_ranges() {
    assert_eq!(content_range_total("bytes 0-0/1234"), Some(1234));
    assert_eq!(content_range_total("bytes 0-0/x"), None);
    assert_eq!(content_range_total("bytes 0-0"), None);
    assert_eq!(tail_start(100), 0);
    assert_eq!(tail_start(0x20000), 0x10000);
    let entries = vec![entry("templates/version.txt", 0, 10), entry("templates/web_release.zip", 100, 50)];
    assert_eq!(find_template_member(&entries, "web_release.zip"), Some(1));
    assert_eq!(find_template_member(&entries, "ios.zip"), None);
    assert_eq!(member_range(&entries[1], 10_000), Some((100, 100 + 30 + 50 + 256)));
    assert_eq!(member_range(&entries[1], 200), Some((100, 199)));
    assert_eq!(member_range(&entries[1], 50), None);
}

#[test]
fn member_data() {
    let mut header = vec![0u8; 30];
    header[26] = 4;
    header[28] = 2;
    header[29] = 1;
    assert_eq!(local_data_start(&header), Ok(30 + 4 + 258));
    assert_eq!(local_data_start(&[0u8; 29]), Err(MemberError::FragmentTooSmall));

    assert_eq!(decompress_member(0, b"plain"), Ok(b"plain".to_vec()));
    let mut enc = flate2::write::DeflateEncoder::new(Vec::new(), flate2::Compression::default());
    enc.write_all(b"template bytes").unwrap();
    let packed = enc.finish().unwrap();
    assert_ne!(packed, b"template bytes".to_vec());
    assert_eq!(decompress_member(8, &packed), Ok(b"template bytes".to_vec()));
    assert_eq!(decompress_member(8, &[0xff, 0xff, 0xff]), Err(MemberError::Corrupt));
    assert_eq!(decompress_member(12, b"x"), Err(MemberError::Unsupported(12)));
}
