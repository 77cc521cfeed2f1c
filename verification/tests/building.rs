use gdio::builder::{
    editor_build_args, engine_clone_args, install_scripts, is_install_script, progress_step, project_clone_args,
    scons_command_args, CloneProgress,
};
use gdio::launch::which_path;
use gdio::platform::PlatformFlags;
use gdio::secure::{baseline_files, find_secure_script, generate_key, key_from_bytes, hex_string, is_valid_key, python_command, secure_script_input};
use gdio::template_build::{apple_zip_members, scons_runs_for, template_build_platforms, template_copies_for};

fn strings(v: &[&str]) -> Vec<String> {
    v.iter().map(|s| s.to_string()).collect()
}

const BASE: [&str; 4] = ["production=yes", "debug_symbols=no", "lto=auto", "disable_path_overrides=no"];

fn run(head: &[&str]) -> Vec<String> {
    let mut v = strings(head);
    v.extend(strings(&BASE));
    v
}

#[test]
fn build_platform_selection() {
    let none = PlatformFlags::default();
    assert_eq!(
        template_build_platforms(&none),
        strings(&["windows", "linux", "web", "macos", "ios", "android", "visionos"])
    );
    let some = PlatformFlags { web: true, visionos: true, ..PlatformFlags::default() };
    assert_eq!(template_build_platforms(&some), strings(&["web", "visionos"]));
}

#[test]
fn windows_runs() {
    let runs = scons_runs_for("windows", false, false, true);
    assert_eq!(runs.len(), 8);
    assert_eq!(runs[0], run(&["platform=windows", "target=template_release", "arch=x86_32"]));
    let mut console = run(&["platform=windows", "target=template_release", "arch=x86_32"]);
    console.push("windows_subsystem=console".to_string());
    assert_eq!(runs[1], console);
    let both = scons_runs_for("windows", true, false, false);
    assert_eq!(both.len(), 12);
    assert_eq!(both[0][3], "module_mono_enabled=yes");
}

#[test]
fn linux_android_and_apple_runs() {
    let linux = scons_runs_for("linux", false, true, false);
    assert_eq!(linux.len(), 7);
    assert_eq!(linux[6], run(&["platform=linuxbsd", "target=template_debug", "arch=loongarch64"]));
    let android = scons_runs_for("android", false, false, false);
    assert_eq!(android.len(), 8);
    assert_eq!(android[1], run(&["platform=android", "target=template_release", "arch=arm32"]));
    let ios = scons_runs_for("ios", false, true, false);
    assert_eq!(ios[0], run(&["platform=ios", "target=template_debug", "arch=arm64"]));
    assert_eq!(ios[1], run(&["platform=ios", "target=template_debug", "arch=x86_64", "simulator=yes"]));
    let macos = scons_runs_for("macos", false, true, false);
    assert_eq!(macos[1], run(&["platform=macos", "target=template_debug", "arch=x86_64"]));
    assert!(scons_runs_for("plan9", false, false, false).is_empty());
}

#[test]
fn web_runs() {
    let web = scons_runs_for("web", false, false, false);
    assert_eq!(web.len(), 8);
    assert_eq!(web[0], run(&["platform=web", "target=template_debug"]));
    let mut both = run(&["platform=web", "target=template_release"]);
    both.push("dlink_enabled=yes".to_string());
    both.push("threads=no".to_string());
    assert_eq!(web[7], both);
}

#[test]
fn installed_template_names() {
    let win = template_copies_for("windows");
    assert_eq!(win.len(), 12);
    assert_eq!(win[0], ("godot.windows.template_debug.x86_32".to_string(), "windows_debug_x86_32.exe".to_string()));
    assert_eq!(
        win[2],
        ("godot.windows.template_release.x86_32.console".to_string(), "windows_release_x86_32_console.exe".to_string())
    );
    let linux = template_copies_for("linux");
    assert_eq!(linux[1], ("godot.linuxbsd.template_release.x86_32".to_string(), "linux_release_x86_32".to_string()));
    let web = template_copies_for("web");
    assert_eq!(web[7], ("godot.web.template_release.wasm32.nothreads.dlink.zip".to_string(), "web_release_dlink_nothreads.zip".to_string()));
    let android = template_copies_for("android");
    assert_eq!(android.len(), 9);
    assert_eq!(android[8], ("android_source.zip".to_string(), "android_source.zip".to_string()));
    assert_eq!(android[0], ("libgodot.android.template_debug.arm32.so".to_string(), "android_debug_arm32.so".to_string()));
    assert!(template_copies_for("macos").is_empty());
}

#[test]
fn apple_archives() {
    assert_eq!(
        apple_zip_members("ios"),
        strings(&[
            "libgodot.ios.template_debug.arm64..a",
            "libgodot.ios.template_release.arm64..a",
            "libgodot.ios.template_debug.x86_64.simulator..a",
            "libgodot.ios.template_release.x86_64.simulator..a",
        ])
    );
    assert_eq!(apple_zip_members("macos")[3], "godot.macos.template_release.x86_64.");
    assert!(apple_zip_members("linux").is_empty());
}

#[test]
fn clone_commands() {
    assert_eq!(
        project_clone_args("https://h/x.git", "x", Some(5)),
        strings(&["clone", "--depth", "5", "--progress", "--recurse-submodules", "https://h/x.git", "x"])
    );
    assert_eq!(
        project_clone_args("u", "d", None),
        strings(&["clone", "--progress", "--recurse-submodules", "u", "d"])
    );
    assert_eq!(
        engine_clone_args(Some("4.3-stable"), false),
        strings(&["clone", "--depth", "1", "--progress", "https://github.com/godotengine/godot.git", "godot", "--branch", "4.3-stable"])
    );
    assert_eq!(
        engine_clone_args(None, true),
        strings(&["clone", "--progress", "https://github.com/godotengine/godot.git", "godot"])
    );
}

#[test]
fn clone_progress_updates() {
    let mut st = CloneProgress { phase: String::new(), total: 0 };
    let u = progress_step(&mut st, "Receiving objects", 0, 5);
    assert_eq!(u.message.as_deref(), Some("Receiving objects"));
    assert_eq!((u.length, u.position), (None, None));
    let u = progress_step(&mut st, "Receiving objects", 100, 7);
    assert_eq!((u.message, u.length, u.position), (None, Some(100), Some(7)));
    let u = progress_step(&mut st, "Receiving objects", 100, 9);
    assert_eq!((u.length, u.position), (None, Some(9)));
}

#[test]
fn secure_keys() {
    assert_eq!(hex_string(&[0x00, 0xab, 0x7f]), "00ab7f");
    let k = generate_key().unwrap();
    assert_eq!(k.len(), 64);
    assert!(is_valid_key(&k));
    assert!(is_valid_key(&"aB".repeat(32)));
    assert!(!is_valid_key(&"a".repeat(63)));
    assert!(!is_valid_key(&"g".repeat(64)));
    assert_eq!(secure_script_input("k"), "y\nn\ny\nk\n\n\n");
    assert_eq!(python_command(true), "python");
    assert_eq!(python_command(false), "python3");
    assert_eq!(baseline_files()[0], "core/io/file_access_pack.h");
}

#[test]
fn secure_script_asset() {
    let names = strings(&["readme.md", "Godot.Secure.AES-256.Universal.txt", "x-Godot.Secure.AES-256.Universal-v2.py"]);
    assert_eq!(find_secure_script(&names), Some(2));
    assert_eq!(find_secure_script(&names[..2]), None);
}

fn owned(v: &[&str]) -> Vec<String> {
    v.iter().map(|s| s.to_string()).collect()
}

#[test]
fn scons_command_lines() {
    let editor = editor_build_args(false);
    assert_eq!(editor, owned(&["target=editor", "debug_symbols=no"]));
    assert_eq!(editor_build_args(true), owned(&["target=editor", "debug_symbols=no", "module_mono_enabled=yes"]));
    assert_eq!(
        scons_command_args(&editor, &[]),
        owned(&["target=editor", "debug_symbols=no", "verbose=yes", "warnings=all", "cache_dir=.scons_cache"])
    );
    assert_eq!(
        scons_command_args(&editor, &owned(&["verbose=no", "-j8"])),
        owned(&["target=editor", "debug_symbols=no", "warnings=all", "cache_dir=.scons_cache", "verbose=no", "-j8"])
    );
}

#[test]
fn dependency_installers() {
    assert!(is_install_script("install_d3d12_sdk_windows.py"));
    assert!(!is_install_script("install_vulkan_sdk_macos.sh"));
    assert!(!is_install_script("build_install.py"));
    assert_eq!(
        install_scripts(&owned(&["install_a.py", "readme.md", "install_b.py", "install_.pyc"])),
        owned(&["install_a.py", "install_b.py"])
    );
}

#[test]
fn butler_on_path() {
    assert_eq!(which_path("/usr/local/bin/butler\n"), "/usr/local/bin/butler");
    assert_eq!(which_path("C:\\tools\\butler.exe\r\nC:\\other\\butler.exe\r\n"), "C:\\tools\\butler.exe");
    assert_eq!(which_path("  \n"), "");
}

#[test]
fn key_from_random_bytes() {
    let mut bytes = vec![0u8; 32];
    bytes[0] = 0xab;
    bytes[31] = 0x0f;
    let key = key_from_bytes(Some(bytes)).unwrap();
    assert_eq!(key.len(), 64);
    assert!(key.starts_with("ab00"));
    assert!(key.ends_with("000f"));
    assert!(key_from_bytes(None).is_none());
}
