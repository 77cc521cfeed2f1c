//! Target platforms: the host operating system, export platform flags and
//! the names Godot and its download servers use for them.
use vstd::prelude::*;
use crate::text::{chars_of, chars_eq, has_prefix, push_str, starts_with};

verus! {

/// Operating system the program runs on.
#[derive(Clone, Copy, Debug, PartialEq, Eq, Structural)]
pub enum TargetOs {
    Windows,
    Linux,
    MacOs,
    Other,
}

/// `base` joined with the relative path `child`, as `Path::join` does:
/// a separator is added unless `base` is empty or already ends with one.
pub open spec fn joined(base: Seq<char>, child: Seq<char>, os: TargetOs) -> Seq<char> {
    let sep = if os == TargetOs::Windows { '\\' } else { '/' };
    if base.len() == 0 || base.last() == '/' || (os == TargetOs::Windows && base.last() == '\\') {
        base + child
    } else {
        base.push(sep) + child
    }
}

/// Joins the relative path `child` to `base` with the separator of `os`.
pub fn join_path(base: &str, child: &str, os: TargetOs) -> (r: String)
    ensures
        r@ == joined(base@, child@, os),
{
    let b = chars_of(base);
    let mut r = String::from_str(base);
    let n = b.len();
    if !(n == 0 || b[n - 1] == '/' || (os == TargetOs::Windows && b[n - 1] == '\\')) {
        crate::text::push_char(&mut r, if os == TargetOs::Windows { '\\' } else { '/' });
    }
    push_str(&mut r, child);
    r
}


/// Export platforms selected on the command line.
#[derive(Clone, Copy, Debug, Default)]
pub struct PlatformFlags {
    pub windows: bool,
    pub linux: bool,
    pub web: bool,
    pub macos: bool,
    pub ios: bool,
    pub android: bool,
    pub visionos: bool,
}

/// Names of the selected platforms, in the order windows, linux, web, macos,
/// ios, android, visionos.
pub open spec fn flag_names(f: PlatformFlags) -> Seq<Seq<char>> {
    (if f.windows { seq!["windows"@] } else { Seq::empty() })
        + (if f.linux { seq!["linux"@] } else { Seq::empty() })
        + (if f.web { seq!["web"@] } else { Seq::empty() })
        + (if f.macos { seq!["macos"@] } else { Seq::empty() })
        + (if f.ios { seq!["ios"@] } else { Seq::empty() })
        + (if f.android { seq!["android"@] } else { Seq::empty() })
        + (if f.visionos { seq!["visionos"@] } else { Seq::empty() })
}

/// The views of a vector of strings.
pub open spec fn string_views(v: Seq<String>) -> Seq<Seq<char>> {
    v.map_values(|s: String| s@)
}

fn push_if(v: &mut Vec<String>, flag: bool, name: &str)
    ensures
        string_views(final(v)@) == string_views(old(v)@) + (if flag { seq![name@] } else { Seq::empty() }),
{
    if flag {
        let ghost before = v@;
        v.push(String::from_str(name));
        assert(string_views(v@) =~= string_views(before) + seq![name@]);
    } else {
        assert(string_views(v@) =~= string_views(v@) + Seq::<Seq<char>>::empty());
    }
}

impl PlatformFlags {
    /// At least one platform is selected.
    pub fn any(&self) -> (b: bool)
        ensures
            b == (self.windows || self.linux || self.web || self.macos || self.ios || self.android || self.visionos),
    {
        self.windows || self.linux || self.web || self.macos || self.ios || self.android || self.visionos
    }

    /// Names of the selected platforms.
    pub fn to_platforms(&self) -> (v: Vec<String>)
        ensures
            string_views(v@) == flag_names(*self),
    {
        let mut v: Vec<String> = Vec::new();
        assert(string_views(v@) =~= Seq::<Seq<char>>::empty());
        push_if(&mut v, self.windows, "windows");
        push_if(&mut v, self.linux, "linux");
        push_if(&mut v, self.web, "web");
        push_if(&mut v, self.macos, "macos");
        push_if(&mut v, self.ios, "ios");
        push_if(&mut v, self.android, "android");
        push_if(&mut v, self.visionos, "visionos");
        assert(string_views(v@) =~= flag_names(*self));
        v
    }
}

/// Platform part of editor download names.
pub fn platform_id(os: TargetOs) -> (r: &'static str)
    ensures
        r@ == (match os {
            TargetOs::Windows => "win64"@,
            TargetOs::Linux => "linux.x86_64"@,
            TargetOs::MacOs => "macos.universal"@,
            TargetOs::Other => "unknown"@,
        }),
{
    match os {
        TargetOs::Windows => "win64",
        TargetOs::Linux => "linux.x86_64",
        TargetOs::MacOs => "macos.universal",
        TargetOs::Other => "unknown",
    }
}

/// Platform suffix of editor directory names.
pub fn platform_dir_suffix(os: TargetOs) -> (r: &'static str)
    ensures
        r@ == (match os {
            TargetOs::Windows => "win64"@,
            TargetOs::Linux => "linux"@,
            TargetOs::MacOs => "macos"@,
            TargetOs::Other => "unknown"@,
        }),
{
    match os {
        TargetOs::Windows => "win64",
        TargetOs::Linux => "linux",
        TargetOs::MacOs => "macos",
        TargetOs::Other => "unknown",
    }
}

/// Platform suffix of C# editor directory names.
pub fn mono_dir_suffix(os: TargetOs) -> (r: &'static str)
    ensures
        r@ == (match os {
            TargetOs::Windows => "mono_win64"@,
            TargetOs::Linux => "mono_linux"@,
            TargetOs::MacOs => "mono_macos"@,
            TargetOs::Other => "unknown"@,
        }),
{
    match os {
        TargetOs::Windows => "mono_win64",
        TargetOs::Linux => "mono_linux",
        TargetOs::MacOs => "mono_macos",
        TargetOs::Other => "unknown",
    }
}

/// Platform part of GDRE tools download names (empty where none is offered).
pub fn platform_asset_pattern(os: TargetOs) -> (r: &'static str)
    ensures
        r@ == (match os {
            TargetOs::Windows => "windows"@,
            TargetOs::Linux => "linux"@,
            TargetOs::MacOs => "macos"@,
            TargetOs::Other => ""@,
        }),
{
    match os {
        TargetOs::Windows => "windows",
        TargetOs::Linux => "linux",
        TargetOs::MacOs => "macos",
        TargetOs::Other => "",
    }
}

/// Export template files Godot needs for a platform.
pub open spec fn template_files(platform: Seq<char>) -> Seq<Seq<char>> {
    if platform == "windows"@ {
        seq![
            "windows_debug_x86_32.exe"@, "windows_debug_x86_32_console.exe"@,
            "windows_release_x86_32.exe"@, "windows_release_x86_32_console.exe"@,
            "windows_debug_x86_64.exe"@, "windows_debug_x86_64_console.exe"@,
            "windows_release_x86_64.exe"@, "windows_release_x86_64_console.exe"@,
            "windows_debug_arm64.exe"@, "windows_debug_arm64_console.exe"@,
            "windows_release_arm64.exe"@, "windows_release_arm64_console.exe"@
        ]
    } else if platform == "linux"@ {
        seq![
            "linux_debug.x86_32"@, "linux_release.x86_32"@, "linux_debug.x86_64"@, "linux_release.x86_64"@,
            "linux_debug.arm32"@, "linux_release.arm32"@, "linux_debug.arm64"@, "linux_release.arm64"@
        ]
    } else if platform == "macos"@ {
        seq!["macos.zip"@]
    } else if platform == "web"@ {
        seq![
            "web_debug.zip"@, "web_release.zip"@, "web_dlink_debug.zip"@, "web_dlink_release.zip"@,
            "web_nothreads_debug.zip"@, "web_nothreads_release.zip"@,
            "web_dlink_nothreads_debug.zip"@, "web_dlink_nothreads_release.zip"@
        ]
    } else if platform == "ios"@ {
        seq!["ios.zip"@]
    } else if platform == "android"@ {
        seq!["android_debug.apk"@, "android_release.apk"@, "android_source.zip"@]
    } else {
        Seq::empty()
    }
}

/// The views of a vector of string slices.
pub open spec fn str_views(v: Seq<&str>) -> Seq<Seq<char>> {
    v.map_values(|s: &str| s@)
}

fn is_named(p: &str, name: &str) -> (b: bool)
    ensures
        b == (p@ == name@),
{
    chars_eq(chars_of(p).as_slice(), chars_of(name).as_slice())
}

/// Export template files Godot needs for `platform` (none for an unknown one).
pub fn platform_template_files(platform: &str) -> (v: Vec<&'static str>)
    ensures
        str_views(v@) == template_files(platform@),
{
    let v: Vec<&'static str> = if is_named(platform, "windows") {
        vec![
            "windows_debug_x86_32.exe", "windows_debug_x86_32_console.exe",
            "windows_release_x86_32.exe", "windows_release_x86_32_console.exe",
            "windows_debug_x86_64.exe", "windows_debug_x86_64_console.exe",
            "windows_release_x86_64.exe", "windows_release_x86_64_console.exe",
            "windows_debug_arm64.exe", "windows_debug_arm64_console.exe",
            "windows_release_arm64.exe", "windows_release_arm64_console.exe",
        ]
    } else if is_named(platform, "linux") {
        vec![
            "linux_debug.x86_32", "linux_release.x86_32", "linux_debug.x86_64", "linux_release.x86_64",
            "linux_debug.arm32", "linux_release.arm32", "linux_debug.arm64", "linux_release.arm64",
        ]
    } else if is_named(platform, "macos") {
        vec!["macos.zip"]
    } else if is_named(platform, "web") {
        vec![
            "web_debug.zip", "web_release.zip", "web_dlink_debug.zip", "web_dlink_release.zip",
            "web_nothreads_debug.zip", "web_nothreads_release.zip",
            "web_dlink_nothreads_debug.zip", "web_dlink_nothreads_release.zip",
        ]
    } else if is_named(platform, "ios") {
        vec!["ios.zip"]
    } else if is_named(platform, "android") {
        vec!["android_debug.apk", "android_release.apk", "android_source.zip"]
    } else {
        vec![]
    };
    assert(str_views(v@) =~= template_files(platform@));
    v
}

/// gdio's platform name for a Godot export platform name.
pub open spec fn gdio_platform(godot: Seq<char>) -> Option<Seq<char>> {
    if godot == "Windows"@ || godot == "Windows Desktop"@ {
        Some("windows"@)
    } else if godot == "Linux"@ || godot == "Linux/X11"@ {
        Some("linux"@)
    } else if godot == "Web"@ || godot == "HTML5"@ {
        Some("web"@)
    } else if godot == "macOS"@ || godot == "Mac OSX"@ {
        Some("macos"@)
    } else if godot == "iOS"@ {
        Some("ios"@)
    } else if godot == "Android"@ {
        Some("android"@)
    } else {
        None
    }
}

/// Maps a Godot export platform name to gdio's platform name.
pub fn godot_platform_to_gdio(godot_platform: &str) -> (r: Option<&'static str>)
    ensures
        r matches Some(p) ==> gdio_platform(godot_platform@) == Some(p@),
        r is None ==> gdio_platform(godot_platform@) is None,
{
    if is_named(godot_platform, "Windows") || is_named(godot_platform, "Windows Desktop") {
        Some("windows")
    } else if is_named(godot_platform, "Linux") || is_named(godot_platform, "Linux/X11") {
        Some("linux")
    } else if is_named(godot_platform, "Web") || is_named(godot_platform, "HTML5") {
        Some("web")
    } else if is_named(godot_platform, "macOS") || is_named(godot_platform, "Mac OSX") {
        Some("macos")
    } else if is_named(godot_platform, "iOS") {
        Some("ios")
    } else if is_named(godot_platform, "Android") {
        Some("android")
    } else {
        None
    }
}

/// Some installed file name starts with `p`.
pub open spec fn any_starts_with(files: Seq<Seq<char>>, p: Seq<char>) -> bool {
    exists|i: int| 0 <= i < files.len() && starts_with(#[trigger] files[i], p)
}

/// Platforms whose export templates are installed, judged by file-name
/// prefixes, in the order windows, linux, macos, web, ios, android.
pub open spec fn installed_platforms(files: Seq<Seq<char>>) -> Seq<Seq<char>> {
    (if any_starts_with(files, "windows_"@) { seq!["windows"@] } else { Seq::empty() })
        + (if any_starts_with(files, "linux_"@) { seq!["linux"@] } else { Seq::empty() })
        + (if any_starts_with(files, "macos"@) { seq!["macos"@] } else { Seq::empty() })
        + (if any_starts_with(files, "web_"@) { seq!["web"@] } else { Seq::empty() })
        + (if any_starts_with(files, "ios"@) { seq!["ios"@] } else { Seq::empty() })
        + (if any_starts_with(files, "android"@) { seq!["android"@] } else { Seq::empty() })
}

fn any_prefixed(files: &[String], p: &str) -> (b: bool)
    ensures
        b == any_starts_with(string_views(files@), p@),
{
    let pc = chars_of(p);
    let mut i: usize = 0;
    while i < files.len()
        invariant
            i <= files@.len(),
            pc@ == p@,
            forall|j: int| 0 <= j < i ==> !starts_with(#[trigger] string_views(files@)[j], p@),
        decreases files.len() - i,
    {
        if has_prefix(chars_of(files[i].as_str()).as_slice(), pc.as_slice()) {
            assert(starts_with(string_views(files@)[i as int], p@));
            return true;
        }
        i = i + 1;
    }
    false
}

/// Platforms whose export templates are among the installed `files`.
pub fn detect_platforms(files: &[String]) -> (v: Vec<String>)
    ensures
        string_views(v@) == installed_platforms(string_views(files@)),
{
    let mut v: Vec<String> = Vec::new();
    assert(string_views(v@) =~= Seq::<Seq<char>>::empty());
    let w = any_prefixed(files, "windows_");
    push_if(&mut v, w, "windows");
    let l = any_prefixed(files, "linux_");
    push_if(&mut v, l, "linux");
    let m = any_prefixed(files, "macos");
    push_if(&mut v, m, "macos");
    let b = any_prefixed(files, "web_");
    push_if(&mut v, b, "web");
    let i = any_prefixed(files, "ios");
    push_if(&mut v, i, "ios");
    let a = any_prefixed(files, "android");
    push_if(&mut v, a, "android");
    assert(string_views(v@) =~= installed_platforms(string_views(files@)));
    v
}

} // verus!
