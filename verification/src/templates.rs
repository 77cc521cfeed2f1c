//! The export templates Godot ships, grouped by platform, and the tree of
//! installed templates shown for an engine version.
use vstd::prelude::*;
use crate::text::{chars_of, chars_eq, push_str};
use crate::platform::{str_views, string_views, template_files};

verus! {

/// One template of a platform: its name and files.
pub struct TemplateInfo {
    pub name: &'static str,
    pub files: Vec<&'static str>,
}

/// The templates of a platform.
pub struct TemplateGroup {
    pub platform: &'static str,
    pub templates: Vec<TemplateInfo>,
}

/// A template as (name, files).
pub open spec fn info_view(t: TemplateInfo) -> (Seq<char>, Seq<Seq<char>>) {
    (t.name@, str_views(t.files@))
}

/// A platform's templates as (platform, templates).
pub open spec fn group_view(g: TemplateGroup) -> (Seq<char>, Seq<(Seq<char>, Seq<Seq<char>>)>) {
    (g.platform@, g.templates@.map_values(|t: TemplateInfo| info_view(t)))
}

/// The template groups: Windows, Linux, macOS, Web, Android and iOS.
pub open spec fn template_table() -> Seq<(Seq<char>, Seq<(Seq<char>, Seq<Seq<char>>)>)> {
    seq![
        ("Windows"@, seq![
            ("Windows x86_32"@, seq!["windows_debug_x86_32.exe"@, "windows_debug_x86_32_console.exe"@,
                "windows_release_x86_32.exe"@, "windows_release_x86_32_console.exe"@]),
            ("Windows x86_64"@, seq!["windows_debug_x86_64.exe"@, "windows_debug_x86_64_console.exe"@,
                "windows_release_x86_64.exe"@, "windows_release_x86_64_console.exe"@]),
            ("Windows arm64"@, seq!["windows_debug_arm64.exe"@, "windows_debug_arm64_console.exe"@,
                "windows_release_arm64.exe"@, "windows_release_arm64_console.exe"@])
        ]),
        ("Linux"@, seq![
            ("Linux x86_32"@, seq!["linux_debug.x86_32"@, "linux_release.x86_32"@]),
            ("Linux x86_64"@, seq!["linux_debug.x86_64"@, "linux_release.x86_64"@]),
            ("Linux arm32"@, seq!["linux_debug.arm32"@, "linux_release.arm32"@]),
            ("Linux arm64"@, seq!["linux_debug.arm64"@, "linux_release.arm64"@])
        ]),
        ("macOS"@, seq![("macOS"@, seq!["macos.zip"@])]),
        ("Web"@, seq![
            ("Web"@, seq!["web_debug.zip"@, "web_release.zip"@]),
            ("Web with Extensions"@, seq!["web_dlink_debug.zip"@, "web_dlink_release.zip"@]),
            ("Web Single-Threaded"@, seq!["web_nothreads_debug.zip"@, "web_nothreads_release.zip"@]),
            ("Web with Extensions Single-Threaded"@, seq!["web_dlink_nothreads_debug.zip"@,
                "web_dlink_nothreads_release.zip"@])
        ]),
        ("Android"@, seq![("Android"@, seq!["android_debug.apk"@, "android_release.apk"@, "android_source.zip"@])]),
        ("iOS"@, seq![("iOS"@, seq!["ios.zip"@])])
    ]
}

fn info(name: &'static str, files: Vec<&'static str>) -> (t: TemplateInfo)
    ensures
        t.name == name,
        t.files == files,
{
    TemplateInfo { name, files }
}

/// The template groups, by platform.
pub fn get_template_groups() -> (v: Vec<TemplateGroup>)
    ensures
        v@.map_values(|g: TemplateGroup| group_view(g)) == template_table(),
{
    let windows = TemplateGroup {
        platform: "Windows",
        templates: vec![
            info("Windows x86_32", vec!["windows_debug_x86_32.exe", "windows_debug_x86_32_console.exe",
                "windows_release_x86_32.exe", "windows_release_x86_32_console.exe"]),
            info("Windows x86_64", vec!["windows_debug_x86_64.exe", "windows_debug_x86_64_console.exe",
                "windows_release_x86_64.exe", "windows_release_x86_64_console.exe"]),
            info("Windows arm64", vec!["windows_debug_arm64.exe", "windows_debug_arm64_console.exe",
                "windows_release_arm64.exe", "windows_release_arm64_console.exe"]),
        ],
    };
    let linux = TemplateGroup {
        platform: "Linux",
        templates: vec![
            info("Linux x86_32", vec!["linux_debug.x86_32", "linux_release.x86_32"]),
            info("Linux x86_64", vec!["linux_debug.x86_64", "linux_release.x86_64"]),
            info("Linux arm32", vec!["linux_debug.arm32", "linux_release.arm32"]),
            info("Linux arm64", vec!["linux_debug.arm64", "linux_release.arm64"]),
        ],
    };
    let macos = TemplateGroup { platform: "macOS", templates: vec![info("macOS", vec!["macos.zip"])] };
    let web = TemplateGroup {
        platform: "Web",
        templates: vec![
            info("Web", vec!["web_debug.zip", "web_release.zip"]),
            info("Web with Extensions", vec!["web_dlink_debug.zip", "web_dlink_release.zip"]),
            info("Web Single-Threaded", vec!["web_nothreads_debug.zip", "web_nothreads_release.zip"]),
            info("Web with Extensions Single-Threaded", vec!["web_dlink_nothreads_debug.zip",
                "web_dlink_nothreads_release.zip"]),
        ],
    };
    let android = TemplateGroup {
        platform: "Android",
        templates: vec![info("Android", vec!["android_debug.apk", "android_release.apk", "android_source.zip"])],
    };
    let ios = TemplateGroup { platform: "iOS", templates: vec![info("iOS", vec!["ios.zip"])] };
    proof {
        assert(group_view(windows) =~~= template_table()[0]);
        assert(group_view(linux) =~~= template_table()[1]);
        assert(group_view(macos) =~~= template_table()[2]);
        assert(group_view(web) =~~= template_table()[3]);
        assert(group_view(android) =~~= template_table()[4]);
        assert(group_view(ios) =~~= template_table()[5]);
    }
    let v = vec![windows, linux, macos, web, android, ios];
    assert(v@.map_values(|g: TemplateGroup| group_view(g)) =~= template_table());
    v
}

/// All files of a platform's templates, in order.
pub open spec fn group_files(ts: Seq<(Seq<char>, Seq<Seq<char>>)>) -> Seq<Seq<char>>
    decreases ts.len(),
{
    if ts.len() == 0 {
        Seq::empty()
    } else {
        group_files(ts.drop_last()) + ts.last().1
    }
}

/// gdio's platform name for each template group.
pub open spec fn group_platform_names() -> Seq<Seq<char>> {
    seq!["windows"@, "linux"@, "macos"@, "web"@, "android"@, "ios"@]
}

/// Law: the files of each template group are exactly, in order, the
/// template files of its platform.
pub proof fn lemma_groups_cover_platform_files()
    ensures
        template_table().len() == group_platform_names().len(),
        forall|k: int| 0 <= k < template_table().len() ==>
            group_files(#[trigger] template_table()[k].1) == template_files(group_platform_names()[k]),
{
    reveal_strlit("windows");
    reveal_strlit("linux");
    reveal_strlit("macos");
    reveal_strlit("web");
    reveal_strlit("android");
    reveal_strlit("ios");
    let t = template_table();
    reveal_with_fuel(group_files, 5);
    assert("linux"@ != "windows"@) by { assert("linux"@.len() != "windows"@.len()); }
    assert("macos"@ != "windows"@) by { assert("macos"@[0] != "windows"@[0]); }
    assert("macos"@ != "linux"@) by { assert("macos"@[0] != "linux"@[0]); }
    assert("web"@ != "windows"@) by { assert("web"@.len() != "windows"@.len()); }
    assert("web"@ != "linux"@) by { assert("web"@.len() != "linux"@.len()); }
    assert("web"@ != "macos"@) by { assert("web"@.len() != "macos"@.len()); }
    assert("android"@ != "windows"@) by { assert("android"@[0] != "windows"@[0]); }
    assert("android"@ != "linux"@) by { assert("android"@.len() != "linux"@.len()); }
    assert("android"@ != "macos"@) by { assert("android"@.len() != "macos"@.len()); }
    assert("android"@ != "web"@) by { assert("android"@.len() != "web"@.len()); }
    assert("android"@ != "ios"@) by { assert("android"@.len() != "ios"@.len()); }
    assert("ios"@ != "windows"@) by { assert("ios"@.len() != "windows"@.len()); }
    assert("ios"@ != "linux"@) by { assert("ios"@.len() != "linux"@.len()); }
    assert("ios"@ != "macos"@) by { assert("ios"@.len() != "macos"@.len()); }
    assert("ios"@ != "web"@) by { assert("ios"@[0] != "web"@[0]); }
    assert(group_files(t[0].1) =~= template_files("windows"@));
    assert(group_files(t[1].1) =~= template_files("linux"@));
    assert(group_files(t[2].1) =~= template_files("macos"@));
    assert(group_files(t[3].1) =~= template_files("web"@));
    assert(group_files(t[4].1) =~= template_files("android"@));
    assert(group_files(t[5].1) =~= template_files("ios"@));
}

/// Some file of `files` is installed.
pub open spec fn any_installed(files: Seq<Seq<char>>, installed: Seq<Seq<char>>) -> bool {
    exists|i: int| 0 <= i < files.len() && installed.contains(#[trigger] files[i])
}

/// Lines naming the templates of `ts` that have an installed file.
pub open spec fn template_lines(ts: Seq<(Seq<char>, Seq<Seq<char>>)>, installed: Seq<Seq<char>>) -> Seq<Seq<char>>
    decreases ts.len(),
{
    if ts.len() == 0 {
        Seq::empty()
    } else {
        template_lines(ts.drop_last(), installed)
            + (if any_installed(ts.last().1, installed) { seq!["    "@ + ts.last().0] } else { Seq::empty() })
    }
}

/// Some template of `ts` has an installed file.
pub open spec fn group_installed(ts: Seq<(Seq<char>, Seq<Seq<char>>)>, installed: Seq<Seq<char>>) -> bool {
    exists|t: int| 0 <= t < ts.len() && any_installed(#[trigger] ts[t].1, installed)
}

/// Lines for one platform: its name when it has an installed template, then
/// (for platforms with several templates) the installed templates' names.
pub open spec fn group_lines(g: (Seq<char>, Seq<(Seq<char>, Seq<Seq<char>>)>), installed: Seq<Seq<char>>) -> Seq<Seq<char>> {
    if group_installed(g.1, installed) {
        seq!["  "@ + g.0] + (if g.1.len() > 1 { template_lines(g.1, installed) } else { Seq::empty() })
    } else {
        Seq::empty()
    }
}

/// The tree of installed templates for the groups `gs`.
pub open spec fn tree_lines(gs: Seq<(Seq<char>, Seq<(Seq<char>, Seq<Seq<char>>)>)>, installed: Seq<Seq<char>>) -> Seq<Seq<char>>
    decreases gs.len(),
{
    if gs.len() == 0 {
        Seq::empty()
    } else {
        tree_lines(gs.drop_last(), installed) + group_lines(gs.last(), installed)
    }
}

fn is_installed(file: &str, installed: &[String]) -> (b: bool)
    ensures
        b == string_views(installed@).contains(file@),
{
    let f = chars_of(file);
    let mut i: usize = 0;
    while i < installed.len()
        invariant
            i <= installed@.len(),
            f@ == file@,
            forall|j: int| 0 <= j < i ==> installed@[j]@ != file@,
        decreases installed.len() - i,
    {
        if chars_eq(chars_of(installed[i].as_str()).as_slice(), f.as_slice()) {
            assert(string_views(installed@)[i as int] == file@);
            return true;
        }
        i = i + 1;
    }
    assert forall|j: int| 0 <= j < string_views(installed@).len() implies string_views(installed@)[j] != file@ by {
        assert(string_views(installed@)[j] == installed@[j]@);
    }
    false
}

fn files_installed(files: &Vec<&'static str>, installed: &[String]) -> (b: bool)
    ensures
        b == any_installed(str_views(files@), string_views(installed@)),
{
    let mut i: usize = 0;
    while i < files.len()
        invariant
            i <= files@.len(),
            forall|j: int| 0 <= j < i ==> !string_views(installed@).contains(#[trigger] str_views(files@)[j]),
        decreases files.len() - i,
    {
        assert(str_views(files@)[i as int] == files@[i as int]@);
        if is_installed(files[i], installed) {
            return true;
        }
        i = i + 1;
    }
    false
}

/// The lines of the tree of installed templates: for each platform with an
/// installed file, `  <platform>`, then `    <template>` for each template
/// with an installed file when the platform has several.
pub fn template_tree_lines(installed: &[String]) -> (lines: Vec<String>)
    ensures
        string_views(lines@) == tree_lines(template_table(), string_views(installed@)),
{
    let groups = get_template_groups();
    let ghost table = template_table();
    let ghost inst = string_views(installed@);
    let mut lines: Vec<String> = Vec::new();
    let mut g: usize = 0;
    assert(table.take(0) =~= Seq::<(Seq<char>, Seq<(Seq<char>, Seq<Seq<char>>)>)>::empty());
    while g < groups.len()
        invariant
            g <= groups@.len(),
            groups@.map_values(|x: TemplateGroup| group_view(x)) == table,
            table == template_table(),
            inst == string_views(installed@),
            string_views(lines@) == tree_lines(table.take(g as int), inst),
        decreases groups.len() - g,
    {
        let group = &groups[g];
        let ghost gv = group_view(*group);
        assert(gv == table[g as int]);
        let ts = &group.templates;
        let ghost tsv = gv.1;
        let mut any = false;
        let mut t: usize = 0;
        while t < ts.len()
            invariant
                t <= ts@.len(),
                tsv == ts@.map_values(|x: TemplateInfo| info_view(x)),
                inst == string_views(installed@),
                !any ==> forall|j: int| 0 <= j < t ==> !any_installed(#[trigger] tsv[j].1, inst),
                any ==> group_installed(tsv, inst),
            decreases ts.len() - t,
        {
            assert(tsv[t as int] == info_view(ts@[t as int]));
            if files_installed(&ts[t].files, installed) {
                assert(any_installed(tsv[t as int].1, inst));
                any = true;
            }
            t = t + 1;
        }
        let ghost before = string_views(lines@);
        if any {
            let mut head = String::from_str("  ");
            push_str(&mut head, group.platform);
            lines.push(head);
            if ts.len() > 1 {
                let mut k: usize = 0;
                let ghost start = string_views(lines@);
                assert(tsv.take(0) =~= Seq::<(Seq<char>, Seq<Seq<char>>)>::empty());
                while k < ts.len()
                    invariant
                        k <= ts@.len(),
                        tsv == ts@.map_values(|x: TemplateInfo| info_view(x)),
                        inst == string_views(installed@),
                        string_views(lines@) == start + template_lines(tsv.take(k as int), inst),
                    decreases ts.len() - k,
                {
                    assert(tsv.take(k + 1).drop_last() == tsv.take(k as int));
                    assert(tsv.take(k + 1).last() == info_view(ts@[k as int]));
                    let ghost mid = string_views(lines@);
                    if files_installed(&ts[k].files, installed) {
                        let mut line = String::from_str("    ");
                        push_str(&mut line, ts[k].name);
                        lines.push(line);
                        assert(string_views(lines@) =~= mid.push(("    "@ + ts@[k as int].name@)));
                    }
                    k = k + 1;
                }
                assert(tsv.take(ts@.len() as int) == tsv);
            }
        }
        assert(table.take(g + 1).drop_last() == table.take(g as int));
        assert(table.take(g + 1).last() == gv);
        assert(string_views(lines@) =~= before + group_lines(gv, inst));
        g = g + 1;
    }
    assert(table.take(table.len() as int) == table);
    lines
}

} // verus!
