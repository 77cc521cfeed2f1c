//! Laws of the export template table: no file is listed twice, and every
//! group and every template lists something.
use vstd::prelude::*;
use vstd::seq_lib::lemma_no_dup_in_concat;
use crate::platform::template_files;
use crate::templates::{group_files, lemma_groups_cover_platform_files, template_table};

verus! {

/// All files of the template groups `gs`, group after group.
pub open spec fn table_files(gs: Seq<(Seq<char>, Seq<(Seq<char>, Seq<Seq<char>>)>)>) -> Seq<Seq<char>>
    decreases gs.len(),
{
    if gs.len() == 0 {
        Seq::empty()
    } else {
        table_files(gs.drop_last()) + group_files(gs.last().1)
    }
}

/// The entry of `s` at `i` differs from each entry at `j` or after.
spec fn distinct_after(s: Seq<Seq<char>>, i: int, j: int) -> bool
    decreases s.len() - j,
{
    j >= s.len() || (s[i] != s[j] && distinct_after(s, i, j + 1))
}

/// Each entry of `s` at `i` or after differs from every later entry.
spec fn distinct_from(s: Seq<Seq<char>>, i: int) -> bool
    decreases s.len() - i,
{
    i >= s.len() || (distinct_after(s, i, i + 1) && distinct_from(s, i + 1))
}

/// Each entry of `s` at `i` or after begins with the characters `c0`, `c1`.
spec fn prefixed_from(s: Seq<Seq<char>>, c0: char, c1: char, i: int) -> bool
    decreases s.len() - i,
{
    i >= s.len() || (s[i].len() >= 2 && s[i][0] == c0 && s[i][1] == c1 && prefixed_from(s, c0, c1, i + 1))
}

proof fn lemma_distinct_after(s: Seq<Seq<char>>, i: int, j: int)
    requires
        distinct_after(s, i, j),
    ensures
        forall|b: int| j <= b < s.len() ==> s[i] != #[trigger] s[b],
    decreases s.len() - j,
{
    if j < s.len() {
        lemma_distinct_after(s, i, j + 1);
    }
}

proof fn lemma_distinct_from(s: Seq<Seq<char>>, i: int)
    requires
        0 <= i,
        distinct_from(s, i),
    ensures
        forall|a: int, b: int| i <= a < b < s.len() ==> #[trigger] s[a] != #[trigger] s[b],
    decreases s.len() - i,
{
    if i < s.len() {
        lemma_distinct_after(s, i, i + 1);
        lemma_distinct_from(s, i + 1);
    }
}

proof fn lemma_prefixed_from(s: Seq<Seq<char>>, c0: char, c1: char, i: int)
    requires
        prefixed_from(s, c0, c1, i),
    ensures
        forall|k: int| i <= k < s.len() ==> (#[trigger] s[k]).len() >= 2 && s[k][0] == c0 && s[k][1] == c1,
    decreases s.len() - i,
{
    if i < s.len() {
        lemma_prefixed_from(s, c0, c1, i + 1);
    }
}

/// The files of one platform: none twice, each beginning with `c0`, `c1`.
spec fn distinct_prefixed(s: Seq<Seq<char>>, c0: char, c1: char) -> bool {
    &&& s.no_duplicates()
    &&& forall|k: int| 0 <= k < s.len() ==> (#[trigger] s[k]).len() >= 2 && s[k][0] == c0 && s[k][1] == c1
}

proof fn lemma_distinct_prefixed(s: Seq<Seq<char>>, c0: char, c1: char)
    requires
        distinct_from(s, 0),
        prefixed_from(s, c0, c1, 0),
    ensures
        distinct_prefixed(s, c0, c1),
{
    lemma_distinct_from(s, 0);
    lemma_prefixed_from(s, c0, c1, 0);
}

/// The platform names are pairwise different.
proof fn lemma_platform_names_differ()
    ensures
        "windows"@ != "linux"@,
        "windows"@ != "macos"@,
        "windows"@ != "web"@,
        "windows"@ != "android"@,
        "windows"@ != "ios"@,
        "linux"@ != "macos"@,
        "linux"@ != "web"@,
        "linux"@ != "android"@,
        "linux"@ != "ios"@,
        "macos"@ != "web"@,
        "macos"@ != "android"@,
        "macos"@ != "ios"@,
        "web"@ != "android"@,
        "web"@ != "ios"@,
        "android"@ != "ios"@,
{
    reveal_strlit("windows");
    reveal_strlit("linux");
    reveal_strlit("macos");
    reveal_strlit("web");
    reveal_strlit("android");
    reveal_strlit("ios");
    assert("windows"@.len() != "linux"@.len());
    assert("windows"@.len() != "macos"@.len());
    assert("windows"@.len() != "web"@.len());
    assert("windows"@[0] != "android"@[0]);
    assert("windows"@.len() != "ios"@.len());
    assert("linux"@[0] != "macos"@[0]);
    assert("linux"@.len() != "web"@.len());
    assert("linux"@.len() != "android"@.len());
    assert("linux"@.len() != "ios"@.len());
    assert("macos"@.len() != "web"@.len());
    assert("macos"@.len() != "android"@.len());
    assert("macos"@.len() != "ios"@.len());
    assert("web"@.len() != "android"@.len());
    assert("web"@[0] != "ios"@[0]);
    assert("android"@.len() != "ios"@.len());
}

/// The windows template files: none twice, each beginning with the
/// same two characters.
proof fn lemma_windows_files()
    ensures
        distinct_prefixed(template_files("windows"@), 'w', 'i'),
{
    reveal_strlit("windows_debug_x86_32.exe");
    reveal_strlit("windows_debug_x86_32_console.exe");
    reveal_strlit("windows_release_x86_32.exe");
    reveal_strlit("windows_release_x86_32_console.exe");
    reveal_strlit("windows_debug_x86_64.exe");
    reveal_strlit("windows_debug_x86_64_console.exe");
    reveal_strlit("windows_release_x86_64.exe");
    reveal_strlit("windows_release_x86_64_console.exe");
    reveal_strlit("windows_debug_arm64.exe");
    reveal_strlit("windows_debug_arm64_console.exe");
    reveal_strlit("windows_release_arm64.exe");
    reveal_strlit("windows_release_arm64_console.exe");
    lemma_platform_names_differ();
    let f = template_files("windows"@);
    assert(f[0] == "windows_debug_x86_32.exe"@ && f[0].len() == 24);
    assert(f[1] == "windows_debug_x86_32_console.exe"@ && f[1].len() == 32);
    assert(f[2] == "windows_release_x86_32.exe"@ && f[2].len() == 26);
    assert(f[3] == "windows_release_x86_32_console.exe"@ && f[3].len() == 34);
    assert(f[4] == "windows_debug_x86_64.exe"@ && f[4].len() == 24);
    assert(f[5] == "windows_debug_x86_64_console.exe"@ && f[5].len() == 32);
    assert(f[6] == "windows_release_x86_64.exe"@ && f[6].len() == 26);
    assert(f[7] == "windows_release_x86_64_console.exe"@ && f[7].len() == 34);
    assert(f[8] == "windows_debug_arm64.exe"@ && f[8].len() == 23);
    assert(f[9] == "windows_debug_arm64_console.exe"@ && f[9].len() == 31);
    assert(f[10] == "windows_release_arm64.exe"@ && f[10].len() == 25);
    assert(f[11] == "windows_release_arm64_console.exe"@ && f[11].len() == 33);
    assert("windows_debug_x86_32.exe"@[18] != "windows_debug_x86_64.exe"@[18]);
    assert("windows_debug_x86_32_console.exe"@[18] != "windows_debug_x86_64_console.exe"@[18]);
    assert("windows_release_x86_32.exe"@[20] != "windows_release_x86_64.exe"@[20]);
    assert("windows_release_x86_32_console.exe"@[20] != "windows_release_x86_64_console.exe"@[20]);
    reveal_with_fuel(distinct_after, 13);
    reveal_with_fuel(distinct_from, 13);
    reveal_with_fuel(prefixed_from, 13);
    lemma_distinct_prefixed(f, 'w', 'i');
}

/// The linux template files: none twice, each beginning with the
/// same two characters.
proof fn lemma_linux_files()
    ensures
        distinct_prefixed(template_files("linux"@), 'l', 'i'),
{
    reveal_strlit("linux_debug.x86_32");
    reveal_strlit("linux_release.x86_32");
    reveal_strlit("linux_debug.x86_64");
    reveal_strlit("linux_release.x86_64");
    reveal_strlit("linux_debug.arm32");
    reveal_strlit("linux_release.arm32");
    reveal_strlit("linux_debug.arm64");
    reveal_strlit("linux_release.arm64");
    lemma_platform_names_differ();
    let f = template_files("linux"@);
    assert(f[0] == "linux_debug.x86_32"@ && f[0].len() == 18);
    assert(f[1] == "linux_release.x86_32"@ && f[1].len() == 20);
    assert(f[2] == "linux_debug.x86_64"@ && f[2].len() == 18);
    assert(f[3] == "linux_release.x86_64"@ && f[3].len() == 20);
    assert(f[4] == "linux_debug.arm32"@ && f[4].len() == 17);
    assert(f[5] == "linux_release.arm32"@ && f[5].len() == 19);
    assert(f[6] == "linux_debug.arm64"@ && f[6].len() == 17);
    assert(f[7] == "linux_release.arm64"@ && f[7].len() == 19);
    assert("linux_debug.x86_32"@[16] != "linux_debug.x86_64"@[16]);
    assert("linux_release.x86_32"@[18] != "linux_release.x86_64"@[18]);
    assert("linux_debug.arm32"@[15] != "linux_debug.arm64"@[15]);
    assert("linux_release.arm32"@[17] != "linux_release.arm64"@[17]);
    reveal_with_fuel(distinct_after, 9);
    reveal_with_fuel(distinct_from, 9);
    reveal_with_fuel(prefixed_from, 9);
    lemma_distinct_prefixed(f, 'l', 'i');
}

/// The macos template files: none twice, each beginning with the
/// same two characters.
proof fn lemma_macos_files()
    ensures
        distinct_prefixed(template_files("macos"@), 'm', 'a'),
{
    reveal_strlit("macos.zip");
    lemma_platform_names_differ();
    let f = template_files("macos"@);
    assert(f[0] == "macos.zip"@ && f[0].len() == 9);
    reveal_with_fuel(distinct_after, 2);
    reveal_with_fuel(distinct_from, 2);
    reveal_with_fuel(prefixed_from, 2);
    lemma_distinct_prefixed(f, 'm', 'a');
}

/// The web template files: none twice, each beginning with the
/// same two characters.
proof fn lemma_web_files()
    ensures
        distinct_prefixed(template_files("web"@), 'w', 'e'),
{
    reveal_strlit("web_debug.zip");
    reveal_strlit("web_release.zip");
    reveal_strlit("web_dlink_debug.zip");
    reveal_strlit("web_dlink_release.zip");
    reveal_strlit("web_nothreads_debug.zip");
    reveal_strlit("web_nothreads_release.zip");
    reveal_strlit("web_dlink_nothreads_debug.zip");
    reveal_strlit("web_dlink_nothreads_release.zip");
    lemma_platform_names_differ();
    let f = template_files("web"@);
    assert(f[0] == "web_debug.zip"@ && f[0].len() == 13);
    assert(f[1] == "web_release.zip"@ && f[1].len() == 15);
    assert(f[2] == "web_dlink_debug.zip"@ && f[2].len() == 19);
    assert(f[3] == "web_dlink_release.zip"@ && f[3].len() == 21);
    assert(f[4] == "web_nothreads_debug.zip"@ && f[4].len() == 23);
    assert(f[5] == "web_nothreads_release.zip"@ && f[5].len() == 25);
    assert(f[6] == "web_dlink_nothreads_debug.zip"@ && f[6].len() == 29);
    assert(f[7] == "web_dlink_nothreads_release.zip"@ && f[7].len() == 31);
    reveal_with_fuel(distinct_after, 9);
    reveal_with_fuel(distinct_from, 9);
    reveal_with_fuel(prefixed_from, 9);
    lemma_distinct_prefixed(f, 'w', 'e');
}

/// The android template files: none twice, each beginning with the
/// same two characters.
proof fn lemma_android_files()
    ensures
        distinct_prefixed(template_files("android"@), 'a', 'n'),
{
    reveal_strlit("android_debug.apk");
    reveal_strlit("android_release.apk");
    reveal_strlit("android_source.zip");
    lemma_platform_names_differ();
    let f = template_files("android"@);
    assert(f[0] == "android_debug.apk"@ && f[0].len() == 17);
    assert(f[1] == "android_release.apk"@ && f[1].len() == 19);
    assert(f[2] == "android_source.zip"@ && f[2].len() == 18);
    reveal_with_fuel(distinct_after, 4);
    reveal_with_fuel(distinct_from, 4);
    reveal_with_fuel(prefixed_from, 4);
    lemma_distinct_prefixed(f, 'a', 'n');
}

/// The ios template files: none twice, each beginning with the
/// same two characters.
proof fn lemma_ios_files()
    ensures
        distinct_prefixed(template_files("ios"@), 'i', 'o'),
{
    reveal_strlit("ios.zip");
    lemma_platform_names_differ();
    let f = template_files("ios"@);
    assert(f[0] == "ios.zip"@ && f[0].len() == 7);
    reveal_with_fuel(distinct_after, 2);
    reveal_with_fuel(distinct_from, 2);
    reveal_with_fuel(prefixed_from, 2);
    lemma_distinct_prefixed(f, 'i', 'o');
}

/// Law: no file is listed twice in the template table, every group lists
/// at least one template, and every template at least one file.
pub proof fn lemma_template_table_well_formed()
    ensures
        table_files(template_table()).no_duplicates(),
        forall|k: int| 0 <= k < template_table().len() ==> (#[trigger] template_table()[k]).1.len() > 0,
        forall|k: int, j: int|
            0 <= k < template_table().len() && 0 <= j < template_table()[k].1.len()
                ==> (#[trigger] template_table()[k].1[j]).1.len() > 0,
{
    let t = template_table();
    lemma_groups_cover_platform_files();
    lemma_platform_names_differ();
    let w = template_files("windows"@);
    let l = template_files("linux"@);
    let m = template_files("macos"@);
    let e = template_files("web"@);
    let a = template_files("android"@);
    let i = template_files("ios"@);
    assert(group_files(t[0].1) == w && group_files(t[1].1) == l && group_files(t[2].1) == m);
    assert(group_files(t[3].1) == e && group_files(t[4].1) == a && group_files(t[5].1) == i);
    lemma_windows_files();
    lemma_linux_files();
    lemma_macos_files();
    lemma_web_files();
    lemma_android_files();
    lemma_ios_files();
    assert forall|n: int| 0 < n <= t.len() implies #[trigger] table_files(t.take(n))
        == table_files(t.take(n - 1)) + group_files(t[n - 1].1) by {
        assert(t.take(n).drop_last() == t.take(n - 1));
    }
    assert(t.take(0) == Seq::<(Seq<char>, Seq<(Seq<char>, Seq<Seq<char>>)>)>::empty());
    assert(t.take(6) == t);
    let a1 = table_files(t.take(1));
    assert(a1 == w);
    let a2 = table_files(t.take(2));
    assert(a2 == w + l);
    lemma_no_dup_in_concat(w, l);
    let a3 = table_files(t.take(3));
    assert(a3 == a2 + m);
    lemma_no_dup_in_concat(a2, m);
    let a4 = table_files(t.take(4));
    assert(a4 == a3 + e);
    lemma_no_dup_in_concat(a3, e);
    let a5 = table_files(t.take(5));
    assert(a5 == a4 + a);
    lemma_no_dup_in_concat(a4, a);
    assert(table_files(t) == a5 + i);
    lemma_no_dup_in_concat(a5, i);
}

} // verus!
