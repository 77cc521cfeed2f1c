//! Building export templates from an engine source tree
//! (`gdio build templates`): which SCons runs each platform needs, and which
//! built files become which template files.
use vstd::prelude::*;
use crate::text::{chars_of, chars_eq, push_str};
use crate::platform::{flag_names, str_views, string_views, PlatformFlags};
use crate::builder::{scons_base, scons_base_args};
use crate::exclude::pair_views;

verus! {

/// Platforms whose templates are built: the selected ones, or all seven.
pub open spec fn build_platform_names(f: PlatformFlags) -> Seq<Seq<char>> {
    if f.windows || f.linux || f.web || f.macos || f.ios || f.android || f.visionos {
        flag_names(f)
    } else {
        seq!["windows"@, "linux"@, "web"@, "macos"@, "ios"@, "android"@, "visionos"@]
    }
}

/// The platforms to build templates for.
pub fn template_build_platforms(flags: &PlatformFlags) -> (v: Vec<String>)
    ensures
        string_views(v@) == build_platform_names(*flags),
{
    if flags.any() {
        flags.to_platforms()
    } else {
        let mut v: Vec<String> = Vec::new();
        v.push(String::from_str("windows"));
        v.push(String::from_str("linux"));
        v.push(String::from_str("web"));
        v.push(String::from_str("macos"));
        v.push(String::from_str("ios"));
        v.push(String::from_str("android"));
        v.push(String::from_str("visionos"));
        assert(string_views(v@) =~= build_platform_names(*flags));
        v
    }
}

/// SCons targets built: debug unless only release is asked for, release
/// unless only debug is asked for.
pub open spec fn build_targets(debug: bool, release: bool) -> Seq<Seq<char>> {
    (if debug || !release { seq!["template_debug"@] } else { Seq::empty() })
        + (if release || !debug { seq!["template_release"@] } else { Seq::empty() })
}

fn targets_for(debug: bool, release: bool) -> (v: Vec<&'static str>)
    ensures
        str_views(v@) == build_targets(debug, release),
{
    let mut v: Vec<&'static str> = Vec::new();
    if debug || !release {
        v.push("template_debug");
    }
    if release || !debug {
        v.push("template_release");
    }
    assert(str_views(v@) =~= build_targets(debug, release));
    v
}

/// An Apple platform, built per architecture with Xcode toolchains.
pub open spec fn is_apple(platform: Seq<char>) -> bool {
    platform == "macos"@ || platform == "ios"@ || platform == "visionos"@
}

/// Architectures a platform's templates are built for, in build order.
pub open spec fn build_archs(platform: Seq<char>) -> Seq<Seq<char>> {
    if platform == "windows"@ {
        seq!["x86_32"@, "x86_64"@, "arm32"@, "arm64"@]
    } else if platform == "linux"@ {
        seq!["x86_32"@, "x86_64"@, "arm32"@, "arm64"@, "rv64"@, "ppc64"@, "loongarch64"@]
    } else if platform == "android"@ {
        seq!["arm32"@, "arm64"@, "x86_32"@, "x86_64"@]
    } else if is_apple(platform) {
        seq!["arm64"@, "x86_64"@]
    } else {
        Seq::empty()
    }
}

fn named(p: &str, name: &str) -> (b: bool)
    ensures
        b == (p@ == name@),
{
    chars_eq(chars_of(p).as_slice(), chars_of(name).as_slice())
}

fn archs_for(platform: &str) -> (v: Vec<&'static str>)
    ensures
        str_views(v@) == build_archs(platform@),
{
    let mut v: Vec<&'static str> = Vec::new();
    if named(platform, "windows") {
        v.push("x86_32");
        v.push("x86_64");
        v.push("arm32");
        v.push("arm64");
    } else if named(platform, "linux") {
        v.push("x86_32");
        v.push("x86_64");
        v.push("arm32");
        v.push("arm64");
        v.push("rv64");
        v.push("ppc64");
        v.push("loongarch64");
    } else if named(platform, "android") {
        v.push("arm32");
        v.push("arm64");
        v.push("x86_32");
        v.push("x86_64");
    } else if named(platform, "macos") || named(platform, "ios") || named(platform, "visionos") {
        v.push("arm64");
        v.push("x86_64");
    }
    assert(str_views(v@) =~= build_archs(platform@));
    v
}

/// The `platform=` value SCons knows a platform by.
pub open spec fn scons_platform(platform: Seq<char>) -> Seq<char> {
    if platform == "linux"@ { "linuxbsd"@ } else { platform }
}

/// The SCons runs for one target and architecture: Windows also builds a
/// console variant of release templates; iOS and visionOS build their
/// x86_64 templates for the simulator.
pub open spec fn target_runs(platform: Seq<char>, target: Seq<char>, arch: Seq<char>, cs: bool) -> Seq<Seq<Seq<char>>> {
    let head = seq!["platform="@ + scons_platform(platform), "target="@ + target, "arch="@ + arch];
    if platform == "windows"@ {
        let a = head + scons_base(cs);
        if target == "template_release"@ { seq![a, a.push("windows_subsystem=console"@)] } else { seq![a] }
    } else if is_apple(platform) {
        seq![head + (if arch == "x86_64"@ && platform != "macos"@ { seq!["simulator=yes"@] } else { Seq::empty() })
            + scons_base(cs)]
    } else {
        seq![head + scons_base(cs)]
    }
}

/// The SCons runs for one architecture, target after target.
pub open spec fn runs_over_targets(platform: Seq<char>, ts: Seq<Seq<char>>, arch: Seq<char>, cs: bool) -> Seq<Seq<Seq<char>>>
    decreases ts.len(),
{
    if ts.len() == 0 {
        Seq::empty()
    } else {
        runs_over_targets(platform, ts.drop_last(), arch, cs) + target_runs(platform, ts.last(), arch, cs)
    }
}

/// The SCons runs, architecture after architecture.
pub open spec fn runs_over_archs(platform: Seq<char>, archs: Seq<Seq<char>>, ts: Seq<Seq<char>>, cs: bool) -> Seq<Seq<Seq<char>>>
    decreases archs.len(),
{
    if archs.len() == 0 {
        Seq::empty()
    } else {
        runs_over_archs(platform, archs.drop_last(), ts, cs) + runs_over_targets(platform, ts, archs.last(), cs)
    }
}

/// Extra flags of the four web template variants: standard, dynamic
/// linking, no threads, and both.
pub open spec fn web_variants() -> Seq<Seq<Seq<char>>> {
    seq![Seq::empty(), seq!["dlink_enabled=yes"@], seq!["threads=no"@], seq!["dlink_enabled=yes"@, "threads=no"@]]
}

/// The web runs of one target, variant after variant.
pub open spec fn web_target_runs(target: Seq<char>, cs: bool) -> Seq<Seq<Seq<char>>> {
    Seq::new(4, |k: int| seq!["platform=web"@, "target="@ + target] + scons_base(cs) + web_variants()[k])
}

/// The web runs, target after target.
pub open spec fn web_runs(ts: Seq<Seq<char>>, cs: bool) -> Seq<Seq<Seq<char>>>
    decreases ts.len(),
{
    if ts.len() == 0 {
        Seq::empty()
    } else {
        web_runs(ts.drop_last(), cs) + web_target_runs(ts.last(), cs)
    }
}

/// Every SCons run (its argument list, before the user's extra arguments)
/// that builds the templates of `platform`; none for an unknown platform.
pub open spec fn scons_runs(platform: Seq<char>, cs: bool, debug: bool, release: bool) -> Seq<Seq<Seq<char>>> {
    let ts = build_targets(debug, release);
    if platform == "web"@ { web_runs(ts, cs) } else { runs_over_archs(platform, build_archs(platform), ts, cs) }
}

/// The views of argument lists.
pub open spec fn arg_lists(v: Seq<Vec<String>>) -> Seq<Seq<Seq<char>>> {
    v.map_values(|a: Vec<String>| string_views(a@))
}

fn arg(key: &str, value: &str) -> (r: String)
    ensures
        r@ == key@ + value@,
{
    let mut r = String::new();
    push_str(&mut r, key);
    push_str(&mut r, value);
    assert(r@ =~= key@ + value@);
    r
}

fn push_list(out: &mut Vec<Vec<String>>, a: Vec<String>)
    ensures
        arg_lists(final(out)@) == arg_lists(old(out)@).push(string_views(a@)),
{
    let ghost before = out@;
    out.push(a);
    assert(arg_lists(out@) =~= arg_lists(before).push(string_views(a@)));
}

fn run_args(platform: &str, target: &str, arch: &str, cs: bool, simulator: bool) -> (a: Vec<String>)
    ensures
        string_views(a@) == seq!["platform="@ + scons_platform(platform@), "target="@ + target@, "arch="@ + arch@]
            + (if simulator { seq!["simulator=yes"@] } else { Seq::empty() }) + scons_base(cs),
{
    let mut a: Vec<String> = Vec::new();
    if named(platform, "linux") {
        a.push(arg("platform=", "linuxbsd"));
    } else {
        a.push(arg("platform=", platform));
    }
    a.push(arg("target=", target));
    a.push(arg("arch=", arch));
    if simulator {
        a.push(String::from_str("simulator=yes"));
    }
    let ghost head = a@;
    let mut base = scons_base_args(cs);
    a.append(&mut base);
    assert(string_views(a@) =~= string_views(head) + scons_base(cs));
    a
}

fn push_target_runs(out: &mut Vec<Vec<String>>, platform: &str, target: &str, arch: &str, cs: bool)
    ensures
        arg_lists(final(out)@) == arg_lists(old(out)@) + target_runs(platform@, target@, arch@, cs),
{
    let ghost head = seq!["platform="@ + scons_platform(platform@), "target="@ + target@, "arch="@ + arch@];
    let ghost before = arg_lists(out@);
    if named(platform, "windows") {
        let a = run_args(platform, target, arch, cs, false);
        assert(string_views(a@) =~= head + scons_base(cs));
        push_list(out, a);
        if named(target, "template_release") {
            let mut c = run_args(platform, target, arch, cs, false);
            let ghost c0 = c@;
            c.push(String::from_str("windows_subsystem=console"));
            assert(string_views(c@) =~= string_views(c0).push("windows_subsystem=console"@));
            push_list(out, c);
        }
    } else if named(platform, "macos") || named(platform, "ios") || named(platform, "visionos") {
        let sim = named(arch, "x86_64") && !named(platform, "macos");
        let a = run_args(platform, target, arch, cs, sim);
        push_list(out, a);
    } else {
        let a = run_args(platform, target, arch, cs, false);
        assert(string_views(a@) =~= head + scons_base(cs));
        push_list(out, a);
    }
    assert(arg_lists(out@) =~= before + target_runs(platform@, target@, arch@, cs));
}

fn push_arch_runs(out: &mut Vec<Vec<String>>, platform: &str, targets: &Vec<&'static str>, arch: &str, cs: bool)
    ensures
        arg_lists(final(out)@) == arg_lists(old(out)@) + runs_over_targets(platform@, str_views(targets@), arch@, cs),
{
    let ghost ts = str_views(targets@);
    let ghost start = arg_lists(out@);
    let mut j: usize = 0;
    assert(ts.take(0) =~= Seq::<Seq<char>>::empty());
    assert(start + runs_over_targets(platform@, ts.take(0), arch@, cs) =~= start);
    while j < targets.len()
        invariant
            j <= targets@.len(),
            ts == str_views(targets@),
            arg_lists(out@) == start + runs_over_targets(platform@, ts.take(j as int), arch@, cs),
        decreases targets.len() - j,
    {
        assert(ts.take(j + 1).drop_last() == ts.take(j as int));
        assert(ts.take(j + 1).last() == targets@[j as int]@);
        push_target_runs(out, platform, targets[j], arch, cs);
        assert(arg_lists(out@) =~= start + runs_over_targets(platform@, ts.take(j + 1), arch@, cs));
        j = j + 1;
    }
    assert(ts.take(ts.len() as int) == ts);
}

fn push_web_runs(out: &mut Vec<Vec<String>>, target: &str, cs: bool)
    ensures
        arg_lists(final(out)@) == arg_lists(old(out)@) + web_target_runs(target@, cs),
{
    let ghost before = arg_lists(out@);
    let mut k: usize = 0;
    while k < 4
        invariant
            k <= 4,
            arg_lists(out@) == before + web_target_runs(target@, cs).take(k as int),
        decreases 4 - k,
    {
        let mut a: Vec<String> = Vec::new();
        a.push(String::from_str("platform=web"));
        a.push(arg("target=", target));
        let mut base = scons_base_args(cs);
        a.append(&mut base);
        let ghost a0 = a@;
        if k == 1 || k == 3 {
            a.push(String::from_str("dlink_enabled=yes"));
        }
        if k == 2 || k == 3 {
            a.push(String::from_str("threads=no"));
        }
        assert(string_views(a@) =~= seq!["platform=web"@, "target="@ + target@] + scons_base(cs) + web_variants()[k as int]);
        push_list(out, a);
        assert(web_target_runs(target@, cs).take(k + 1) =~= web_target_runs(target@, cs).take(k as int)
            .push(web_target_runs(target@, cs)[k as int]));
        k = k + 1;
    }
    assert(web_target_runs(target@, cs).take(4) =~= web_target_runs(target@, cs));
}

/// Every SCons run that builds the templates of `platform`, in order.
pub fn scons_runs_for(platform: &str, csharp: bool, debug: bool, release: bool) -> (v: Vec<Vec<String>>)
    ensures
        arg_lists(v@) == scons_runs(platform@, csharp, debug, release),
{
    let targets = targets_for(debug, release);
    let ghost ts = str_views(targets@);
    let mut out: Vec<Vec<String>> = Vec::new();
    assert(arg_lists(out@) =~= Seq::<Seq<Seq<char>>>::empty());
    if named(platform, "web") {
        let mut j: usize = 0;
        assert(ts.take(0) =~= Seq::<Seq<char>>::empty());
        while j < targets.len()
            invariant
                j <= targets@.len(),
                ts == str_views(targets@),
                arg_lists(out@) == web_runs(ts.take(j as int), csharp),
            decreases targets.len() - j,
        {
            assert(ts.take(j + 1).drop_last() == ts.take(j as int));
            assert(ts.take(j + 1).last() == targets@[j as int]@);
            push_web_runs(&mut out, targets[j], csharp);
            j = j + 1;
        }
        assert(ts.take(ts.len() as int) == ts);
    } else {
        let archs = archs_for(platform);
        let ghost asq = str_views(archs@);
        let mut i: usize = 0;
        assert(asq.take(0) =~= Seq::<Seq<char>>::empty());
        while i < archs.len()
            invariant
                i <= archs@.len(),
                asq == str_views(archs@),
                ts == str_views(targets@),
                arg_lists(out@) == runs_over_archs(platform@, asq.take(i as int), ts, csharp),
            decreases archs.len() - i,
        {
            assert(asq.take(i + 1).drop_last() == asq.take(i as int));
            assert(asq.take(i + 1).last() == archs@[i as int]@);
            push_arch_runs(&mut out, platform, &targets, archs[i], csharp);
            i = i + 1;
        }
        assert(asq.take(asq.len() as int) == asq);
    }
    out
}

/// The built files of one target and architecture, each with the template
/// file it is installed as (Windows release builds also have a console
/// variant).
pub open spec fn copies_for(platform: Seq<char>, st: Seq<char>, ft: Seq<char>, arch: Seq<char>) -> Seq<(Seq<char>, Seq<char>)> {
    if platform == "windows"@ {
        let n = "godot.windows."@ + st + "."@ + arch;
        seq![(n, "windows_"@ + ft + "_"@ + arch + ".exe"@)]
            + (if st == "template_release"@ { seq![(n + ".console"@, "windows_"@ + ft + "_"@ + arch + "_console.exe"@)] } else { Seq::empty() })
    } else if platform == "linux"@ {
        seq![("godot.linuxbsd."@ + st + "."@ + arch, "linux_"@ + ft + "_"@ + arch)]
    } else if platform == "android"@ {
        seq![("libgodot.android."@ + st + "."@ + arch + ".so"@, "android_"@ + ft + "_"@ + arch + ".so"@)]
    } else {
        Seq::empty()
    }
}

/// The built files of one architecture, debug then release.
pub open spec fn copies_for_arch(platform: Seq<char>, arch: Seq<char>) -> Seq<(Seq<char>, Seq<char>)> {
    copies_for(platform, "template_debug"@, "debug"@, arch) + copies_for(platform, "template_release"@, "release"@, arch)
}

/// The built files, architecture after architecture.
pub open spec fn copies_over_archs(platform: Seq<char>, archs: Seq<Seq<char>>) -> Seq<(Seq<char>, Seq<char>)>
    decreases archs.len(),
{
    if archs.len() == 0 {
        Seq::empty()
    } else {
        copies_over_archs(platform, archs.drop_last()) + copies_for_arch(platform, archs.last())
    }
}

/// A built web template of one variant and target.
pub open spec fn web_copy(vs: Seq<char>, fs: Seq<char>, st: Seq<char>, ft: Seq<char>) -> (Seq<char>, Seq<char>) {
    ("godot.web."@ + st + ".wasm32"@ + vs + ".zip"@, "web_"@ + ft + fs + ".zip"@)
}

/// The built web templates: standard, no threads, dynamic linking, and
/// both, each debug then release.
pub open spec fn web_copies() -> Seq<(Seq<char>, Seq<char>)> {
    seq![
        web_copy(""@, ""@, "template_debug"@, "debug"@),
        web_copy(""@, ""@, "template_release"@, "release"@),
        web_copy(".nothreads"@, "_nothreads"@, "template_debug"@, "debug"@),
        web_copy(".nothreads"@, "_nothreads"@, "template_release"@, "release"@),
        web_copy(".dlink"@, "_dlink"@, "template_debug"@, "debug"@),
        web_copy(".dlink"@, "_dlink"@, "template_release"@, "release"@),
        web_copy(".nothreads.dlink"@, "_dlink_nothreads"@, "template_debug"@, "debug"@),
        web_copy(".nothreads.dlink"@, "_dlink_nothreads"@, "template_release"@, "release"@),
    ]
}

/// Each file of the engine's `bin/` directory that, when it exists, is
/// copied into the templates directory, with the name it gets there. Apple
/// platforms are installed as one archive instead (see `apple_members`).
pub open spec fn template_copies(platform: Seq<char>) -> Seq<(Seq<char>, Seq<char>)> {
    if platform == "web"@ {
        web_copies()
    } else if platform == "windows"@ || platform == "linux"@ {
        copies_over_archs(platform, build_archs(platform))
    } else if platform == "android"@ {
        copies_over_archs(platform, build_archs(platform)) + seq![("android_source.zip"@, "android_source.zip"@)]
    } else {
        Seq::empty()
    }
}

fn pair(a: String, b: String) -> (r: (String, String))
    ensures
        r.0@ == a@ && r.1@ == b@,
{
    (a, b)
}

fn cat3(a: &str, b: &str, c: &str) -> (r: String)
    ensures
        r@ == a@ + b@ + c@,
{
    let mut r = String::new();
    push_str(&mut r, a);
    push_str(&mut r, b);
    push_str(&mut r, c);
    assert(r@ =~= a@ + b@ + c@);
    r
}

fn push_pair(out: &mut Vec<(String, String)>, a: String, b: String)
    ensures
        pair_views(final(out)@) == pair_views(old(out)@).push((a@, b@)),
{
    let ghost before = out@;
    out.push((a, b));
    assert(pair_views(out@) =~= pair_views(before).push((a@, b@)));
}

fn push_copies_for(out: &mut Vec<(String, String)>, platform: &str, st: &str, ft: &str, arch: &str)
    ensures
        pair_views(final(out)@) == pair_views(old(out)@) + copies_for(platform@, st@, ft@, arch@),
{
    let ghost before = pair_views(out@);
    if named(platform, "windows") {
        let n = cat3("godot.windows.", st, ".");
        let mut n2 = n.clone();
        push_str(&mut n2, arch);
        let mut d = cat3("windows_", ft, "_");
        push_str(&mut d, arch);
        let mut dc = d.clone();
        push_str(&mut d, ".exe");
        push_str(&mut dc, "_console.exe");
        let mut nc = n2.clone();
        push_str(&mut nc, ".console");
        push_pair(out, n2, d);
        if named(st, "template_release") {
            push_pair(out, nc, dc);
        }
    } else if named(platform, "linux") {
        let mut n = cat3("godot.linuxbsd.", st, ".");
        push_str(&mut n, arch);
        let mut d = cat3("linux_", ft, "_");
        push_str(&mut d, arch);
        push_pair(out, n, d);
    } else if named(platform, "android") {
        let mut n = cat3("libgodot.android.", st, ".");
        push_str(&mut n, arch);
        push_str(&mut n, ".so");
        let mut d = cat3("android_", ft, "_");
        push_str(&mut d, arch);
        push_str(&mut d, ".so");
        push_pair(out, n, d);
    }
    assert(pair_views(out@) =~= before + copies_for(platform@, st@, ft@, arch@));
}

fn push_web_copy(out: &mut Vec<(String, String)>, vs: &str, fs: &str, st: &str, ft: &str)
    ensures
        pair_views(final(out)@) == pair_views(old(out)@).push(web_copy(vs@, fs@, st@, ft@)),
{
    let mut n = cat3("godot.web.", st, ".wasm32");
    push_str(&mut n, vs);
    push_str(&mut n, ".zip");
    let mut d = cat3("web_", ft, fs);
    push_str(&mut d, ".zip");
    push_pair(out, n, d);
}

/// The files of `bin/` to copy into the templates directory of `platform`,
/// each with its template name, in order.
pub fn template_copies_for(platform: &str) -> (v: Vec<(String, String)>)
    ensures
        pair_views(v@) == template_copies(platform@),
{
    let mut out: Vec<(String, String)> = Vec::new();
    assert(pair_views(out@) =~= Seq::<(Seq<char>, Seq<char>)>::empty());
    if named(platform, "web") {
        push_web_copy(&mut out, "", "", "template_debug", "debug");
        push_web_copy(&mut out, "", "", "template_release", "release");
        push_web_copy(&mut out, ".nothreads", "_nothreads", "template_debug", "debug");
        push_web_copy(&mut out, ".nothreads", "_nothreads", "template_release", "release");
        push_web_copy(&mut out, ".dlink", "_dlink", "template_debug", "debug");
        push_web_copy(&mut out, ".dlink", "_dlink", "template_release", "release");
        push_web_copy(&mut out, ".nothreads.dlink", "_dlink_nothreads", "template_debug", "debug");
        push_web_copy(&mut out, ".nothreads.dlink", "_dlink_nothreads", "template_release", "release");
        assert(pair_views(out@) =~= web_copies());
        return out;
    }
    if !(named(platform, "windows") || named(platform, "linux") || named(platform, "android")) {
        return out;
    }
    let archs = archs_for(platform);
    let ghost asq = str_views(archs@);
    let mut i: usize = 0;
    assert(asq.take(0) =~= Seq::<Seq<char>>::empty());
    while i < archs.len()
        invariant
            i <= archs@.len(),
            asq == str_views(archs@),
            pair_views(out@) == copies_over_archs(platform@, asq.take(i as int)),
        decreases archs.len() - i,
    {
        assert(asq.take(i + 1).drop_last() == asq.take(i as int));
        assert(asq.take(i + 1).last() == archs@[i as int]@);
        let ghost before = pair_views(out@);
        push_copies_for(&mut out, platform, "template_debug", "debug", archs[i]);
        push_copies_for(&mut out, platform, "template_release", "release", archs[i]);
        assert(pair_views(out@) =~= before + copies_for_arch(platform@, asq[i as int]));
        i = i + 1;
    }
    assert(asq.take(asq.len() as int) == asq);
    assert(asq == build_archs(platform@));
    let ghost copied = pair_views(out@);
    if named(platform, "android") {
        push_pair(&mut out, String::from_str("android_source.zip"), String::from_str("android_source.zip"));
        assert(pair_views(out@) =~= copied + seq![("android_source.zip"@, "android_source.zip"@)]);
        proof {
            reveal_strlit("android");
            reveal_strlit("windows");
            reveal_strlit("linux");
            reveal_strlit("web");
        }
        assert("android"@[0] != "windows"@[0] && "android"@.len() != "linux"@.len());
        assert(template_copies(platform@) == copied + seq![("android_source.zip"@, "android_source.zip"@)]);
    } else {
    }
    out
}

/// Prefix of the built files of an Apple platform.
pub open spec fn apple_prefix(platform: Seq<char>) -> Seq<char> {
    if platform == "ios"@ || platform == "visionos"@ { "libgodot"@ } else { "godot"@ }
}

/// A built file of an Apple platform, as the archive of its templates
/// names it: `<prefix>.<platform>.<target>.<arch>[.simulator].<ext>`, where
/// the extension is empty for macOS and `.a` otherwise.
pub open spec fn apple_member(platform: Seq<char>, st: Seq<char>, arch: Seq<char>) -> Seq<char> {
    apple_prefix(platform) + "."@ + platform + "."@ + st + "."@ + arch
        + (if arch == "x86_64"@ && platform != "macos"@ { ".simulator"@ } else { ""@ })
        + "."@ + (if platform == "macos"@ { ""@ } else { ".a"@ })
}

/// The built files packed into the template archive of an Apple platform
/// when no ready archive was built, arm64 then x86_64, debug then release.
pub open spec fn apple_members(platform: Seq<char>) -> Seq<Seq<char>> {
    if is_apple(platform) {
        seq![
            apple_member(platform, "template_debug"@, "arm64"@),
            apple_member(platform, "template_release"@, "arm64"@),
            apple_member(platform, "template_debug"@, "x86_64"@),
            apple_member(platform, "template_release"@, "x86_64"@),
        ]
    } else {
        Seq::empty()
    }
}

fn apple_member_name(platform: &str, st: &str, arch: &str) -> (r: String)
    ensures
        r@ == apple_member(platform@, st@, arch@),
{
    let mut r = String::new();
    if named(platform, "ios") || named(platform, "visionos") {
        push_str(&mut r, "libgodot");
    } else {
        push_str(&mut r, "godot");
    }
    push_str(&mut r, ".");
    push_str(&mut r, platform);
    push_str(&mut r, ".");
    push_str(&mut r, st);
    push_str(&mut r, ".");
    push_str(&mut r, arch);
    if named(arch, "x86_64") && !named(platform, "macos") {
        push_str(&mut r, ".simulator");
    } else {
        push_str(&mut r, "");
    }
    push_str(&mut r, ".");
    if named(platform, "macos") {
        push_str(&mut r, "");
    } else {
        push_str(&mut r, ".a");
    }
    r
}

/// The built files to pack into the template archive of an Apple platform.
pub fn apple_zip_members(platform: &str) -> (v: Vec<String>)
    ensures
        string_views(v@) == apple_members(platform@),
{
    let mut v: Vec<String> = Vec::new();
    if named(platform, "macos") || named(platform, "ios") || named(platform, "visionos") {
        v.push(apple_member_name(platform, "template_debug", "arm64"));
        v.push(apple_member_name(platform, "template_release", "arm64"));
        v.push(apple_member_name(platform, "template_debug", "x86_64"));
        v.push(apple_member_name(platform, "template_release", "x86_64"));
    }
    assert(string_views(v@) =~= apple_members(platform@));
    v
}

} // verus!
