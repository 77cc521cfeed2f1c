//! Uploading exports to itch.io: which export presets serve which platform,
//! and the butler channel each platform is pushed to.
use vstd::prelude::*;
use crate::text::{chars_of, chars_eq, push_char, push_str, string_of_all, trim, trim_start_char, trim_start_matching, trimmed};
use crate::platform::{godot_platform_to_gdio, gdio_platform, string_views, join_path, joined, TargetOs};
use crate::project::ExportPreset;

verus! {

/// Indices of the presets that export for the gdio platform `platform`, in order.
pub open spec fn presets_of(ps: Seq<ExportPreset>, platform: Seq<char>) -> Seq<int> {
    Seq::new(ps.len(), |i: int| i).filter(|i: int| gdio_platform(ps[i].platform@) == Some(platform))
}

/// The export presets for `platform`, by index.
pub fn presets_for_platform(presets: &[ExportPreset], platform: &str) -> (v: Vec<usize>)
    ensures
        v@.map_values(|i: usize| i as int) == presets_of(presets@, platform@),
{
    let ghost all = Seq::new(presets@.len(), |i: int| i);
    let p = chars_of(platform);
    let mut v: Vec<usize> = Vec::new();
    let mut k: usize = 0;
    proof { reveal(Seq::filter); }
    assert(all.take(0) =~= Seq::<int>::empty());
    while k < presets.len()
        invariant
            k <= presets@.len(),
            p@ == platform@,
            all == Seq::new(presets@.len(), |i: int| i),
            v@.map_values(|i: usize| i as int) == all.take(k as int).filter(
                |i: int| gdio_platform(presets@[i].platform@) == Some(platform@)),
        decreases presets.len() - k,
    {
        proof {
            reveal(Seq::filter);
            assert(all.take(k + 1).drop_last() == all.take(k as int));
            assert(all.take(k + 1).last() == k as int);
        }
        let ghost before = v@;
        let fits = match godot_platform_to_gdio(presets[k].platform.as_str()) {
            Some(q) => chars_eq(chars_of(q).as_slice(), p.as_slice()),
            None => false,
        };
        if fits {
            v.push(k);
            assert(v@.map_values(|i: usize| i as int) =~= before.map_values(|i: usize| i as int).push(k as int));
        }
        k = k + 1;
    }
    assert(all.take(presets@.len() as int) == all);
    v
}

/// The gdio platforms the presets export for, each once, in the order of
/// their first preset.
pub open spec fn platforms_of(ps: Seq<ExportPreset>) -> Seq<Seq<char>>
    decreases ps.len(),
{
    if ps.len() == 0 {
        Seq::empty()
    } else {
        let r = platforms_of(ps.drop_last());
        match gdio_platform(ps.last().platform@) {
            Some(q) => if r.contains(q) { r } else { r.push(q) },
            None => r,
        }
    }
}

/// The gdio platforms the presets export for, each once.
pub fn preset_platforms(presets: &[ExportPreset]) -> (r: Vec<String>)
    ensures
        string_views(r@) == platforms_of(presets@),
{
    let mut v: Vec<String> = Vec::new();
    let mut i: usize = 0;
    assert(presets@.take(0) =~= Seq::<ExportPreset>::empty());
    assert(string_views(v@) =~= Seq::<Seq<char>>::empty());
    while i < presets.len()
        invariant
            i <= presets@.len(),
            string_views(v@) == platforms_of(presets@.take(i as int)),
        decreases presets.len() - i,
    {
        assert(presets@.take(i + 1).drop_last() == presets@.take(i as int));
        assert(presets@.take(i + 1).last() == presets@[i as int]);
        if let Some(q) = godot_platform_to_gdio(presets[i].platform.as_str()) {
            let qc = chars_of(q);
            let mut seen = false;
            let mut k: usize = 0;
            while k < v.len()
                invariant
                    k <= v@.len(),
                    qc@ == q@,
                    seen == exists|m: int| 0 <= m < k && (#[trigger] v@[m])@ == q@,
                decreases v.len() - k,
            {
                if chars_eq(chars_of(v[k].as_str()).as_slice(), qc.as_slice()) {
                    seen = true;
                }
                k = k + 1;
            }
            proof {
                let sv = string_views(v@);
                if seen {
                    let m = choose|m: int| 0 <= m < v@.len() && (#[trigger] v@[m])@ == q@;
                    assert(sv[m] == q@);
                } else {
                    assert forall|m: int| 0 <= m < sv.len() implies sv[m] != q@ by {
                        assert(sv[m] == v@[m]@);
                    }
                }
            }
            if !seen {
                let ghost before = v@;
                v.push(String::from_str(q));
                assert(string_views(v@) =~= string_views(before).push(q@));
            }
        }
        i = i + 1;
    }
    assert(presets@.take(presets@.len() as int) == presets@);
    v
}

/// Indices of the presets exported when building for `platforms`: those
/// of a known platform that is among them, in order.
pub open spec fn exported_presets(ps: Seq<ExportPreset>, platforms: Seq<Seq<char>>) -> Seq<int>
    decreases ps.len(),
{
    if ps.len() == 0 {
        Seq::empty()
    } else {
        let r = exported_presets(ps.drop_last(), platforms);
        match gdio_platform(ps.last().platform@) {
            Some(q) => if platforms.contains(q) { r.push(ps.len() - 1) } else { r },
            None => r,
        }
    }
}

/// The presets `gdio build` exports for the platforms asked for.
pub fn presets_to_export(presets: &[ExportPreset], platforms: &[String]) -> (v: Vec<usize>)
    ensures
        v@.map_values(|i: usize| i as int) == exported_presets(presets@, string_views(platforms@)),
{
    let mut v: Vec<usize> = Vec::new();
    let mut i: usize = 0;
    let ghost ps = string_views(platforms@);
    assert(presets@.take(0) =~= Seq::<ExportPreset>::empty());
    assert(v@.map_values(|i: usize| i as int) =~= Seq::<int>::empty());
    while i < presets.len()
        invariant
            i <= presets@.len(),
            ps == string_views(platforms@),
            v@.map_values(|i: usize| i as int) == exported_presets(presets@.take(i as int), ps),
        decreases presets.len() - i,
    {
        assert(presets@.take(i + 1).drop_last() == presets@.take(i as int));
        assert(presets@.take(i + 1).last() == presets@[i as int]);
        if let Some(q) = godot_platform_to_gdio(presets[i].platform.as_str()) {
            let qc = chars_of(q);
            let mut found = false;
            let mut k: usize = 0;
            while k < platforms.len()
                invariant
                    k <= platforms@.len(),
                    qc@ == q@,
                    ps == string_views(platforms@),
                    found == exists|m: int| 0 <= m < k && (#[trigger] platforms@[m])@ == q@,
                decreases platforms.len() - k,
            {
                if chars_eq(chars_of(platforms[k].as_str()).as_slice(), qc.as_slice()) {
                    found = true;
                }
                k = k + 1;
            }
            proof {
                if found {
                    let m = choose|m: int| 0 <= m < platforms@.len() && (#[trigger] platforms@[m])@ == q@;
                    assert(ps[m] == q@);
                } else {
                    assert forall|m: int| 0 <= m < ps.len() implies ps[m] != q@ by {
                        assert(ps[m] == platforms@[m]@);
                    }
                }
            }
            if found {
                let ghost before = v@;
                v.push(i);
                assert(v@.map_values(|i: usize| i as int) =~= before.map_values(|i: usize| i as int).push(i as int));
            }
        }
        i = i + 1;
    }
    assert(presets@.take(presets@.len() as int) == presets@);
    v
}

/// The channel a platform's build is pushed to by default: `<platform>-v<version>`.
pub fn default_channel(platform: &str, game_version: &str) -> (r: String)
    ensures
        r@ == platform@ + "-v"@ + game_version@,
{
    let mut r = String::from_str(platform);
    push_str(&mut r, "-v");
    push_str(&mut r, game_version);
    r
}

/// A channel name typed by the user, with `/` and `\` replaced by `_`.
pub open spec fn channel_name(input: Seq<char>) -> Seq<char> {
    input.map_values(|c: char| if c == '/' || c == '\\' { '_' } else { c })
}

/// Makes a typed channel name safe for butler.
pub fn sanitize_channel(input: &str) -> (r: String)
    ensures
        r@ == channel_name(input@),
{
    let c = chars_of(input);
    let mut r = String::new();
    let mut i: usize = 0;
    while i < c.len()
        invariant
            i <= c@.len(),
            c@ == input@,
            r@ == channel_name(input@.take(i as int)),
        decreases c.len() - i,
    {
        let ch = if c[i] == '/' || c[i] == '\\' { '_' } else { c[i] };
        push_char(&mut r, ch);
        assert(input@.take(i + 1) == input@.take(i as int).push(c@[i as int]));
        assert(channel_name(input@.take(i + 1)) =~= channel_name(input@.take(i as int)).push(ch));
        i = i + 1;
    }
    assert(input@.take(input@.len() as int) == input@);
    r
}

/// A game version typed by the user: trimmed, leading `v`s removed.
pub fn normalize_game_version(input: &str) -> (r: String)
    ensures
        r@ == trim_start_char(trim(input@), 'v'),
{
    let t = trimmed(chars_of(input).as_slice());
    string_of_all(trim_start_matching(t.as_slice(), 'v').as_slice())
}

/// The file an export for the gdio platform `platform` is written to when its
/// preset names none: the project's snake-case name with the platform's usual
/// extension (`index.html` for the web; an Android bundle when `aab`).
pub open spec fn export_file_name(snake: Seq<char>, platform: Seq<char>, aab: bool) -> Seq<char> {
    if platform == "windows"@ {
        snake + ".exe"@
    } else if platform == "linux"@ {
        snake + ".x86_64"@
    } else if platform == "macos"@ {
        snake + ".zip"@
    } else if platform == "web"@ {
        "index.html"@
    } else if platform == "android"@ {
        if aab { snake + ".aab"@ } else { snake + ".apk"@ }
    } else if platform == "ios"@ {
        snake + ".ipa"@
    } else {
        snake
    }
}

/// A path that `Path::join` puts in place of the base: one that starts at a
/// root, or (on Windows) with a drive letter.
pub open spec fn replaces_base(p: Seq<char>, os: TargetOs) -> bool {
    ||| (p.len() > 0 && p[0] == '/')
    ||| (os == TargetOs::Windows && p.len() > 0 && p[0] == '\\')
    ||| (os == TargetOs::Windows && p.len() > 1 && p[1] == ':')
}

/// Where an export goes: the preset's own non-empty export path, taken from
/// the project directory `cwd`; otherwise `output_dir/<platform>/<file>`.
pub open spec fn export_output(
    cwd: Seq<char>,
    output_dir: Seq<char>,
    snake: Seq<char>,
    platform: Seq<char>,
    export_path: Option<Seq<char>>,
    binary_format: Option<Seq<char>>,
    os: TargetOs,
) -> Seq<char> {
    if export_path is Some && export_path->0.len() > 0 {
        let p = export_path->0;
        if replaces_base(p, os) { p } else { joined(cwd, p, os) }
    } else {
        joined(
            joined(output_dir, platform, os),
            export_file_name(snake, platform, binary_format == Some("1"@)),
            os,
        )
    }
}

fn export_file(snake: &str, platform: &str, aab: bool) -> (r: String)
    ensures
        r@ == export_file_name(snake@, platform@, aab),
{
    let p = chars_of(platform);
    let mut r = String::from_str(snake);
    if chars_eq(p.as_slice(), chars_of("windows").as_slice()) {
        push_str(&mut r, ".exe");
    } else if chars_eq(p.as_slice(), chars_of("linux").as_slice()) {
        push_str(&mut r, ".x86_64");
    } else if chars_eq(p.as_slice(), chars_of("macos").as_slice()) {
        push_str(&mut r, ".zip");
    } else if chars_eq(p.as_slice(), chars_of("web").as_slice()) {
        r = String::from_str("index.html");
    } else if chars_eq(p.as_slice(), chars_of("android").as_slice()) {
        if aab {
            push_str(&mut r, ".aab");
        } else {
            push_str(&mut r, ".apk");
        }
    } else if chars_eq(p.as_slice(), chars_of("ios").as_slice()) {
        push_str(&mut r, ".ipa");
    }
    r
}

/// The path an export of one preset is written to (see `export_output`).
pub fn export_output_path(
    cwd: &str,
    output_dir: &str,
    project_snake: &str,
    platform: &str,
    export_path: Option<&str>,
    binary_format: Option<&str>,
    os: TargetOs,
) -> (r: String)
    ensures
        r@ == export_output(
            cwd@,
            output_dir@,
            project_snake@,
            platform@,
            match export_path { Some(p) => Some(p@), None => None },
            match binary_format { Some(b) => Some(b@), None => None },
            os,
        ),
{
    if let Some(p) = export_path {
        let c = chars_of(p);
        if c.len() > 0 {
            let absolute = c[0] == '/' || (os == TargetOs::Windows && (c[0] == '\\' || (c.len() > 1
                && c[1] == ':')));
            if absolute {
                return String::from_str(p);
            }
            return join_path(cwd, p, os);
        }
    }
    let aab = match binary_format {
        Some(b) => chars_eq(chars_of(b).as_slice(), chars_of("1").as_slice()),
        None => false,
    };
    let dir = join_path(output_dir, platform, os);
    let file = export_file(project_snake, platform, aab);
    join_path(dir.as_str(), file.as_str(), os)
}

} // verus!
