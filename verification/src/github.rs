//! Godot editor releases on GitHub: which release a version resolves to,
//! which asset of a release is the editor for this platform, and which
//! extracted file is the editor executable.
use vstd::prelude::*;
use crate::text::{
    chars_of, contains, contains_in, ends_with, has_prefix, has_suffix, first_where,
    last_where, lemma_first_where_facts, lemma_first_where_is, lemma_first_where_none, lemma_last_where_is,
    lowercase, push_str, starts_with, to_lowercase,
};
use crate::numparse::{parse_unsigned, parse_u32};
use crate::platform::{TargetOs, platform_id};

verus! {

/// A downloadable file of a release.
pub struct GitHubAsset {
    pub name: String,
    pub browser_download_url: String,
}

/// A release of the Godot builds repository, such as `4.3-stable`.
pub struct GitHubRelease {
    pub tag_name: String,
    pub assets: Vec<GitHubAsset>,
}

/// Tag of the release of `version` at `stage`, such as `4.3-stable`.
pub fn release_tag(version: &str, stage: &str) -> (r: String)
    ensures
        r@ == version@ + "-"@ + stage@,
{
    let mut r = String::from_str(version);
    push_str(&mut r, "-");
    push_str(&mut r, stage);
    proof { reveal_strlit("-"); }
    r
}

/// A file name that is an editor download rather than export templates:
/// a `.zip`, or anything that is neither a `.tpz` nor named `export_templates`.
/// `lower` is the lowercase form of `name`.
pub open spec fn is_editor_file(name: Seq<char>, lower: Seq<char>) -> bool {
    ends_with(lower, ".zip"@) || (!ends_with(lower, ".tpz"@) && !contains(name, "export_templates"@))
}

/// `name` (with lowercase form `lower`) is the editor download for `platform`,
/// of the C# build when `is_mono`, and a console build when `console`.
pub open spec fn editor_asset_fits(name: Seq<char>, lower: Seq<char>, platform: Seq<char>, is_mono: bool, console: bool) -> bool {
    &&& contains(name, platform)
    &&& (if is_mono { contains(name, "mono"@) } else { !contains(name, "mono"@) })
    &&& (console ==> contains(name, "console"@))
    &&& is_editor_file(name, lower)
    &&& !contains(name, "android"@)
    &&& !contains(name, "ios"@)
}

/// Whether an asset name is the editor download sought; `lower_name` is the
/// lowercase form of `name`.
pub fn editor_asset_matches(name: &str, lower_name: &str, platform: &str, is_mono: bool, console: bool) -> (b: bool)
    ensures
        b == editor_asset_fits(name@, lower_name@, platform@, is_mono, console),
{
    let n = chars_of(name);
    let l = chars_of(lower_name);
    let ns = n.as_slice();
    let zip = chars_of(".zip");
    let tpz = chars_of(".tpz");
    let mono = chars_of("mono");
    let console_word = chars_of("console");
    let templates = chars_of("export_templates");
    let android = chars_of("android");
    let ios = chars_of("ios");
    let matches_platform = contains_in(ns, chars_of(platform).as_slice());
    let has_mono = contains_in(ns, mono.as_slice());
    let matches_mono = if is_mono { has_mono } else { !has_mono };
    let matches_console = !console || contains_in(ns, console_word.as_slice());
    let is_editor = has_suffix(l.as_slice(), zip.as_slice())
        || (!has_suffix(l.as_slice(), tpz.as_slice()) && !contains_in(ns, templates.as_slice()));
    matches_platform && matches_mono && matches_console && is_editor
        && !contains_in(ns, android.as_slice()) && !contains_in(ns, ios.as_slice())
}

/// The asset is the editor download sought.
pub open spec fn asset_fits(a: GitHubAsset, platform: Seq<char>, is_mono: bool, console: bool) -> bool {
    editor_asset_fits(a.name@, lowercase(a.name@), platform, is_mono, console)
}

/// Index of the first asset that is the editor download sought.
pub open spec fn first_fitting(assets: Seq<GitHubAsset>, platform: Seq<char>, is_mono: bool, console: bool) -> Option<int> {
    first_where(assets.len() as int, |i: int| asset_fits(assets[i], platform, is_mono, console))
}

/// Index of the editor download of a release for `os`: on Windows the console
/// build is preferred; no asset fits an unknown platform.
pub open spec fn editor_asset_index(assets: Seq<GitHubAsset>, os: TargetOs, is_mono: bool) -> Option<int> {
    let platform = match os {
        TargetOs::Windows => "win64"@,
        TargetOs::Linux => "linux.x86_64"@,
        TargetOs::MacOs => "macos.universal"@,
        TargetOs::Other => "unknown"@,
    };
    if os == TargetOs::Other {
        None
    } else if os == TargetOs::Windows && first_fitting(assets, platform, is_mono, true) is Some {
        first_fitting(assets, platform, is_mono, true)
    } else {
        first_fitting(assets, platform, is_mono, false)
    }
}

/// Law: the editor download picked for a release is of the build asked
/// for, the C# (`mono`) build exactly when `is_mono`, and names the
/// platform of `os`.
pub proof fn lemma_editor_asset_build(assets: Seq<GitHubAsset>, os: TargetOs, is_mono: bool)
    ensures
        editor_asset_index(assets, os, is_mono) matches Some(i) ==> {
            &&& 0 <= i < assets.len()
            &&& contains(assets[i].name@, "mono"@) == is_mono
            &&& contains(assets[i].name@, match os {
                TargetOs::Windows => "win64"@,
                TargetOs::Linux => "linux.x86_64"@,
                TargetOs::MacOs => "macos.universal"@,
                TargetOs::Other => "unknown"@,
            })
        },
{
    let platform = match os {
        TargetOs::Windows => "win64"@,
        TargetOs::Linux => "linux.x86_64"@,
        TargetOs::MacOs => "macos.universal"@,
        TargetOs::Other => "unknown"@,
    };
    lemma_first_where_facts(assets.len() as int, |i: int| asset_fits(assets[i], platform, is_mono, true));
    lemma_first_where_facts(assets.len() as int, |i: int| asset_fits(assets[i], platform, is_mono, false));
}

fn find_fitting(assets: &Vec<GitHubAsset>, platform: &str, is_mono: bool, console: bool) -> (r: Option<usize>)
    ensures
        r matches Some(i) ==> i < assets@.len() && first_fitting(assets@, platform@, is_mono, console) == Some(i as int),
        r is None ==> first_fitting(assets@, platform@, is_mono, console) is None,
{
    let ghost pred = |i: int| asset_fits(assets@[i], platform@, is_mono, console);
    let mut i: usize = 0;
    while i < assets.len()
        invariant
            i <= assets@.len(),
            pred == (|i: int| asset_fits(assets@[i], platform@, is_mono, console)),
            forall|j: int| 0 <= j < i ==> !#[trigger] pred(j),
        decreases assets.len() - i,
    {
        let lower = to_lowercase(assets[i].name.as_str());
        if editor_asset_matches(assets[i].name.as_str(), lower.as_str(), platform, is_mono, console) {
            assert(pred(i as int));
            proof { lemma_first_where_is(assets@.len() as int, pred, i as int); }
            return Some(i);
        }
        assert(!pred(i as int));
        i = i + 1;
    }
    proof { lemma_first_where_none(assets@.len() as int, pred); }
    None
}

/// The editor download of `release` for `os`, of the C# build when `is_mono`.
pub fn find_editor_asset(release: &GitHubRelease, is_mono: bool, os: TargetOs) -> (r: Option<&GitHubAsset>)
    ensures
        r == (match editor_asset_index(release.assets@, os, is_mono) {
            Some(i) => Some(&release.assets@[i]),
            None => None,
        }),
        r matches Some(a) ==> contains(a.name@, "mono"@) == is_mono,
{
    proof { lemma_editor_asset_build(release.assets@, os, is_mono); }
    let platform = platform_id(os);
    if os == TargetOs::Other {
        return None;
    }
    let mut found: Option<usize> = None;
    if os == TargetOs::Windows {
        found = find_fitting(&release.assets, platform, is_mono, true);
    }
    if found.is_none() {
        found = find_fitting(&release.assets, platform, is_mono, false);
    }
    match found {
        Some(i) => Some(&release.assets[i]),
        None => None,
    }
}

/// A release stage's number (`rc2` gives 2), 0 where it is not a `u32`.
pub open spec fn stage_number(s: Seq<char>) -> int {
    match parse_unsigned(s, u32::MAX as int) {
        Some(n) => n,
        None => 0,
    }
}

/// Preference of a release stage: stable, then release candidates, betas,
/// dev snapshots and alphas, each by number.
pub open spec fn stage_priority(stage: Seq<char>) -> int {
    if stage == "stable"@ {
        100
    } else if starts_with(stage, "rc"@) {
        80 + stage_number(stage.skip(2))
    } else if starts_with(stage, "beta"@) {
        60 + stage_number(stage.skip(4))
    } else if starts_with(stage, "dev"@) {
        40 + stage_number(stage.skip(3))
    } else if starts_with(stage, "alpha"@) {
        20 + stage_number(stage.skip(5))
    } else {
        0
    }
}

fn stage_number_of(s: &[char]) -> (n: u64)
    ensures
        n == stage_number(s@),
        n <= u32::MAX,
{
    match parse_u32(s) {
        Some(v) => v as u64,
        None => 0,
    }
}

/// Preference of a release stage such as `stable`, `rc2` or `beta1`.
pub fn release_stage_priority(stage: &str) -> (p: u64)
    ensures
        p == stage_priority(stage@),
{
    let s = chars_of(stage);
    let n = s.len();
    let ss = s.as_slice();
    let stable = chars_of("stable");
    let rc = chars_of("rc");
    let beta = chars_of("beta");
    let dev = chars_of("dev");
    let alpha = chars_of("alpha");
    proof {
        reveal_strlit("stable");
        reveal_strlit("rc");
        reveal_strlit("beta");
        reveal_strlit("dev");
        reveal_strlit("alpha");
    }
    if crate::text::chars_eq(ss, stable.as_slice()) {
        100
    } else if has_prefix(ss, rc.as_slice()) {
        80 + stage_number_of(&ss[2..n])
    } else if has_prefix(ss, beta.as_slice()) {
        60 + stage_number_of(&ss[4..n])
    } else if has_prefix(ss, dev.as_slice()) {
        40 + stage_number_of(&ss[3..n])
    } else if has_prefix(ss, alpha.as_slice()) {
        20 + stage_number_of(&ss[5..n])
    } else {
        0
    }
}

/// The release is of `version`: its tag starts with `version-`.
pub open spec fn is_candidate(r: GitHubRelease, version: Seq<char>) -> bool {
    starts_with(r.tag_name@, version + "-"@)
}

/// Stage part of a candidate release's tag.
pub open spec fn stage_of(r: GitHubRelease, version: Seq<char>) -> Seq<char> {
    r.tag_name@.skip(version.len() as int + 1)
}

/// Release `i` is the one chosen for `version`: a candidate of the highest
/// stage preference, the first such in the list.
pub open spec fn is_best_release(rs: Seq<GitHubRelease>, version: Seq<char>, i: int) -> bool {
    &&& 0 <= i < rs.len()
    &&& is_candidate(rs[i], version)
    &&& forall|j: int| 0 <= j < rs.len() && #[trigger] is_candidate(rs[j], version)
            ==> stage_priority(stage_of(rs[j], version)) <= stage_priority(stage_of(rs[i], version))
    &&& forall|j: int| 0 <= j < i && #[trigger] is_candidate(rs[j], version)
            ==> stage_priority(stage_of(rs[j], version)) < stage_priority(stage_of(rs[i], version))
}

/// Chooses, among the releases whose tag is `version-<stage>`, the one of the
/// most preferred stage (the first of equals), with its stage; `None` when no
/// release is of `version`.
pub fn pick_release(releases: &[GitHubRelease], version: &str) -> (r: Option<(usize, String)>)
    ensures
        r matches Some((i, stage)) ==> is_best_release(releases@, version@, i as int)
            && stage@ == stage_of(releases@[i as int], version@),
        r is None <==> forall|j: int| 0 <= j < releases@.len() ==> !#[trigger] is_candidate(releases@[j], version@),
{
    let mut prefix = String::from_str(version);
    push_str(&mut prefix, "-");
    proof { reveal_strlit("-"); }
    let p = chars_of(prefix.as_str());
    let plen = p.len();
    let mut best: Option<(usize, u64)> = None;
    let mut i: usize = 0;
    while i < releases.len()
        invariant
            i <= releases@.len(),
            p@ == version@ + "-"@,
            plen == p@.len(),
            plen == version@.len() + 1,
            match best {
                Some((b, pr)) => {
                    &&& b < i
                    &&& is_candidate(releases@[b as int], version@)
                    &&& pr == stage_priority(stage_of(releases@[b as int], version@))
                    &&& forall|j: int| 0 <= j < i && #[trigger] is_candidate(releases@[j], version@)
                            ==> stage_priority(stage_of(releases@[j], version@)) <= pr
                    &&& forall|j: int| 0 <= j < b && #[trigger] is_candidate(releases@[j], version@)
                            ==> stage_priority(stage_of(releases@[j], version@)) < pr
                },
                None => forall|j: int| 0 <= j < i ==> !#[trigger] is_candidate(releases@[j], version@),
            },
        decreases releases.len() - i,
    {
        let tag = chars_of(releases[i].tag_name.as_str());
        if has_prefix(tag.as_slice(), p.as_slice()) {
            let n = tag.len();
            let stage = crate::text::string_of(tag.as_slice(), plen, n);
            assert(stage@ == stage_of(releases@[i as int], version@));
            let pr = release_stage_priority(stage.as_str());
            match best {
                Some((_, bp)) => {
                    if pr > bp {
                        best = Some((i, pr));
                    }
                },
                None => {
                    best = Some((i, pr));
                },
            }
        }
        i = i + 1;
    }
    match best {
        Some((b, _)) => {
            let tag = chars_of(releases[b].tag_name.as_str());
            let n = tag.len();
            let stage = crate::text::string_of(tag.as_slice(), plen, n);
            Some((b, stage))
        },
        None => None,
    }
}

/// Name of a file that is the Godot editor executable: executable, and
/// `godot` in its lowercase name or `Godot` at its start. `lower` is the
/// lowercase form of `name`.
pub open spec fn is_godot_exe(name: Seq<char>, lower: Seq<char>, executable: bool) -> bool {
    executable && (contains(lower, "godot"@) || starts_with(name, "Godot"@))
}

/// Whether a file (`name`, lowercase form `lower_name`) is a Godot editor executable.
pub fn godot_exe_matches(name: &str, lower_name: &str, executable: bool) -> (b: bool)
    ensures
        b == is_godot_exe(name@, lower_name@, executable),
{
    let godot_lower = chars_of("godot");
    let godot = chars_of("Godot");
    executable && (contains_in(chars_of(lower_name).as_slice(), godot_lower.as_slice())
        || has_prefix(chars_of(name).as_slice(), godot.as_slice()))
}

/// File `i` of an extracted editor is a Godot executable.
pub open spec fn file_is_exe(files: Seq<(String, bool)>, i: int) -> bool {
    is_godot_exe(files[i].0@, lowercase(files[i].0@), files[i].1)
}

/// Index of the editor executable among extracted files (name, executable):
/// the last console executable, or else the first other one.
pub open spec fn editor_executable_index(files: Seq<(String, bool)>) -> Option<int> {
    let console = last_where(files.len() as int,
        |i: int| file_is_exe(files, i) && contains(files[i].0@, "console"@));
    if console is Some {
        console
    } else {
        first_where(files.len() as int,
            |i: int| file_is_exe(files, i) && !contains(files[i].0@, "console"@))
    }
}

/// Chooses the editor executable among the files of an extracted editor,
/// given as (file name, is executable).
pub fn pick_editor_executable(files: &[(String, bool)]) -> (r: Option<usize>)
    ensures
        r matches Some(i) ==> editor_executable_index(files@) == Some(i as int),
        r is None ==> editor_executable_index(files@) is None,
{
    let ghost cpred = |i: int| file_is_exe(files@, i) && contains(files@[i].0@, "console"@);
    let ghost rpred = |i: int| file_is_exe(files@, i) && !contains(files@[i].0@, "console"@);
    let console_word = chars_of("console");
    let mut console: Option<usize> = None;
    let mut regular: Option<usize> = None;
    let mut i: usize = 0;
    while i < files.len()
        invariant
            i <= files@.len(),
            console_word@ == "console"@,
            cpred == (|i: int| file_is_exe(files@, i) && contains(files@[i].0@, "console"@)),
            rpred == (|i: int| file_is_exe(files@, i) && !contains(files@[i].0@, "console"@)),
            match console {
                Some(c) => c < i && cpred(c as int) && forall|j: int| c < j < i ==> !#[trigger] cpred(j),
                None => forall|j: int| 0 <= j < i ==> !#[trigger] cpred(j),
            },
            match regular {
                Some(g) => g < i && rpred(g as int) && forall|j: int| 0 <= j < g ==> !#[trigger] rpred(j),
                None => forall|j: int| 0 <= j < i ==> !#[trigger] rpred(j),
            },
        decreases files.len() - i,
    {
        let lower = to_lowercase(files[i].0.as_str());
        if godot_exe_matches(files[i].0.as_str(), lower.as_str(), files[i].1) {
            if contains_in(chars_of(files[i].0.as_str()).as_slice(), console_word.as_slice()) {
                console = Some(i);
            } else if regular.is_none() {
                regular = Some(i);
            }
        }
        i = i + 1;
    }
    match console {
        Some(c) => {
            proof { lemma_last_where_is(files@.len() as int, cpred, c as int); }
            Some(c)
        },
        None => {
            assert(last_where(files@.len() as int, cpred) is None);
            match regular {
                Some(g) => {
                    proof { lemma_first_where_is(files@.len() as int, rpred, g as int); }
                    Some(g)
                },
                None => {
                    proof { lemma_first_where_none(files@.len() as int, rpred); }
                    None
                },
            }
        },
    }
}

} // verus!
