//! GDRE Tools (used to recover projects): which release asset to download,
//! and when the installed copy must be updated.
use vstd::prelude::*;
use crate::text::{
    chars_of, chars_eq, contains, contains_in, ends_with, first_where, has_suffix,
    lemma_first_where_is, lemma_first_where_none, lowercase, string_of_all, to_lowercase,
    trim_start_char, trim_start_matching,
};
use crate::platform::{TargetOs, platform_asset_pattern};
use crate::github::{GitHubAsset, GitHubRelease};
use crate::config::Config;

verus! {

/// Seconds between two checks for a newer GDRE Tools release (a day).
pub const CHECK_INTERVAL_SECONDS: u64 = 86400;

/// Path of the GDRE Tools executable inside its directory.
pub fn gdre_exe_name(os: TargetOs) -> (r: &'static str)
    ensures
        r@ == (match os {
            TargetOs::Windows => "gdre_tools.exe"@,
            TargetOs::MacOs => "Godot RE Tools.app/Contents/MacOS/Godot RE Tools"@,
            _ => "gdre_tools"@,
        }),
{
    match os {
        TargetOs::Windows => "gdre_tools.exe",
        TargetOs::MacOs => "Godot RE Tools.app/Contents/MacOS/Godot RE Tools",
        _ => "gdre_tools",
    }
}

/// The release asset (lowercase name `lower`) is the GDRE Tools archive for
/// the platform `pattern`.
pub open spec fn gdre_asset_fits(lower: Seq<char>, pattern: Seq<char>) -> bool {
    ends_with(lower, ".zip"@) && contains(lower, pattern) && !contains(lower, "android"@)
}

/// Whether an asset with lowercase name `lower_name` is the archive sought.
pub fn gdre_asset_matches(lower_name: &str, pattern: &str) -> (b: bool)
    ensures
        b == gdre_asset_fits(lower_name@, pattern@),
{
    let l = chars_of(lower_name);
    has_suffix(l.as_slice(), chars_of(".zip").as_slice()) && contains_in(l.as_slice(), chars_of(pattern).as_slice())
        && !contains_in(l.as_slice(), chars_of("android").as_slice())
}

/// Index of the first asset that is the GDRE Tools archive for `pattern`.
pub open spec fn first_gdre_asset(assets: Seq<GitHubAsset>, pattern: Seq<char>) -> Option<int> {
    first_where(assets.len() as int, |i: int| gdre_asset_fits(lowercase(assets[i].name@), pattern))
}

/// Index of the GDRE Tools archive for `os` among a release's assets; none
/// for an unknown platform.
pub open spec fn gdre_asset_index(assets: Seq<GitHubAsset>, os: TargetOs) -> Option<int> {
    let pattern = match os {
        TargetOs::Windows => "windows"@,
        TargetOs::Linux => "linux"@,
        TargetOs::MacOs => "macos"@,
        TargetOs::Other => ""@,
    };
    if pattern.len() == 0 {
        None
    } else {
        first_gdre_asset(assets, pattern)
    }
}

/// The GDRE Tools archive for `os` in `release`.
pub fn find_platform_asset(release: &GitHubRelease, os: TargetOs) -> (r: Option<&GitHubAsset>)
    ensures
        r == (match gdre_asset_index(release.assets@, os) {
            Some(i) => Some(&release.assets@[i]),
            None => None,
        }),
{
    let pattern = platform_asset_pattern(os);
    proof { reveal_strlit(""); }
    if chars_of(pattern).len() == 0 {
        return None;
    }
    let ghost pred = |i: int| gdre_asset_fits(lowercase(release.assets@[i].name@), pattern@);
    let mut i: usize = 0;
    while i < release.assets.len()
        invariant
            i <= release.assets@.len(),
            pattern@.len() > 0,
            pattern@ == (match os {
                TargetOs::Windows => "windows"@,
                TargetOs::Linux => "linux"@,
                TargetOs::MacOs => "macos"@,
                TargetOs::Other => ""@,
            }),
            pred == (|i: int| gdre_asset_fits(lowercase(release.assets@[i].name@), pattern@)),
            forall|j: int| 0 <= j < i ==> !#[trigger] pred(j),
        decreases release.assets.len() - i,
    {
        let lower = to_lowercase(release.assets[i].name.as_str());
        if gdre_asset_matches(lower.as_str(), pattern) {
            proof { lemma_first_where_is(release.assets@.len() as int, pred, i as int); }
            return Some(&release.assets[i]);
        }
        i = i + 1;
    }
    proof { lemma_first_where_none(release.assets@.len() as int, pred); }
    None
}

/// The last check for a newer release, at `last_checked`, was less than a
/// day before `now`.
pub open spec fn checked_recently(last_checked: Option<u64>, now: u64) -> bool {
    match last_checked {
        Some(ts) => (if now >= ts { now - ts } else { 0 }) < CHECK_INTERVAL_SECONDS,
        None => false,
    }
}

/// Whether the installed GDRE Tools can be used without asking for a newer
/// release: it exists, its version is known and it was checked less than a
/// day ago.
pub fn gdre_is_current(config: &Config, exe_exists: bool, now: u64) -> (b: bool)
    ensures
        b == (exe_exists && config.gdre_tools_version is Some
            && checked_recently(config.gdre_tools_last_checked, now)),
{
    let recent = match config.gdre_tools_last_checked {
        Some(ts) => now.saturating_sub(ts) < CHECK_INTERVAL_SECONDS,
        None => false,
    };
    exe_exists && config.gdre_tools_version.is_some() && recent
}

/// Version of a release tag, leading `v`s removed.
pub fn gdre_latest_version(tag: &str) -> (r: String)
    ensures
        r@ == trim_start_char(tag@, 'v'),
{
    string_of_all(trim_start_matching(chars_of(tag).as_slice(), 'v').as_slice())
}

/// GDRE Tools must be downloaded: the executable is missing, or the
/// installed version is not the latest.
pub open spec fn gdre_update_needed(current: Option<String>, latest: Seq<char>, exe_exists: bool) -> bool {
    match current {
        Some(c) => c@ != latest || !exe_exists,
        None => !exe_exists,
    }
}

/// Whether GDRE Tools must be downloaded for the release `latest_version`.
pub fn gdre_needs_update(config: &Config, latest_version: &str, exe_exists: bool) -> (b: bool)
    ensures
        b == gdre_update_needed(config.gdre_tools_version, latest_version@, exe_exists),
{
    match &config.gdre_tools_version {
        Some(current) => !chars_eq(chars_of(current.as_str()).as_slice(), chars_of(latest_version).as_slice()) || !exe_exists,
        None => !exe_exists,
    }
}

/// Records a check for a newer GDRE Tools release at `now`, and the version
/// installed when one was.
pub fn record_gdre_check(config: &mut Config, installed: Option<String>, now: u64)
    ensures
        final(config).gdre_tools_last_checked == Some(now),
        final(config).gdre_tools_version == (match installed {
            Some(v) => Some(v),
            None => old(config).gdre_tools_version,
        }),
        final(config).editors@ == old(config).editors@,
        final(config).projects@ == old(config).projects@,
        final(config).recent_project == old(config).recent_project,
        final(config).editors == old(config).editors,
        final(config).projects == old(config).projects,
        final(config).itch == old(config).itch,
        final(config).addons == old(config).addons,
{
    if let Some(v) = installed {
        config.gdre_tools_version = Some(v);
    }
    config.gdre_tools_last_checked = Some(now);
}

} // verus!
