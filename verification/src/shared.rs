//! Helpers shared by the commands: project names, version arguments that
//! are paths, the clock, and recording an opened project.
use vstd::prelude::*;
use crate::text::{
    ascii_lower, chars_of, contains, contains_in, is_alpha, is_ascii_alpha, is_ascii_digit,
    is_digit, push_char,
};
use crate::numparse::{decimal, decimal_string};
use crate::config::{same_tools_and_addons, Config, ProjectInfo};

verus! {

/// `c.to_ascii_lowercase()` for ASCII letters and digits, `_` for anything else.
pub open spec fn snake_char(c: char) -> char {
    if is_alpha(c) || is_digit(c) { ascii_lower(c) } else { '_' }
}

/// `s` as an identifier: ASCII letters lowercased, digits kept, every other
/// character replaced by `_`.
pub open spec fn snake(s: Seq<char>) -> Seq<char> {
    s.map_values(|c: char| snake_char(c))
}

/// Turns a project name into a snake-case identifier.
pub fn snake_case(s: &str) -> (r: String)
    ensures
        r@ == snake(s@),
{
    let cs = chars_of(s);
    let mut r = String::new();
    let mut i: usize = 0;
    while i < cs.len()
        invariant
            i <= cs@.len(),
            cs@ == s@,
            r@ == snake(s@.take(i as int)),
        decreases cs.len() - i,
    {
        let c = cs[i];
        let d = if is_ascii_alpha(c) || is_ascii_digit(c) {
            if 'A' <= c && c <= 'Z' {
                ((c as u32) + 32) as u8 as char
            } else {
                c
            }
        } else {
            '_'
        };
        assert(d == snake_char(c)) by {
            if 'A' <= c && c <= 'Z' {
                assert(((c as u32) + 32) < 128);
            }
        }
        push_char(&mut r, d);
        assert(s@.take(i + 1) == s@.take(i as int).push(c));
        assert(snake(s@.take(i + 1)) =~= snake(s@.take(i as int)).push(d));
        i = i + 1;
    }
    assert(s@.take(s@.len() as int) == s@);
    r
}

/// A version argument that is a path to an editor binary: it holds `/` or `\`.
pub fn looks_like_path(s: &str) -> (b: bool)
    ensures
        b == (contains(s@, "/"@) || contains(s@, "\\"@)),
{
    let c = chars_of(s);
    contains_in(c.as_slice(), chars_of("/").as_slice()) || contains_in(c.as_slice(), chars_of("\\").as_slice())
}

/// Seconds since the Unix epoch by the system clock (`SystemTime::now`), or
/// `None` when the clock is set before the epoch. Nothing is claimed of the
/// value: it is whatever the clock says.
#[verifier::external_body]
pub(crate) fn unix_time_secs() -> (r: Option<u64>)
{
    match std::time::SystemTime::now().duration_since(std::time::UNIX_EPOCH) {
        Ok(d) => Some(d.as_secs()),
        Err(_) => None,
    }
}

/// The current time as decimal seconds since the Unix epoch (0 when the
/// clock is set before the epoch).
pub fn chrono_now() -> (r: String)
    ensures
        exists|n: nat| r@ == decimal(n),
{
    let secs = match unix_time_secs() {
        Some(s) => s,
        None => 0,
    };
    decimal_string(secs)
}

/// Records the project at `path` as opened now with the editor
/// `editor_version`, making it the most recent project.
pub fn register_opened_project(config: &mut Config, path: String, name: String, editor_version: &str)
    ensures
        final(config).projects@.contains_key(path@),
        final(config).projects@ == old(config).projects@.insert(path@, final(config).projects@[path@]),
        final(config).projects@[path@].path == path,
        final(config).projects@[path@].name == name,
        final(config).projects@[path@].bound_editor matches Some(b) && b@ == editor_version@,
        final(config).projects@[path@].last_opened matches Some(t) && exists|n: nat| t@ == decimal(n),
        final(config).recent_project matches Some(p) && p@ == path@,
        final(config).editors@ == old(config).editors@,
        same_tools_and_addons(*final(config), *old(config)),
        final(config).editors == old(config).editors,
{
    let now = chrono_now();
    let project_info = ProjectInfo {
        path,
        name,
        bound_editor: Some(String::from_str(editor_version)),
        last_opened: Some(now),
    };
    config.register_project(&project_info);
}

/// Whether butler has to be downloaded: not when its version was checked
/// recently; otherwise when the binary is missing or no version is recorded.
pub fn needs_download(butler_exists: bool, installed_version: &Option<String>, check_cached: bool) -> (b: bool)
    ensures
        b == (!check_cached && (!butler_exists || installed_version is None)),
{
    if check_cached {
        return false;
    }
    if !butler_exists {
        return true;
    }
    match installed_version {
        Some(_) => false,
        None => true,
    }
}

/// `m` without the keys in `paths`.
pub open spec fn without_keys(m: Map<Seq<char>, ProjectInfo>, paths: Seq<String>) -> Map<Seq<char>, ProjectInfo>
    decreases paths.len(),
{
    if paths.len() == 0 {
        m
    } else {
        without_keys(m, paths.drop_last()).remove(paths.last()@)
    }
}

/// The registered projects `paths` removes, in order (a path listed twice
/// is removed once).
pub open spec fn removed_infos(m: Map<Seq<char>, ProjectInfo>, paths: Seq<String>) -> Seq<ProjectInfo>
    decreases paths.len(),
{
    if paths.len() == 0 {
        Seq::empty()
    } else {
        let w = without_keys(m, paths.drop_last());
        if w.contains_key(paths.last()@) {
            removed_infos(m, paths.drop_last()).push(w[paths.last()@])
        } else {
            removed_infos(m, paths.drop_last())
        }
    }
}

/// Forgets the projects whose directories no longer hold a project
/// (`missing`, as found on disk), returning those that were registered; the
/// recent project is forgotten with its project.
pub fn remove_missing_projects(config: &mut Config, missing: &[String]) -> (removed: Vec<ProjectInfo>)
    ensures
        final(config).projects@ == without_keys(old(config).projects@, missing@),
        removed@ == removed_infos(old(config).projects@, missing@),
        final(config).recent_project == (match old(config).recent_project {
            Some(p) => if exists|j: int| 0 <= j < missing@.len() && (#[trigger] missing@[j])@ == p@ { None } else { Some(p) },
            None => None,
        }),
        final(config).editors@ == old(config).editors@,
        same_tools_and_addons(*final(config), *old(config)),
        final(config).editors == old(config).editors,
{
    let mut removed: Vec<ProjectInfo> = Vec::new();
    let mut i: usize = 0;
    let ghost start = old(config).projects@;
    let ghost recent = old(config).recent_project;
    while i < missing.len()
        invariant
            i <= missing@.len(),
            start == old(config).projects@,
            recent == old(config).recent_project,
            config.projects@ == without_keys(start, missing@.take(i as int)),
            removed@ == removed_infos(start, missing@.take(i as int)),
            config.recent_project == (match recent {
                Some(p) => if exists|j: int| 0 <= j < i && (#[trigger] missing@[j])@ == p@ { None } else { Some(p) },
                None => None,
            }),
            config.editors@ == old(config).editors@,
            same_tools_and_addons(*config, *old(config)),
            config.editors == old(config).editors,
        decreases missing.len() - i,
    {
        assert(missing@.take(i + 1).drop_last() == missing@.take(i as int));
        assert(missing@.take(i + 1).last() == missing@[i as int]);
        let r = config.remove_project(missing[i].as_str());
        if let Some(p) = r {
            removed.push(p);
        }
        proof {
            match recent {
                Some(p) => {
                    if exists|j: int| 0 <= j < i + 1 && (#[trigger] missing@[j])@ == p@ {
                        if !(exists|j: int| 0 <= j < i && (#[trigger] missing@[j])@ == p@) {
                            assert(missing@[i as int]@ == p@);
                        }
                    } else {
                        assert(!(exists|j: int| 0 <= j < i && (#[trigger] missing@[j])@ == p@));
                        assert(missing@[i as int]@ != p@);
                    }
                },
                None => {},
            }
        }
        i = i + 1;
    }
    assert(missing@.take(missing@.len() as int) == missing@);
    removed
}


/// After the missing projects are forgotten, a project is registered
/// exactly when it was before and is not among the missing ones.
pub proof fn lemma_missing_projects_forgotten(m: Map<Seq<char>, ProjectInfo>, missing: Seq<String>, k: Seq<char>)
    ensures
        without_keys(m, missing).contains_key(k)
            == (m.contains_key(k) && !exists|j: int| 0 <= j < missing.len() && (#[trigger] missing[j])@ == k),
        without_keys(m, missing).contains_key(k) ==> without_keys(m, missing)[k] == m[k],
    decreases missing.len(),
{
    if missing.len() > 0 {
        let init = missing.drop_last();
        lemma_missing_projects_forgotten(m, init, k);
        if exists|j: int| 0 <= j < init.len() && (#[trigger] init[j])@ == k {
            let j = choose|j: int| 0 <= j < init.len() && (#[trigger] init[j])@ == k;
            assert(missing[j] == init[j]);
        }
        if exists|j: int| 0 <= j < missing.len() && (#[trigger] missing[j])@ == k {
            let j = choose|j: int| 0 <= j < missing.len() && (#[trigger] missing[j])@ == k;
            if j < init.len() {
                assert(init[j] == missing[j]);
            }
        }
    }
}

} // verus!
