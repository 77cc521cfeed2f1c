//! Addon bookkeeping: `publisher/asset` identifiers, global store names,
//! linked-addon references, repositories, the `.gdio` and `.gitignore` texts.
use vstd::prelude::*;
use vstd::slice::slice_to_vec;
use crate::text::{chars_of, chars_eq, contains_in, find_char, find_char_in, has_prefix, has_suffix, push_char, push_chars, push_str, rfind_char, rfind_char_in, split, split_chars, starts_with, ends_with, strip_prefix_or_keep, strip_prefix_or_self, string_of_all, views};
use crate::platform::string_views;
use crate::config::{same_outside_addons, Config, GdioAddonEntry, GdioProject, LinkedAddonInfo};
use crate::text::{first_where, lemma_first_where_is, lemma_first_where_none, contains, join, strip_suffix_or_self, trim_end_char, trim_end_matching, join_chars, lines, lines_of, string_of, trim, trim_start, trim_start_index, trimmed};
use vstd::utf8::encode_utf8;

verus! {

/// Publisher and asset of an identifier: the text before and after its first `/`.
pub open spec fn identifier_parts(id: Seq<char>) -> Option<(Seq<char>, Seq<char>)> {
    match find_char(id, '/') {
        Some(i) => Some((id.take(i), id.skip(i + 1))),
        None => None,
    }
}

/// A valid `publisher/asset` identifier: both parts non-empty.
pub open spec fn valid_identifier(id: Seq<char>) -> bool {
    identifier_parts(id) matches Some((p, a)) && p.len() > 0 && a.len() > 0
}

fn split_first_slash(s: &[char]) -> (r: Option<(Vec<char>, Vec<char>)>)
    ensures
        match identifier_parts(s@) {
            Some((p, a)) => r matches Some((x, y)) && x@ == p && y@ == a,
            None => r is None,
        },
{
    match find_char_in(s, '/') {
        Some(i) => {
            let n = s.len();
            let p = slice_to_vec(&s[0..i]);
            let a = slice_to_vec(&s[i + 1..n]);
            assert(p@ == s@.take(i as int));
            assert(a@ == s@.skip(i + 1));
            Some((p, a))
        },
        None => None,
    }
}

/// Splits an identifier at its first `/`, as `splitn(2, '/')` does when it
/// yields two parts.
pub fn split_identifier(identifier: &str) -> (r: Option<(String, String)>)
    ensures
        match identifier_parts(identifier@) {
            Some((p, a)) => r matches Some((x, y)) && x@ == p && y@ == a,
            None => r is None,
        },
{
    match split_first_slash(chars_of(identifier).as_slice()) {
        Some((p, a)) => Some((string_of_all(p.as_slice()), string_of_all(a.as_slice()))),
        None => None,
    }
}

/// An identifier that is not of the form `publisher/asset`.
#[derive(Debug)]
pub struct InvalidIdentifier {
    pub identifier: String,
}

impl InvalidIdentifier {
    /// The error message shown for it.
    pub fn message(&self) -> (m: String)
        ensures
            m@ == "Invalid identifier '"@ + self.identifier@
                + "'. Expected format: publisher/asset (e.g., bitwes/gut)"@,
    {
        let mut m = String::from_str("Invalid identifier '");
        push_str(&mut m, self.identifier.as_str());
        push_str(&mut m, "'. Expected format: publisher/asset (e.g., bitwes/gut)");
        m
    }
}

/// Parses a `publisher/asset` identifier into its two non-empty parts.
pub fn parse_identifier(identifier: &str) -> (r: Result<(String, String), InvalidIdentifier>)
    ensures
        match r {
            Ok((p, a)) => identifier_parts(identifier@) == Some((p@, a@)) && p@.len() > 0 && a@.len() > 0,
            Err(e) => !valid_identifier(identifier@) && e.identifier@ == identifier@,
        },
{
    match split_identifier(identifier) {
        Some((p, a)) => {
            if p.as_str().is_empty() || a.as_str().is_empty() {
                Err(InvalidIdentifier { identifier: String::from_str(identifier) })
            } else {
                Ok((p, a))
            }
        },
        None => Err(InvalidIdentifier { identifier: String::from_str(identifier) }),
    }
}

/// Name of the global store directory of an addon version:
/// `publisher_asset_version`.
pub open spec fn store_dir(id: Seq<char>, version: Seq<char>) -> Option<Seq<char>> {
    match identifier_parts(id) {
        Some((p, a)) => Some(p + "_"@ + a + "_"@ + version),
        None => None,
    }
}

/// The global store directory name of an addon version, when the identifier
/// has a `/`.
pub fn store_dir_name(identifier: &str, version: &str) -> (r: Option<String>)
    ensures
        match store_dir(identifier@, version@) {
            Some(d) => r matches Some(s) && s@ == d,
            None => r is None,
        },
{
    match split_identifier(identifier) {
        Some((p, a)) => {
            let mut s = p;
            push_str(&mut s, "_");
            push_str(&mut s, a.as_str());
            push_str(&mut s, "_");
            push_str(&mut s, version);
            Some(s)
        },
        None => None,
    }
}

/// Name of the downloaded archive of an addon version: the identifier with
/// `/` turned into `_`, then `_v<version>.zip`.
pub open spec fn addon_zip(id: Seq<char>, version: Seq<char>) -> Seq<char> {
    id.map_values(|c: char| if c == '/' { '_' } else { c }) + "_v"@ + version + ".zip"@
}

/// The file name an addon version is downloaded to.
pub fn addon_zip_name(identifier: &str, version: &str) -> (r: String)
    ensures
        r@ == addon_zip(identifier@, version@),
{
    let id = chars_of(identifier);
    let mut r = String::new();
    let mut i: usize = 0;
    while i < id.len()
        invariant
            i <= id@.len(),
            r@ == id@.take(i as int).map_values(|c: char| if c == '/' { '_' } else { c }),
        decreases id.len() - i,
    {
        let c = if id[i] == '/' { '_' } else { id[i] };
        push_char(&mut r, c);
        assert(id@.take(i + 1) == id@.take(i as int).push(id@[i as int]));
        i = i + 1;
    }
    assert(id@.take(id@.len() as int) == id@);
    push_str(&mut r, "_v");
    push_str(&mut r, version);
    push_str(&mut r, ".zip");
    r
}

/// The last `/`-separated part of an identifier.
pub open spec fn last_segment(id: Seq<char>) -> Seq<char> {
    match rfind_char(id, '/') {
        Some(i) => id.skip(i + 1),
        None => id,
    }
}

/// Folder an addon is installed under: the one recorded for it as linked or
/// as global, or else the asset part of its identifier.
pub open spec fn folder_name_of(c: Config, id: Seq<char>) -> Seq<char> {
    if c.addons.linked@.contains_key(id) {
        c.addons.linked@[id].folder_name@
    } else if c.addons.globals@.contains_key(id) {
        c.addons.globals@[id].folder_name@
    } else {
        last_segment(id)
    }
}

/// The folder an addon is installed under.
pub fn resolve_folder_name(config: &Config, identifier: &str) -> (r: Option<String>)
    ensures
        r matches Some(f) && f@ == folder_name_of(*config, identifier@),
{
    if let Some(info) = config.addons.linked.get(identifier) {
        return Some(info.folder_name.clone());
    }
    if let Some(info) = config.addons.globals.get(identifier) {
        return Some(info.folder_name.clone());
    }
    let id = chars_of(identifier);
    match rfind_char_in(id.as_slice(), '/') {
        Some(i) => {
            let n = id.len();
            let s = slice_to_vec(&id.as_slice()[i + 1..n]);
            assert(s@ == id@.skip(i + 1));
            Some(string_of_all(s.as_slice()))
        },
        None => Some(String::from_str(identifier)),
    }
}

/// The projects other than `key`, in order.
pub open spec fn without_project(ps: Seq<String>, key: Seq<char>) -> Seq<String> {
    ps.filter(|p: String| p@ != key)
}

proof fn lemma_without_step(ps: Seq<String>, key: Seq<char>, i: int)
    requires
        0 <= i < ps.len(),
    ensures
        without_project(ps.take(i + 1), key) == if ps[i]@ != key {
            without_project(ps.take(i), key).push(ps[i])
        } else {
            without_project(ps.take(i), key)
        },
{
    reveal(Seq::filter);
    assert(ps.take(i + 1).drop_last() == ps.take(i));
    assert(ps.take(i + 1).last() == ps[i]);
}

fn projects_without(ps: &Vec<String>, key: &str) -> (r: Vec<String>)
    ensures
        r@ == without_project(ps@, key@),
{
    let k = chars_of(key);
    let mut r: Vec<String> = Vec::new();
    proof { reveal(Seq::filter); }
    assert(ps@.take(0) =~= Seq::<String>::empty());
    let mut i: usize = 0;
    while i < ps.len()
        invariant
            i <= ps@.len(),
            k@ == key@,
            r@ == without_project(ps@.take(i as int), key@),
        decreases ps.len() - i,
    {
        proof { lemma_without_step(ps@, key@, i as int); }
        if !chars_eq(chars_of(ps[i].as_str()).as_slice(), k.as_slice()) {
            r.push(ps[i].clone());
        }
        i = i + 1;
    }
    assert(ps@.take(ps@.len() as int) == ps@);
    r
}

/// Removes the project `project_key` from the references of the linked addon
/// `identifier`. When no project references it any more, the addon's entry is
/// removed and returned, so that its global store directory can be deleted.
pub fn remove_project_reference(config: &mut Config, identifier: &str, project_key: &str) -> (r: Option<LinkedAddonInfo>)
    ensures
        !old(config).addons.linked@.contains_key(identifier@) ==> {
            &&& r is None
            &&& final(config).addons.linked@ == old(config).addons.linked@
        },
        old(config).addons.linked@.contains_key(identifier@) ==> {
            let info = old(config).addons.linked@[identifier@];
            let rest = without_project(info.projects@, project_key@);
            if rest.len() == 0 {
                &&& final(config).addons.linked@ == old(config).addons.linked@.remove(identifier@)
                &&& r matches Some(i) && i.version == info.version && i.folder_name == info.folder_name
                    && i.projects@ == rest
            } else {
                &&& r is None
                &&& final(config).addons.linked@ == old(config).addons.linked@.insert(identifier@,
                        LinkedAddonInfo { projects: final(config).addons.linked@[identifier@].projects, ..info })
                &&& final(config).addons.linked@[identifier@].projects@ == rest
            }
        },
        final(config).addons.globals@ == old(config).addons.globals@,
        final(config).addons.repositories@ == old(config).addons.repositories@,
        final(config).editors@ == old(config).editors@,
        final(config).projects@ == old(config).projects@,
        final(config).recent_project == old(config).recent_project,
        same_outside_addons(*final(config), *old(config)),
        final(config).addons.repositories == old(config).addons.repositories,
        final(config).addons.globals == old(config).addons.globals,
        final(config).addons.globals_exclusions == old(config).addons.globals_exclusions,
        final(config).addons.sync_count == old(config).addons.sync_count,
{
    let (version, folder_name, rest) = match config.addons.linked.get(identifier) {
        Some(info) => (info.version.clone(), info.folder_name.clone(), projects_without(&info.projects, project_key)),
        None => {
            return None;
        },
    };
    let ghost info = old(config).addons.linked@[identifier@];
    assert(rest@ == without_project(info.projects@, project_key@));
    if rest.len() == 0 {
        let removed = config.addons.linked.remove(identifier);
        Some(LinkedAddonInfo { version, folder_name, projects: rest })
    } else {
        config.addons.linked.insert(String::from_str(identifier), LinkedAddonInfo { version, folder_name, projects: rest });
        None
    }
}

/// The projects referencing a linked addon once `key` is added: unchanged
/// when `key` is already there, else with `key` last; just `key` for an
/// addon not linked yet.
pub open spec fn with_project(m: Map<Seq<char>, LinkedAddonInfo>, identifier: Seq<char>, key: String) -> Seq<String> {
    if m.contains_key(identifier) {
        let ps = m[identifier].projects@;
        if exists|i: int| 0 <= i < ps.len() && (#[trigger] ps[i])@ == key@ { ps } else { ps.push(key) }
    } else {
        seq![key]
    }
}

/// Records that the project `project_key` links the addon `identifier`,
/// installed at `version` in `folder_name`: the addon's entry is created if
/// needed, takes the new version and folder, and lists the project once.
pub fn add_project_reference(config: &mut Config, identifier: &str, version: String, folder_name: String, project_key: String)
    ensures
        final(config).addons.linked@ == old(config).addons.linked@.insert(identifier@,
            LinkedAddonInfo { version, folder_name, projects: final(config).addons.linked@[identifier@].projects }),
        final(config).addons.linked@[identifier@].projects@ == with_project(old(config).addons.linked@, identifier@, project_key),
        final(config).addons.globals@ == old(config).addons.globals@,
        final(config).addons.globals_exclusions@ == old(config).addons.globals_exclusions@,
        final(config).addons.repositories@ == old(config).addons.repositories@,
        final(config).editors@ == old(config).editors@,
        final(config).projects@ == old(config).projects@,
        final(config).recent_project == old(config).recent_project,
        same_outside_addons(*final(config), *old(config)),
        final(config).addons.repositories == old(config).addons.repositories,
        final(config).addons.globals == old(config).addons.globals,
        final(config).addons.globals_exclusions == old(config).addons.globals_exclusions,
        final(config).addons.sync_count == old(config).addons.sync_count,
{
    let ghost m = old(config).addons.linked@;
    let mut projects: Vec<String> = match config.addons.linked.remove(identifier) {
        Some(info) => info.projects,
        None => Vec::new(),
    };
    let k = chars_of(project_key.as_str());
    let mut found = false;
    let mut i: usize = 0;
    while i < projects.len()
        invariant
            i <= projects@.len(),
            k@ == project_key@,
            found == exists|j: int| 0 <= j < i && (#[trigger] projects@[j])@ == project_key@,
        decreases projects.len() - i,
    {
        if chars_eq(chars_of(projects[i].as_str()).as_slice(), k.as_slice()) {
            found = true;
        }
        i = i + 1;
    }
    if !found {
        projects.push(project_key);
    }
    proof {
        if !m.contains_key(identifier@) {
            assert(projects@ =~= seq![project_key]);
        }
    }
    let ghost ps = projects;
    config.addons.linked.insert(identifier.to_owned(), LinkedAddonInfo { version, folder_name, projects });
    assert(config.addons.linked@ =~= m.insert(identifier@,
        LinkedAddonInfo { version, folder_name, projects: config.addons.linked@[identifier@].projects }));
}

/// Decides what becomes of the linked addon `identifier` once the projects
/// that still use it are known: with none, its entry is removed and returned
/// (its global store directory is then deleted); otherwise its project list
/// becomes `valid_projects` where that changes the count.
pub fn prune_linked_addon(config: &mut Config, identifier: &str, valid_projects: Vec<String>) -> (r: Option<LinkedAddonInfo>)
    ensures
        !old(config).addons.linked@.contains_key(identifier@) ==> {
            &&& r is None
            &&& final(config).addons.linked@ == old(config).addons.linked@
        },
        old(config).addons.linked@.contains_key(identifier@) ==> {
            let info = old(config).addons.linked@[identifier@];
            if valid_projects@.len() == 0 {
                &&& final(config).addons.linked@ == old(config).addons.linked@.remove(identifier@)
                &&& r == Some(info)
            } else if valid_projects@.len() != info.projects@.len() {
                &&& r is None
                &&& final(config).addons.linked@ == old(config).addons.linked@.insert(identifier@,
                        LinkedAddonInfo { projects: valid_projects, ..info })
            } else {
                &&& r is None
                &&& final(config).addons.linked@ == old(config).addons.linked@
            }
        },
        final(config).addons.globals@ == old(config).addons.globals@,
        final(config).addons.repositories@ == old(config).addons.repositories@,
        final(config).editors@ == old(config).editors@,
        final(config).projects@ == old(config).projects@,
        final(config).recent_project == old(config).recent_project,
        same_outside_addons(*final(config), *old(config)),
        final(config).addons.repositories == old(config).addons.repositories,
        final(config).addons.globals == old(config).addons.globals,
        final(config).addons.globals_exclusions == old(config).addons.globals_exclusions,
        final(config).addons.sync_count == old(config).addons.sync_count,
{
    let (version, folder_name, count) = match config.addons.linked.get(identifier) {
        Some(info) => (info.version.clone(), info.folder_name.clone(), info.projects.len()),
        None => {
            return None;
        },
    };
    if valid_projects.len() == 0 {
        config.addons.linked.remove(identifier)
    } else if valid_projects.len() != count {
        config.addons.linked.insert(String::from_str(identifier),
            LinkedAddonInfo { version, folder_name, projects: valid_projects });
        None
    } else {
        None
    }
}

/// The linked addons after one addon's projects still using it are known:
/// removed when none is, given the projects when their number changed.
pub open spec fn prune_step(m: Map<Seq<char>, LinkedAddonInfo>, id: Seq<char>, valid: Vec<String>) -> Map<Seq<char>, LinkedAddonInfo> {
    if !m.contains_key(id) {
        m
    } else if valid@.len() == 0 {
        m.remove(id)
    } else if valid@.len() != m[id].projects@.len() {
        m.insert(id, LinkedAddonInfo { projects: valid, ..m[id] })
    } else {
        m
    }
}

/// The linked addons after all of `pairs` (identifier, projects still using
/// it) are applied, from the last pair to the first.
pub open spec fn prune_all(m: Map<Seq<char>, LinkedAddonInfo>, pairs: Seq<(String, Vec<String>)>) -> Map<Seq<char>, LinkedAddonInfo>
    decreases pairs.len(),
{
    if pairs.len() == 0 {
        m
    } else {
        prune_all(prune_step(m, pairs.last().0@, pairs.last().1), pairs.drop_last())
    }
}

/// Validates every linked addon against the projects still using it (as
/// found on disk, one pair per addon): addons no project uses any more are
/// removed and returned, so that their global store directories can be
/// deleted; the others keep only the projects still using them.
pub fn cleanup_orphaned_links(config: &mut Config, still_used: Vec<(String, Vec<String>)>) -> (removed: Vec<(String, LinkedAddonInfo)>)
    ensures
        final(config).addons.linked@ == prune_all(old(config).addons.linked@, still_used@),
        forall|k: int| 0 <= k < removed@.len() ==> old(config).addons.linked@.contains_key(#[trigger] removed@[k].0@)
            && !final(config).addons.linked@.contains_key(removed@[k].0@),
        final(config).addons.globals@ == old(config).addons.globals@,
        final(config).addons.repositories@ == old(config).addons.repositories@,
        final(config).editors@ == old(config).editors@,
        final(config).projects@ == old(config).projects@,
        same_outside_addons(*final(config), *old(config)),
        final(config).addons.repositories == old(config).addons.repositories,
        final(config).addons.globals == old(config).addons.globals,
        final(config).addons.globals_exclusions == old(config).addons.globals_exclusions,
        final(config).addons.sync_count == old(config).addons.sync_count,
{
    let mut rest = still_used;
    let mut removed: Vec<(String, LinkedAddonInfo)> = Vec::new();
    let ghost start = old(config).addons.linked@;
    while rest.len() > 0
        invariant
            prune_all(config.addons.linked@, rest@) == prune_all(start, still_used@),
            start == old(config).addons.linked@,
            forall|m: Seq<char>| #[trigger] config.addons.linked@.contains_key(m) ==> start.contains_key(m),
            forall|k: int| 0 <= k < removed@.len() ==> start.contains_key(#[trigger] removed@[k].0@)
                && !config.addons.linked@.contains_key(removed@[k].0@),
            config.addons.globals@ == old(config).addons.globals@,
            config.addons.repositories@ == old(config).addons.repositories@,
            config.editors@ == old(config).editors@,
            config.projects@ == old(config).projects@,
            same_outside_addons(*config, *old(config)),
            config.addons.repositories == old(config).addons.repositories,
            config.addons.globals == old(config).addons.globals,
            config.addons.globals_exclusions == old(config).addons.globals_exclusions,
            config.addons.sync_count == old(config).addons.sync_count,
        decreases rest@.len(),
    {
        let ghost before = config.addons.linked@;
        let ghost rs = rest@;
        let (id, valid) = rest.pop().unwrap();
        assert(rs.drop_last() == rest@);
        let out = prune_linked_addon(config, id.as_str(), valid);
        assert(config.addons.linked@ =~= prune_step(before, rs.last().0@, rs.last().1));
        let ghost r0 = removed@;
        if let Some(info) = out {
            assert(before.contains_key(id@) && !config.addons.linked@.contains_key(id@));
            removed.push((id, info));
        }
        assert forall|k: int| 0 <= k < removed@.len() implies start.contains_key(#[trigger] removed@[k].0@)
            && !config.addons.linked@.contains_key(removed@[k].0@) by {
            if k < r0.len() {
                assert(removed@[k] == r0[k]);
                assert(!before.contains_key(r0[k].0@));
            }
        }
    }
    removed
}

/// A `.gdio` line with a bare `[publisher/asset]` header made parseable:
/// `["publisher/asset"]`, indentation kept. Other lines are unchanged.
pub open spec fn bare_key_quoted(line: Seq<char>) -> Seq<char> {
    let t = trim_start(line);
    let indent = line.take(line.len() - t.len());
    if starts_with(t, "["@) && ends_with(t, "]"@) && !starts_with(t, "[\""@) && !starts_with(t, "['"@) {
        let inner = t.subrange(1, t.len() - 1);
        if contains(inner, "/"@) && !contains(inner, "\""@) && !contains(inner, "#"@) {
            indent + "[\""@ + inner + "\"]"@
        } else {
            line
        }
    } else {
        line
    }
}

/// Quotes a bare `[publisher/asset]` section header of a `.gdio` line.
pub fn quote_bare_toml_key(line: &str) -> (r: String)
    ensures
        r@ == bare_key_quoted(line@),
{
    let l = chars_of(line);
    let ls = l.as_slice();
    let a = trim_start_index(ls);
    let n = l.len();
    let t = &ls[a..n];
    assert(t@ == trim_start(l@));
    let open = chars_of("[");
    let close = chars_of("]");
    let open_dq = chars_of("[\"");
    let open_sq = chars_of("['");
    proof {
        reveal_strlit("[");
        reveal_strlit("]");
    }
    if has_prefix(t, open.as_slice()) && has_suffix(t, close.as_slice())
        && !has_prefix(t, open_dq.as_slice()) && !has_prefix(t, open_sq.as_slice()) {
        let tn = t.len();
        assert(tn >= 2) by {
            if tn == 1 {
                assert(t@.take(1)[0] == t@[0]);
                assert(t@.skip(0)[0] == t@[0]);
                assert("["@[0] == '[');
                assert("]"@[0] == ']');
            }
        }
        let inner = &t[1..tn - 1];
        if contains_in(inner, chars_of("/").as_slice()) && !contains_in(inner, chars_of("\"").as_slice())
            && !contains_in(inner, chars_of("#").as_slice()) {
            let mut r = string_of(ls, 0, a);
            assert(l@.subrange(0, a as int) == l@.take(l@.len() - t@.len()));
            push_str(&mut r, "[\"");
            push_chars(&mut r, inner);
            push_str(&mut r, "\"]");
            return r;
        }
    }
    String::from_str(line)
}

/// A `.gdio` line with a quoted `["publisher/asset"]` header written bare:
/// `[publisher/asset]`, indentation kept. Other lines are unchanged.
pub open spec fn key_unquoted(line: Seq<char>) -> Seq<char> {
    let t = trim_start(line);
    let indent = line.take(line.len() - t.len());
    if starts_with(t, "[\""@) && ends_with(t, "\"]"@) {
        let inner = t.subrange(2, t.len() - 2);
        if contains(inner, "/"@) && !contains(inner, "#"@) {
            indent + "["@ + inner + "]"@
        } else {
            line
        }
    } else {
        line
    }
}

/// Writes a quoted `["publisher/asset"]` section header of a `.gdio` line bare.
/// (A line that is `["]` after its indentation has no inner text to take.)
pub fn unquote_toml_key(line: &str) -> (r: String)
    requires
        trim_start(line@) != "[\"]"@,
    ensures
        r@ == key_unquoted(line@),
{
    let l = chars_of(line);
    let ls = l.as_slice();
    let a = trim_start_index(ls);
    let n = l.len();
    let t = &ls[a..n];
    assert(t@ == trim_start(l@));
    let open_dq = chars_of("[\"");
    let close_dq = chars_of("\"]");
    proof {
        reveal_strlit("[\"");
        reveal_strlit("\"]");
        reveal_strlit("[\"]");
    }
    if has_prefix(t, open_dq.as_slice()) && has_suffix(t, close_dq.as_slice()) {
        let tn = t.len();
        assert(tn >= 4) by {
            if tn == 2 {
                assert(t@.take(2)[1] == t@[1]);
                assert(t@.skip(0)[1] == t@[1]);
                assert("[\""@[1] == '"');
                assert("\"]"@[1] == ']');
            }
            if tn == 3 {
                assert(t@.take(2)[0] == t@[0]);
                assert(t@.take(2)[1] == t@[1]);
                assert(t@.skip(1)[1] == t@[2]);
                assert("[\""@[0] == '[');
                assert("[\""@[1] == '"');
                assert("\"]"@[1] == ']');
                assert(t@ =~= "[\"]"@);
            }
        }
        let inner = &t[2..tn - 2];
        if contains_in(inner, chars_of("/").as_slice()) && !contains_in(inner, chars_of("#").as_slice()) {
            let mut r = string_of(ls, 0, a);
            assert(l@.subrange(0, a as int) == l@.take(l@.len() - t@.len()));
            push_str(&mut r, "[");
            push_chars(&mut r, inner);
            push_str(&mut r, "]");
            return r;
        }
    }
    String::from_str(line)
}

/// A `.gdio` text made parseable as TOML: each line's bare header quoted,
/// lines joined with `\n`.
pub open spec fn gdio_for_parsing(content: Seq<char>) -> Seq<char> {
    join(lines(content).map_values(|l: Seq<char>| bare_key_quoted(l)), "\n"@)
}

/// Prepares the text of a `.gdio` file for the TOML parser.
pub fn gdio_text_for_parsing(content: &str) -> (r: String)
    ensures
        r@ == gdio_for_parsing(content@),
{
    let ls = lines_of(chars_of(content).as_slice());
    let mut out: Vec<Vec<char>> = Vec::new();
    let mut i: usize = 0;
    while i < ls.len()
        invariant
            i <= ls@.len(),
            views(out@) =~= views(ls@).take(i as int).map_values(|l: Seq<char>| bare_key_quoted(l)),
        decreases ls.len() - i,
    {
        let line = string_of_all(ls[i].as_slice());
        let q = quote_bare_toml_key(line.as_str());
        let ghost before = out@;
        out.push(chars_of(q.as_str()));
        assert(views(out@) =~= views(before).push(q@));
        assert(views(ls@).take(i + 1) =~= views(ls@).take(i as int).push(ls@[i as int]@));
        i = i + 1;
    }
    assert(views(ls@).take(ls@.len() as int) =~= views(ls@));
    join_chars(&out, "\n")
}

/// No line of `content` is `["]` after its indentation.
pub open spec fn no_bare_quote_header(content: Seq<char>) -> bool {
    forall|i: int| 0 <= i < lines(content).len() ==> trim_start(#[trigger] lines(content)[i]) != "[\"]"@
}

/// A TOML text written for a `.gdio` file: each line's quoted header
/// written bare, lines joined with `\n`.
pub open spec fn gdio_for_writing(content: Seq<char>) -> Seq<char> {
    join(lines(content).map_values(|l: Seq<char>| key_unquoted(l)), "\n"@)
}

/// Turns the TOML text of a `.gdio` file into the text written to disk.
pub fn gdio_text_for_writing(content: &str) -> (r: String)
    requires
        no_bare_quote_header(content@),
    ensures
        r@ == gdio_for_writing(content@),
{
    let ls = lines_of(chars_of(content).as_slice());
    let mut out: Vec<Vec<char>> = Vec::new();
    let mut i: usize = 0;
    while i < ls.len()
        invariant
            i <= ls@.len(),
            views(ls@) == lines(content@),
            no_bare_quote_header(content@),
            views(out@) =~= views(ls@).take(i as int).map_values(|l: Seq<char>| key_unquoted(l)),
        decreases ls.len() - i,
    {
        let line = string_of_all(ls[i].as_slice());
        assert(line@ == lines(content@)[i as int]);
        let q = unquote_toml_key(line.as_str());
        let ghost before = out@;
        out.push(chars_of(q.as_str()));
        assert(views(out@) =~= views(before).push(q@));
        assert(views(ls@).take(i + 1) =~= views(ls@).take(i as int).push(ls@[i as int]@));
        i = i + 1;
    }
    assert(views(ls@).take(ls@.len() as int) =~= views(ls@));
    join_chars(&out, "\n")
}

/// The `.gitignore` line that ignores a linked addon folder.
pub open spec fn gitignore_entry(folder: Seq<char>) -> Seq<char> {
    "addons/"@ + folder + "/"@
}

/// Some line of `content`, trimmed, is `entry`.
pub open spec fn has_line(content: Seq<char>, entry: Seq<char>) -> bool {
    exists|i: int| 0 <= i < lines(content).len() && trim(#[trigger] lines(content)[i]) == entry
}

/// New `.gitignore` text with the addon folder ignored; `None` when it is
/// ignored already.
pub open spec fn gitignore_added(content: Seq<char>, folder: Seq<char>) -> Option<Seq<char>> {
    let e = gitignore_entry(folder);
    if has_line(content, e) {
        None
    } else if content.len() == 0 {
        Some(e + "\n"@)
    } else {
        Some(content + (if ends_with(content, "\n"@) { ""@ } else { "\n"@ }) + e + "\n"@)
    }
}

fn entry_of(folder_name: &str) -> (e: Vec<char>)
    ensures
        e@ == gitignore_entry(folder_name@),
{
    let mut s = String::from_str("addons/");
    push_str(&mut s, folder_name);
    push_str(&mut s, "/");
    chars_of(s.as_str())
}

/// The `.gitignore` text (empty when there is none) with `addons/<folder>/`
/// added, or `None` when it is there already.
pub fn gitignore_add(content: &str, folder_name: &str) -> (r: Option<String>)
    ensures
        match gitignore_added(content@, folder_name@) {
            Some(t) => r matches Some(s) && s@ == t,
            None => r is None,
        },
{
    let e = entry_of(folder_name);
    let c = chars_of(content);
    let ls = lines_of(c.as_slice());
    let mut i: usize = 0;
    while i < ls.len()
        invariant
            i <= ls@.len(),
            views(ls@) == lines(content@),
            e@ == gitignore_entry(folder_name@),
            forall|j: int| 0 <= j < i ==> trim(#[trigger] lines(content@)[j]) != e@,
        decreases ls.len() - i,
    {
        assert(ls@[i as int]@ == lines(content@)[i as int]);
        if crate::text::chars_eq(trimmed(ls[i].as_slice()).as_slice(), e.as_slice()) {
            assert(trim(lines(content@)[i as int]) == gitignore_entry(folder_name@));
            return None;
        }
        i = i + 1;
    }
    let mut r = String::from_str(content);
    if c.len() == 0 {
        let mut r = string_of_all(e.as_slice());
        push_str(&mut r, "\n");
        return Some(r);
    }
    if !has_suffix(c.as_slice(), chars_of("\n").as_slice()) {
        push_str(&mut r, "\n");
    } else {
        proof { reveal_strlit(""); }
        assert(r@ =~= content@ + ""@);
    }
    push_chars(&mut r, e.as_slice());
    push_str(&mut r, "\n");
    Some(r)
}

/// New `.gitignore` text with every line that is `addons/<folder>/` removed
/// (lines rejoined with `\n`, a final `\n` kept), or `None` when that leaves
/// the text's length in bytes (as `str::len` gives it) unchanged.
pub open spec fn gitignore_removed(content: Seq<char>, folder: Seq<char>) -> Option<Seq<char>> {
    let e = gitignore_entry(folder);
    let kept = join(lines(content).filter(|l: Seq<char>| trim(l) != e), "\n"@);
    if encode_utf8(kept).len() as usize != encode_utf8(content).len() as usize {
        Some(if kept.len() == 0 {
            Seq::empty()
        } else if ends_with(kept, "\n"@) {
            kept
        } else {
            kept + "\n"@
        })
    } else {
        None
    }
}

proof fn lemma_kept_step(ls: Seq<Seq<char>>, e: Seq<char>, i: int)
    requires
        0 <= i < ls.len(),
    ensures
        ls.take(i + 1).filter(|l: Seq<char>| trim(l) != e) == if trim(ls[i]) != e {
            ls.take(i).filter(|l: Seq<char>| trim(l) != e).push(ls[i])
        } else {
            ls.take(i).filter(|l: Seq<char>| trim(l) != e)
        },
{
    reveal(Seq::filter);
    assert(ls.take(i + 1).drop_last() == ls.take(i));
    assert(ls.take(i + 1).last() == ls[i]);
}

/// The `.gitignore` text with `addons/<folder>/` lines removed, or `None`
/// when nothing changes.
pub fn gitignore_remove(content: &str, folder_name: &str) -> (r: Option<String>)
    ensures
        match gitignore_removed(content@, folder_name@) {
            Some(t) => r matches Some(s) && s@ == t,
            None => r is None,
        },
{
    let e = entry_of(folder_name);
    let ls = lines_of(chars_of(content).as_slice());
    let ghost vs = views(ls@);
    let mut kept: Vec<Vec<char>> = Vec::new();
    let mut i: usize = 0;
    proof { reveal(Seq::filter); }
    assert(vs.take(0) =~= Seq::<Seq<char>>::empty());
    while i < ls.len()
        invariant
            i <= ls@.len(),
            vs == views(ls@),
            vs == lines(content@),
            e@ == gitignore_entry(folder_name@),
            views(kept@) == vs.take(i as int).filter(|l: Seq<char>| trim(l) != gitignore_entry(folder_name@)),
        decreases ls.len() - i,
    {
        proof { lemma_kept_step(vs, gitignore_entry(folder_name@), i as int); }
        assert(vs[i as int] == ls@[i as int]@);
        let t = trimmed(ls[i].as_slice());
        if !crate::text::chars_eq(t.as_slice(), e.as_slice()) {
            let ghost before = kept@;
            kept.push(slice_to_vec(ls[i].as_slice()));
            assert(views(kept@) =~= views(before).push(vs[i as int]));
        }
        i = i + 1;
    }
    assert(vs.take(vs.len() as int) == vs);
    assert(views(kept@) == lines(content@).filter(|l: Seq<char>| trim(l) != gitignore_entry(folder_name@)));
    let joined = join_chars(&kept, "\n");
    assert(joined@ == join(lines(content@).filter(|l: Seq<char>| trim(l) != gitignore_entry(folder_name@)), "\n"@));
    if joined.as_str().len() != content.len() {
        if joined.as_str().is_empty() {
            Some(String::new())
        } else if has_suffix(chars_of(joined.as_str()).as_slice(), chars_of("\n").as_slice()) {
            Some(joined)
        } else {
            let mut j = joined;
            push_str(&mut j, "\n");
            Some(j)
        }
    } else {
        None
    }
}

/// Records the linked addon in a project's `.gdio` entries and gives the
/// project's new `.gitignore` text (from `gitignore`, empty when there is
/// none), or `None` when it ignores the addon folder already.
pub fn add_linked(gdio: &mut GdioProject, gitignore: &str, identifier: &str, version: &str,
    repository: &str, folder_name: &str) -> (r: Option<String>)
    ensures
        final(gdio).addons@.contains_key(identifier@),
        final(gdio).addons@[identifier@].version@ == version@,
        final(gdio).addons@[identifier@].repository@ == repository@,
        final(gdio).addons@ == old(gdio).addons@.insert(identifier@, final(gdio).addons@[identifier@]),
        match gitignore_added(gitignore@, folder_name@) {
            Some(t) => r matches Some(s) && s@ == t,
            None => r is None,
        },
{
    gdio.addons.insert(String::from_str(identifier), GdioAddonEntry {
        version: String::from_str(version),
        repository: String::from_str(repository),
    });
    gitignore_add(gitignore, folder_name)
}

/// Drops the linked addon from a project's `.gdio` entries and gives the
/// project's new `.gitignore` text (`None` when there is no `.gitignore` or
/// nothing changes in it).
pub fn remove_linked(gdio: &mut GdioProject, gitignore: Option<&str>, identifier: &str, folder_name: &str) -> (r: Option<String>)
    ensures
        final(gdio).addons@ == old(gdio).addons@.remove(identifier@),
        match gitignore {
            Some(c) => match gitignore_removed(c@, folder_name@) {
                Some(t) => r matches Some(s) && s@ == t,
                None => r is None,
            },
            None => r is None,
        },
{
    gdio.addons.remove(identifier);
    match gitignore {
        Some(c) => gitignore_remove(c, folder_name),
        None => None,
    }
}

/// An archive entry's path without one trailing `/`.
pub open spec fn entry_name(e: Seq<char>) -> Seq<char> {
    strip_suffix_or_self(e, "/"@)
}

/// The first `/`-separated component of an archive entry's path.
pub open spec fn first_component(e: Seq<char>) -> Seq<char> {
    split(entry_name(e), '/')[0]
}

/// `c` is the single top-level directory of the archive entries `es`: every
/// non-empty first component is `c`, some entry lies below it, and it is not
/// `addons` (whose `addons/X/` layout is kept).
pub open spec fn is_toplevel_dir(es: Seq<Seq<char>>, c: Seq<char>) -> bool {
    &&& c.len() > 0
    &&& c != "addons"@
    &&& exists|i: int| 0 <= i < es.len() && first_component(#[trigger] es[i]) == c
    &&& forall|i: int| 0 <= i < es.len() && first_component(#[trigger] es[i]).len() > 0
            ==> first_component(es[i]) == c
    &&& exists|i: int| 0 <= i < es.len() && starts_with(entry_name(#[trigger] es[i]), c + "/"@)
            && entry_name(es[i]) != c
}

fn first_component_of(e: &str) -> (r: Vec<char>)
    ensures
        r@ == first_component(e@),
{
    let n = crate::text::strip_suffix_or_keep(chars_of(e).as_slice(), chars_of("/").as_slice());
    let parts = split_chars(n.as_slice(), '/');
    assert(views(parts@)[0] == parts@[0]@);
    slice_to_vec(parts[0].as_slice())
}

/// The single top-level directory shared by all archive entries (as `dir/`),
/// which extraction strips; `None` when there is none to strip.
pub fn detect_toplevel_prefix(entries: &[String]) -> (r: Option<String>)
    ensures
        r matches Some(p) ==> p@.len() > 0 && p@.last() == '/' && is_toplevel_dir(string_views(entries@), p@.drop_last()),
        r is None ==> forall|c: Seq<char>| !#[trigger] is_toplevel_dir(string_views(entries@), c),
{
    let ghost es = string_views(entries@);
    let mut cand: Option<Vec<char>> = None;
    let ghost mut at: int = 0;
    let mut i: usize = 0;
    while i < entries.len()
        invariant
            i <= entries@.len(),
            es == string_views(entries@),
            es.len() == entries@.len(),
            match cand {
                Some(c) => {
                    &&& 0 <= at < i
                    &&& c@.len() > 0
                    &&& first_component(es[at]) == c@
                    &&& forall|j: int| 0 <= j < i && first_component(#[trigger] es[j]).len() > 0
                            ==> first_component(es[j]) == c@
                },
                None => forall|j: int| 0 <= j < i ==> first_component(#[trigger] es[j]).len() == 0,
            },
        decreases entries.len() - i,
    {
        assert(es[i as int] == entries@[i as int]@);
        let fc = first_component_of(entries[i].as_str());
        if fc.len() > 0 {
            match &cand {
                Some(c) => {
                    if !chars_eq(fc.as_slice(), c.as_slice()) {
                        assert forall|c2: Seq<char>| !#[trigger] is_toplevel_dir(es, c2) by {
                            if is_toplevel_dir(es, c2) {
                                assert(first_component(es[at]).len() > 0);
                                assert(first_component(es[i as int]).len() > 0);
                            }
                        }
                        return None;
                    }
                },
                None => {
                    cand = Some(fc);
                    proof { at = i as int; }
                },
            }
        }
        i = i + 1;
    }
    let c = match cand {
        Some(c) => c,
        None => {
            assert forall|c2: Seq<char>| !#[trigger] is_toplevel_dir(es, c2) by {
                if is_toplevel_dir(es, c2) {
                    let w = choose|k: int| 0 <= k < es.len() && first_component(#[trigger] es[k]) == c2;
                    assert(first_component(es[w]).len() == 0);
                }
            }
            return None;
        },
    };
    let mut with_slash = slice_to_vec(c.as_slice());
    with_slash.push('/');
    assert(with_slash@ == c@ + "/"@) by {
        reveal_strlit("/");
        assert(with_slash@ =~= c@ + "/"@);
    }
    let mut k: usize = 0;
    let mut found = false;
    while k < entries.len()
        invariant
            k <= entries@.len(),
            es == string_views(entries@),
            es.len() == entries@.len(),
            with_slash@ == c@ + "/"@,
            !found ==> forall|j: int| 0 <= j < k ==> !(starts_with(entry_name(#[trigger] es[j]), c@ + "/"@)
                && entry_name(es[j]) != c@),
            found ==> exists|j: int| 0 <= j < es.len() && starts_with(entry_name(#[trigger] es[j]), c@ + "/"@)
                && entry_name(es[j]) != c@,
        decreases entries.len() - k,
    {
        assert(es[k as int] == entries@[k as int]@);
        let n = crate::text::strip_suffix_or_keep(chars_of(entries[k].as_str()).as_slice(), chars_of("/").as_slice());
        if has_prefix(n.as_slice(), with_slash.as_slice()) && !chars_eq(n.as_slice(), c.as_slice()) {
            assert(starts_with(entry_name(es[k as int]), c@ + "/"@) && entry_name(es[k as int]) != c@);
            found = true;
        }
        k = k + 1;
    }
    if !found || chars_eq(c.as_slice(), chars_of("addons").as_slice()) {
        assert forall|c2: Seq<char>| !#[trigger] is_toplevel_dir(es, c2) by {
            if is_toplevel_dir(es, c2) {
                assert(first_component(es[at]).len() > 0);
                assert(c2 == c@);
            }
        }
        return None;
    }
    assert(with_slash@.drop_last() =~= c@);
    assert(is_toplevel_dir(es, c@));
    Some(string_of_all(with_slash.as_slice()))
}

/// Where an archive entry of an addon goes, relative to the destination:
/// the top-level `prefix` stripped (the prefix's own entry skipped) and, when
/// `strip_addons`, a leading `addons/` stripped (a bare `addons` entry
/// skipped); `None` for entries that are skipped or leave an empty path.
pub open spec fn addon_entry_target(raw: Seq<char>, prefix: Option<Seq<char>>, strip_addons: bool) -> Option<Seq<char>> {
    let rel = match prefix {
        Some(p) => {
            let base = trim_end_char(p, '/');
            if raw == p || raw == base || raw == base + "/"@ {
                None
            } else {
                Some(strip_prefix_or_self(raw, p))
            }
        },
        None => Some(raw),
    };
    match rel {
        None => None,
        Some(rel) => if rel.len() == 0 {
            None
        } else {
            let fin = if strip_addons {
                if starts_with(rel, "addons/"@) {
                    Some(rel.skip(7))
                } else if rel == "addons"@ || rel == "addons/"@ {
                    None
                } else {
                    Some(rel)
                }
            } else {
                Some(rel)
            };
            match fin {
                Some(f) => if f.len() == 0 { None } else { Some(f) },
                None => None,
            }
        },
    }
}

/// The relative path an addon archive entry is extracted to, or `None` when
/// it is skipped.
pub fn addon_entry_path(raw: &str, prefix: Option<&str>, strip_addons_prefix: bool) -> (r: Option<String>)
    ensures
        match addon_entry_target(raw@, match prefix { Some(p) => Some(p@), None => None }, strip_addons_prefix) {
            Some(t) => r matches Some(s) && s@ == t,
            None => r is None,
        },
{
    let rc = chars_of(raw);
    let rel: Vec<char> = match prefix {
        Some(p) => {
            let pc = chars_of(p);
            let base = trim_end_matching(pc.as_slice(), '/');
            let mut base_slash = slice_to_vec(base.as_slice());
            base_slash.push('/');
            assert(base_slash@ =~= base@ + "/"@) by { reveal_strlit("/"); }
            if chars_eq(rc.as_slice(), pc.as_slice()) || chars_eq(rc.as_slice(), base.as_slice())
                || chars_eq(rc.as_slice(), base_slash.as_slice()) {
                return None;
            }
            strip_prefix_or_keep(rc.as_slice(), pc.as_slice())
        },
        None => rc,
    };
    if rel.len() == 0 {
        return None;
    }
    let fin: Vec<char> = if strip_addons_prefix {
        let addons_slash = chars_of("addons/");
        proof { reveal_strlit("addons/"); }
        if has_prefix(rel.as_slice(), addons_slash.as_slice()) {
            let n = rel.len();
            slice_to_vec(&rel.as_slice()[7..n])
        } else if chars_eq(rel.as_slice(), chars_of("addons").as_slice()) || chars_eq(rel.as_slice(), addons_slash.as_slice()) {
            return None;
        } else {
            rel
        }
    } else {
        rel
    };
    if fin.len() == 0 {
        return None;
    }
    Some(string_of_all(fin.as_slice()))
}

/// Addon folder named by a directory entry's target path: its first
/// component, past `addons/` (or `addons`) unless that prefix was stripped
/// already; `None` when that is empty.
pub open spec fn folder_from_dir(target: Seq<char>, strip_addons: bool) -> Option<Seq<char>> {
    let folder = trim_end_char(target, '/');
    let comp = if !strip_addons {
        if starts_with(folder, "addons/"@) {
            folder.skip(7)
        } else if starts_with(folder, "addons"@) {
            folder.skip(6)
        } else {
            folder
        }
    } else {
        folder
    };
    let first = split(comp, '/')[0];
    if first.len() > 0 { Some(first) } else { None }
}

/// The addon folder a directory entry names, if any.
pub fn addon_folder_from_dir(target: &str, strip_addons_prefix: bool) -> (r: Option<String>)
    ensures
        match folder_from_dir(target@, strip_addons_prefix) {
            Some(f) => r matches Some(s) && s@ == f,
            None => r is None,
        },
{
    let folder = trim_end_matching(chars_of(target).as_slice(), '/');
    let n = folder.len();
    let comp: Vec<char> = if !strip_addons_prefix {
        proof {
            reveal_strlit("addons/");
            reveal_strlit("addons");
        }
        if has_prefix(folder.as_slice(), chars_of("addons/").as_slice()) {
            slice_to_vec(&folder.as_slice()[7..n])
        } else if has_prefix(folder.as_slice(), chars_of("addons").as_slice()) {
            slice_to_vec(&folder.as_slice()[6..n])
        } else {
            folder
        }
    } else {
        folder
    };
    let parts = split_chars(comp.as_slice(), '/');
    assert(views(parts@)[0] == parts@[0]@);
    if parts[0].len() > 0 {
        Some(string_of_all(parts[0].as_slice()))
    } else {
        None
    }
}

/// Addon folder named by a file entry's target path: the folder its
/// directory names, where it lies in one.
pub open spec fn folder_from_file(target: Seq<char>, strip_addons: bool) -> Option<Seq<char>> {
    match rfind_char(target, '/') {
        Some(i) => folder_from_dir(target.take(i), strip_addons),
        None => None,
    }
}

/// The addon folder a file entry lies in, if any.
pub fn addon_folder_from_file(target: &str, strip_addons_prefix: bool) -> (r: Option<String>)
    ensures
        match folder_from_file(target@, strip_addons_prefix) {
            Some(f) => r matches Some(s) && s@ == f,
            None => r is None,
        },
{
    let t = chars_of(target);
    match rfind_char_in(t.as_slice(), '/') {
        Some(i) => {
            let dir = string_of(t.as_slice(), 0, i);
            assert(t@.take(i as int) == t@.subrange(0, i as int));
            addon_folder_from_dir(dir.as_str(), strip_addons_prefix)
        },
        None => None,
    }
}

/// The extracted entries (target path, is a directory) that are
/// directories naming an addon folder.
pub open spec fn dir_names_folder(es: Seq<(String, bool)>, strip_addons: bool) -> spec_fn(int) -> bool {
    |i: int| es[i].1 && folder_from_dir(es[i].0@, strip_addons) is Some
}

/// The extracted entries that are files lying in an addon folder.
pub open spec fn file_names_folder(es: Seq<(String, bool)>, strip_addons: bool) -> spec_fn(int) -> bool {
    |i: int| !es[i].1 && folder_from_file(es[i].0@, strip_addons) is Some
}

/// The folder of an extracted addon: the one named by the first directory
/// entry that names one; for an archive listing no such directory, the one
/// the first file lies in.
pub open spec fn extracted_folder(es: Seq<(String, bool)>, strip_addons: bool) -> Option<Seq<char>> {
    match first_where(es.len() as int, dir_names_folder(es, strip_addons)) {
        Some(i) => folder_from_dir(es[i].0@, strip_addons),
        None => match first_where(es.len() as int, file_names_folder(es, strip_addons)) {
            Some(i) => folder_from_file(es[i].0@, strip_addons),
            None => None,
        },
    }
}

/// The folder of an addon extracted to the entries `entries` (target path
/// and whether it is a directory, in the archive's order).
pub fn addon_folder_of(entries: &[(String, bool)], strip_addons_prefix: bool) -> (r: Option<String>)
    ensures
        match extracted_folder(entries@, strip_addons_prefix) {
            Some(f) => r matches Some(s) && s@ == f,
            None => r is None,
        },
{
    let ghost dp = dir_names_folder(entries@, strip_addons_prefix);
    let ghost fp = file_names_folder(entries@, strip_addons_prefix);
    let mut i: usize = 0;
    while i < entries.len()
        invariant
            i <= entries@.len(),
            dp == dir_names_folder(entries@, strip_addons_prefix),
            forall|j: int| 0 <= j < i ==> !#[trigger] dp(j),
        decreases entries.len() - i,
    {
        if entries[i].1 {
            match addon_folder_from_dir(entries[i].0.as_str(), strip_addons_prefix) {
                Some(f) => {
                    proof { lemma_first_where_is(entries@.len() as int, dp, i as int); }
                    return Some(f);
                },
                None => {},
            }
        }
        i = i + 1;
    }
    proof { lemma_first_where_none(entries@.len() as int, dp); }
    let mut k: usize = 0;
    while k < entries.len()
        invariant
            k <= entries@.len(),
            fp == file_names_folder(entries@, strip_addons_prefix),
            first_where(entries@.len() as int, dir_names_folder(entries@, strip_addons_prefix)) is None,
            forall|j: int| 0 <= j < k ==> !#[trigger] fp(j),
        decreases entries.len() - k,
    {
        if !entries[k].1 {
            match addon_folder_from_file(entries[k].0.as_str(), strip_addons_prefix) {
                Some(f) => {
                    proof { lemma_first_where_is(entries@.len() as int, fp, k as int); }
                    return Some(f);
                },
                None => {},
            }
        }
        k = k + 1;
    }
    proof { lemma_first_where_none(entries@.len() as int, fp); }
    None
}

fn last_segment_chars(id: &[char]) -> (r: Vec<char>)
    ensures
        r@ == last_segment(id@),
{
    match rfind_char_in(id, '/') {
        Some(i) => {
            let n = id.len();
            let s = slice_to_vec(&id[i + 1..n]);
            assert(s@ == id@.skip(i + 1));
            s
        },
        None => slice_to_vec(id),
    }
}

/// The identifier a plain folder name given to `gdio addons remove` stands
/// for: one tracked in the project's `.gdio` whose last segment is the
/// folder, else a linked addon installed under that folder.
pub fn identifier_for_folder(gdio: &GdioProject, config: &Config, folder: &str) -> (r: Option<String>)
    ensures
        r matches Some(id) ==> (gdio.addons@.contains_key(id@) && last_segment(id@) == folder@)
            || (config.addons.linked@.contains_key(id@) && config.addons.linked@[id@].folder_name@ == folder@),
        r is None ==> (forall|k: Seq<char>| #[trigger] gdio.addons@.contains_key(k) ==> last_segment(k) != folder@)
            && (forall|k: Seq<char>| #[trigger] config.addons.linked@.contains_key(k) ==> config.addons.linked@[k].folder_name@ != folder@),
        (exists|k: Seq<char>| #[trigger] gdio.addons@.contains_key(k) && last_segment(k) == folder@) ==>
            (r matches Some(id) && gdio.addons@.contains_key(id@) && last_segment(id@) == folder@),
{
    let f = chars_of(folder);
    let entries = gdio.addons.entries();
    let mut i: usize = 0;
    while i < entries.len()
        invariant
            i <= entries@.len(),
            f@ == folder@,
            forall|j: int| 0 <= j < entries@.len() ==> gdio.addons@.contains_key(#[trigger] entries@[j].0@),
            forall|k: Seq<char>| #[trigger] gdio.addons@.contains_key(k) ==>
                exists|j: int| 0 <= j < entries@.len() && (#[trigger] entries@[j]).0@ == k,
            forall|j: int| 0 <= j < i ==> last_segment((#[trigger] entries@[j]).0@) != folder@,
        decreases entries.len() - i,
    {
        let seg = last_segment_chars(chars_of(entries[i].0.as_str()).as_slice());
        if chars_eq(seg.as_slice(), f.as_slice()) {
            return Some(entries[i].0.clone());
        }
        i = i + 1;
    }
    assert forall|k: Seq<char>| #[trigger] gdio.addons@.contains_key(k) implies last_segment(k) != folder@ by {
        let j = choose|j: int| 0 <= j < entries@.len() && (#[trigger] entries@[j]).0@ == k;
    }
    let linked = config.addons.linked.entries();
    let mut m: usize = 0;
    while m < linked.len()
        invariant
            m <= linked@.len(),
            f@ == folder@,
            forall|j: int| 0 <= j < linked@.len() ==>
                config.addons.linked@.contains_key(#[trigger] linked@[j].0@) && config.addons.linked@[linked@[j].0@] == linked@[j].1,
            forall|k: Seq<char>| #[trigger] config.addons.linked@.contains_key(k) ==>
                exists|j: int| 0 <= j < linked@.len() && (#[trigger] linked@[j]).0@ == k,
            forall|j: int| 0 <= j < m ==> (#[trigger] linked@[j]).1.folder_name@ != folder@,
            forall|k: Seq<char>| #[trigger] gdio.addons@.contains_key(k) ==> last_segment(k) != folder@,
        decreases linked.len() - m,
    {
        if chars_eq(chars_of(linked[m].1.folder_name.as_str()).as_slice(), f.as_slice()) {
            return Some(linked[m].0.clone());
        }
        m = m + 1;
    }
    assert forall|k: Seq<char>| #[trigger] config.addons.linked@.contains_key(k) implies config.addons.linked@[k].folder_name@ != folder@ by {
        let j = choose|j: int| 0 <= j < linked@.len() && (#[trigger] linked@[j]).0@ == k;
        assert(config.addons.linked@[linked@[j].0@] == linked@[j].1);
    }
    None
}

} // verus!
