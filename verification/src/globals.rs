//! Global addons (`gdio addons globals`): the listing, registering and
//! unregistering an addon, and reading an addon's version from its
//! `plugin.cfg`.
use vstd::prelude::*;
use crate::text::{
    chars_of, string_of_all, first_where, has_prefix, lemma_first_where_is, lemma_first_where_none, lines, lines_of, push_padded,
    push_str, starts_with, trim, trim_char, trim_matching, trimmed, views, pad_right,
};
use crate::numparse::{decimal, push_decimal};
use crate::config::{same_outside_addons, Config, GlobalAddonEntry};
use crate::addons::{identifier_parts, split_identifier};
use crate::exclude::version_or_latest;
use crate::text::ascii_lower;

verus! {

/// Number of projects excluded from the global addon `identifier`.
pub open spec fn excluded_count(c: Config, identifier: Seq<char>) -> nat {
    if c.addons.globals_exclusions@.contains_key(identifier) {
        c.addons.globals_exclusions@[identifier]@.len()
    } else {
        0
    }
}

/// A line of the listing of global addons:
/// `  <identifier padded to 30> v<version padded to 10> <folder>`, followed
/// by ` (<n> excluded)` when projects are excluded.
pub open spec fn global_line(c: Config, identifier: Seq<char>, e: GlobalAddonEntry) -> Seq<char> {
    "  "@ + pad_right(identifier, 30) + " v"@ + pad_right(version_or_latest(e.version), 10) + " "@ + e.folder_name@
        + (if excluded_count(c, identifier) > 0 { " ("@ + decimal(excluded_count(c, identifier)) + " excluded)"@ } else { ""@ })
}

/// The listing of global addons, in the registry's order.
pub fn global_listing(config: &Config) -> (v: Vec<String>)
    ensures
        v@.len() == config.addons.globals.entry_seq().len(),
        forall|i: int| 0 <= i < v@.len() ==> #[trigger] v@[i]@ == global_line(*config,
            config.addons.globals.entry_seq()[i].0@, config.addons.globals.entry_seq()[i].1),
{
    let entries = config.addons.globals.entries();
    let mut v: Vec<String> = Vec::new();
    let mut i: usize = 0;
    while i < entries.len()
        invariant
            i <= entries@.len(),
            entries@ == config.addons.globals.entry_seq(),
            v@.len() == i,
            forall|j: int| 0 <= j < i ==> #[trigger] v@[j]@ == global_line(*config, entries@[j].0@, entries@[j].1),
        decreases entries.len() - i,
    {
        let (ident, info) = &entries[i];
        let mut line = String::from_str("  ");
        push_padded(&mut line, ident.as_str(), 30);
        push_str(&mut line, " v");
        match &info.version {
            Some(ver) => push_padded(&mut line, ver.as_str(), 10),
            None => {
                proof { reveal_strlit("latest"); }
                push_padded(&mut line, "latest", 10);
            },
        }
        push_str(&mut line, " ");
        push_str(&mut line, info.folder_name.as_str());
        let count: usize = match config.addons.globals_exclusions.get(ident.as_str()) {
            Some(list) => list.len(),
            None => 0,
        };
        if count > 0 {
            push_str(&mut line, " (");
            push_decimal(&mut line, count as u64);
            push_str(&mut line, " excluded)");
        } else {
            proof { reveal_strlit(""); }
            assert(line@ + ""@ =~= line@);
        }
        v.push(line);
        i = i + 1;
    }
    v
}

/// The menu of global addons to stop syncing: `<identifier> v<version>`.
pub fn global_remove_menu(config: &Config) -> (v: Vec<String>)
    ensures
        v@.len() == config.addons.globals.entry_seq().len(),
        forall|i: int| 0 <= i < v@.len() ==> #[trigger] v@[i]@ == config.addons.globals.entry_seq()[i].0@ + " v"@
            + version_or_latest(config.addons.globals.entry_seq()[i].1.version),
{
    let entries = config.addons.globals.entries();
    let mut v: Vec<String> = Vec::new();
    let mut i: usize = 0;
    while i < entries.len()
        invariant
            i <= entries@.len(),
            entries@ == config.addons.globals.entry_seq(),
            v@.len() == i,
            forall|j: int| 0 <= j < i ==> #[trigger] v@[j]@ == entries@[j].0@ + " v"@ + version_or_latest(entries@[j].1.version),
        decreases entries.len() - i,
    {
        let (ident, info) = &entries[i];
        let mut line = ident.clone();
        push_str(&mut line, " v");
        match &info.version {
            Some(ver) => push_str(&mut line, ver.as_str()),
            None => push_str(&mut line, "latest"),
        }
        v.push(line);
        i = i + 1;
    }
    v
}

/// Stops syncing the global addon `identifier`; `false` (and nothing
/// changed) when it is not a global addon.
pub fn remove_global(config: &mut Config, identifier: &str) -> (removed: bool)
    ensures
        removed == old(config).addons.globals@.contains_key(identifier@),
        final(config).addons.globals@ == old(config).addons.globals@.remove(identifier@),
        final(config).addons.globals_exclusions@ == old(config).addons.globals_exclusions@,
        final(config).addons.linked@ == old(config).addons.linked@,
        final(config).editors@ == old(config).editors@,
        final(config).projects@ == old(config).projects@,
        same_outside_addons(*final(config), *old(config)),
        final(config).addons.repositories == old(config).addons.repositories,
        final(config).addons.linked == old(config).addons.linked,
        final(config).addons.globals_exclusions == old(config).addons.globals_exclusions,
        final(config).addons.sync_count == old(config).addons.sync_count,
{
    config.addons.globals.remove(identifier).is_some()
}

/// A line of `plugin.cfg` that sets the version.
pub open spec fn is_version_line(l: Seq<char>) -> bool {
    starts_with(trim(l), "version="@)
}

/// Index of the first line setting the version.
pub open spec fn version_line_index(ls: Seq<Seq<char>>) -> Option<int> {
    first_where(ls.len() as int, |i: int| is_version_line(ls[i]))
}

/// The version set by the first `version=` line of a `plugin.cfg`, without
/// surrounding quotes.
pub open spec fn plugin_version(content: Seq<char>) -> Option<Seq<char>> {
    match version_line_index(lines(content)) {
        Some(i) => Some(trim_char(trim(lines(content)[i]).skip(8), '"')),
        None => None,
    }
}

/// Reads the version from the text of a `plugin.cfg`.
pub fn parse_plugin_version(content: &str) -> (r: Option<String>)
    ensures
        match plugin_version(content@) {
            Some(v) => r matches Some(s) && s@ == v,
            None => r is None,
        },
{
    let ls = lines_of(chars_of(content).as_slice());
    let ghost lv = views(ls@);
    let ghost pred = |i: int| is_version_line(lv[i]);
    let prefix = chars_of("version=");
    proof { reveal_strlit("version="); }
    let mut i: usize = 0;
    while i < ls.len()
        invariant
            i <= ls@.len(),
            lv == views(ls@),
            lv == lines(content@),
            prefix@ == "version="@,
            pred == (|i: int| is_version_line(lv[i])),
            forall|j: int| 0 <= j < i ==> !#[trigger] pred(j),
        decreases ls.len() - i,
    {
        assert(lv[i as int] == ls@[i as int]@);
        let t = trimmed(ls[i].as_slice());
        if has_prefix(t.as_slice(), prefix.as_slice()) {
            proof {
                lemma_first_where_is(lv.len() as int, pred, i as int);
                reveal_strlit("version=");
            }
            assert(t@.len() >= 8);
            let n = t.len();
            let v = trim_matching(&t.as_slice()[8..n], '"');
            assert(t@.subrange(8, n as int) == t@.skip(8));
            return Some(string_of_all(v.as_slice()));
        }
        i = i + 1;
    }
    proof { lemma_first_where_none(lv.len() as int, pred); }
    None
}

/// Why an addon cannot be registered as a global addon.
#[derive(Debug, PartialEq, Eq, Structural)]
pub enum GlobalAddError {
    /// It already is one (nothing to do).
    AlreadyGlobal,
    /// The identifier has no `/`.
    InvalidIdentifier,
    /// A version was to be picked, and no repository has a release.
    NoReleases,
    /// No repository has a release, and no folder and version are known.
    NotOnStore,
}

/// Folder first known for an addon: from the project's `addons/`, from
/// the linked addons, or from the global store.
pub open spec fn known_folder(c: Config, identifier: Seq<char>, local: Option<(String, String, String)>, store_folder: Option<String>) -> Option<Seq<char>> {
    match local {
        Some(l) => Some(l.0@),
        None => if c.addons.linked@.contains_key(identifier) {
            Some(c.addons.linked@[identifier].folder_name@)
        } else {
            match store_folder {
                Some(f) => Some(f@),
                None => None,
            }
        },
    }
}

/// Version first known for an addon (empty when none).
pub open spec fn known_version(c: Config, identifier: Seq<char>, local: Option<(String, String, String)>) -> Seq<char> {
    match local {
        Some(l) => l.1@,
        None => if c.addons.linked@.contains_key(identifier) { c.addons.linked@[identifier].version@ } else { Seq::empty() },
    }
}

/// The global addon entry registered for `identifier`, or why none is:
/// `local` is (folder, version, repository) of the addon found in the
/// current project, `store_folder` its folder found in the global store,
/// `chosen` the (repository URL, version) of the release picked (the first
/// release of all repositories, or the one selected by the user).
pub open spec fn global_plan(c: Config, identifier: Seq<char>, local: Option<(String, String, String)>,
    store_folder: Option<String>, chosen: Option<(String, String)>, select: bool)
    -> Result<(Option<Seq<char>>, Seq<char>, Seq<char>), GlobalAddError> {
    if c.addons.globals@.contains_key(identifier) {
        Err(GlobalAddError::AlreadyGlobal)
    } else {
        match identifier_parts(identifier) {
            None => Err(GlobalAddError::InvalidIdentifier),
            Some((_p, asset)) => {
                let folder = known_folder(c, identifier, local, store_folder);
                let version = known_version(c, identifier, local);
                match chosen {
                    None => if select {
                        Err(GlobalAddError::NoReleases)
                    } else if folder is None || version.len() == 0 {
                        Err(GlobalAddError::NotOnStore)
                    } else {
                        let repo = match local { Some(l) => l.2@, None => Seq::empty() };
                        Ok((None, folder->0, repo))
                    },
                    Some((url, ver)) => {
                        let f = match folder { Some(f) => f, None => asset };
                        Ok((if select { Some(ver@) } else { None }, f, url@))
                    },
                }
            },
        }
    }
}

/// The entry `gdio addons globals <identifier>` registers (see `global_plan`).
pub fn plan_global_addon(config: &Config, identifier: &str, local: Option<(String, String, String)>,
    store_folder: Option<String>, chosen: Option<(String, String)>, select: bool, linked: bool)
    -> (r: Result<GlobalAddonEntry, GlobalAddError>)
    ensures
        match global_plan(*config, identifier@, local, store_folder, chosen, select) {
            Ok((v, f, repo)) => r matches Ok(e) && e.folder_name@ == f && e.repository@ == repo && e.linked == linked
                && (match v { Some(x) => e.version matches Some(y) && y@ == x, None => e.version is None }),
            Err(err) => r == Err::<GlobalAddonEntry, GlobalAddError>(err),
        },
{
    if config.addons.globals.contains_key(identifier) {
        return Err(GlobalAddError::AlreadyGlobal);
    }
    let asset = match split_identifier(identifier) {
        Some((_p, a)) => a,
        None => {
            return Err(GlobalAddError::InvalidIdentifier);
        },
    };
    let (folder, version, repository): (Option<String>, String, String) = match local {
        Some((f, v, repo)) => (Some(f), v, repo),
        None => match config.addons.linked.get(identifier) {
            Some(info) => (Some(info.folder_name.clone()), info.version.clone(), String::new()),
            None => (store_folder, String::new(), String::new()),
        },
    };
    match chosen {
        None => {
            if select {
                Err(GlobalAddError::NoReleases)
            } else {
                match folder {
                    Some(f) => {
                        if chars_of(version.as_str()).len() == 0 {
                            Err(GlobalAddError::NotOnStore)
                        } else {
                            Ok(GlobalAddonEntry { version: None, folder_name: f, repository, linked })
                        }
                    },
                    None => Err(GlobalAddError::NotOnStore),
                }
            }
        },
        Some((url, ver)) => {
            let folder_name = match folder {
                Some(f) => f,
                None => asset,
            };
            Ok(GlobalAddonEntry { version: if select { Some(ver) } else { None }, folder_name, repository: url, linked })
        },
    }
}

/// `a` and `b` are equal but for the case of ASCII letters.
pub open spec fn eq_ignore_ascii_case(a: Seq<char>, b: Seq<char>) -> bool {
    a.len() == b.len() && forall|i: int| 0 <= i < a.len() ==> ascii_lower(#[trigger] a[i]) == ascii_lower(b[i])
}

/// A `plugin.cfg` line naming the plugin `asset` (case of ASCII letters
/// aside): `name=` followed by the name, quotes around it ignored.
pub open spec fn names_plugin(l: Seq<char>, asset: Seq<char>) -> bool {
    let t = trim(l);
    starts_with(t, "name="@) && eq_ignore_ascii_case(trim_char(t.skip(5), '"'), asset)
}

fn lower(c: char) -> (d: char)
    ensures
        d == ascii_lower(c),
{
    if 'A' <= c && c <= 'Z' {
        assert(((c as u32) + 32) < 128);
        ((c as u32) + 32) as u8 as char
    } else {
        c
    }
}

fn same_ignoring_case(a: &[char], b: &[char]) -> (r: bool)
    ensures
        r == eq_ignore_ascii_case(a@, b@),
{
    if a.len() != b.len() {
        return false;
    }
    let mut i: usize = 0;
    while i < a.len()
        invariant
            i <= a@.len(),
            a@.len() == b@.len(),
            forall|j: int| 0 <= j < i ==> ascii_lower(#[trigger] a@[j]) == ascii_lower(b@[j]),
        decreases a.len() - i,
    {
        if lower(a[i]) != lower(b[i]) {
            return false;
        }
        i = i + 1;
    }
    true
}

/// Whether a `plugin.cfg` text names the plugin `asset` on some line (how
/// an addon installed by hand is recognised).
pub fn plugin_names(content: &str, asset: &str) -> (b: bool)
    ensures
        b == exists|i: int| 0 <= i < lines(content@).len() && names_plugin(#[trigger] lines(content@)[i], asset@),
{
    let ls = lines_of(chars_of(content).as_slice());
    let a = chars_of(asset);
    let prefix = chars_of("name=");
    let mut i: usize = 0;
    while i < ls.len()
        invariant
            i <= ls@.len(),
            views(ls@) == lines(content@),
            a@ == asset@,
            prefix@ == "name="@,
            forall|j: int| 0 <= j < i ==> !names_plugin(#[trigger] lines(content@)[j], asset@),
        decreases ls.len() - i,
    {
        assert(views(ls@)[i as int] == ls@[i as int]@);
        let t = trimmed(ls[i].as_slice());
        if has_prefix(t.as_slice(), prefix.as_slice()) {
            proof { reveal_strlit("name="); }
            assert(t@.len() >= 5);
            let n = t.len();
            let v = trim_matching(&t.as_slice()[5..n], '"');
            assert(t@.subrange(5, n as int) == t@.skip(5));
            if same_ignoring_case(v.as_slice(), a.as_slice()) {
                return true;
            }
        }
        i = i + 1;
    }
    false
}

} // verus!
