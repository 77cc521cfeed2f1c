//! Opting a project out of a global addon (`gdio addons exclude`) and back
//! in (`--revert`).
use vstd::prelude::*;
use crate::text::{chars_of, chars_eq, push_str};
use crate::config::GlobalAddonEntry;
use crate::platform::string_views;
use crate::config::{same_outside_addons, Config};
use crate::addons::{store_dir, store_dir_name};
use crate::sync::{excluded, is_excluded};

verus! {

/// The exclusion lists of the registry, by addon identifier.
pub open spec fn exclusion_views(c: Config) -> Map<Seq<char>, Seq<Seq<char>>> {
    c.addons.globals_exclusions@.map_values(|v: Vec<String>| string_views(v@))
}

/// The projects excluded from the addon `identifier` in exclusion lists `m`.
pub open spec fn listed(m: Map<Seq<char>, Seq<Seq<char>>>, identifier: Seq<char>) -> Seq<Seq<char>> {
    if m.contains_key(identifier) { m[identifier] } else { Seq::empty() }
}

/// The exclusion lists once `project` is excluded from `identifier`.
pub open spec fn with_exclusion(m: Map<Seq<char>, Seq<Seq<char>>>, identifier: Seq<char>, project: Seq<char>)
    -> Map<Seq<char>, Seq<Seq<char>>> {
    m.insert(identifier, listed(m, identifier).push(project))
}

/// The exclusion lists once the exclusion of `project` from `identifier`
/// ends: the project leaves the list, and a list left empty is dropped.
pub open spec fn without_exclusion(m: Map<Seq<char>, Seq<Seq<char>>>, identifier: Seq<char>, project: Seq<char>)
    -> Map<Seq<char>, Seq<Seq<char>>> {
    let rest = without(listed(m, identifier), project);
    if rest.len() == 0 { m.remove(identifier) } else { m.insert(identifier, rest) }
}

/// `ps` without any occurrence of `p`, in order.
pub open spec fn without(ps: Seq<Seq<char>>, p: Seq<char>) -> Seq<Seq<char>>
    decreases ps.len(),
{
    if ps.len() == 0 {
        Seq::empty()
    } else if ps.last() == p {
        without(ps.drop_last(), p)
    } else {
        without(ps.drop_last(), p).push(ps.last())
    }
}

/// Removing what is not there changes nothing.
pub proof fn lemma_without_absent(ps: Seq<Seq<char>>, p: Seq<char>)
    requires
        !ps.contains(p),
    ensures
        without(ps, p) == ps,
    decreases ps.len(),
{
    if ps.len() > 0 {
        assert(!ps.drop_last().contains(p)) by {
            if ps.drop_last().contains(p) {
                let i = choose|i: int| 0 <= i < ps.drop_last().len() && ps.drop_last()[i] == p;
                assert(ps[i] == p);
            }
        }
        lemma_without_absent(ps.drop_last(), p);
        assert(ps.last() != p) by {
            assert(ps[ps.len() - 1] == ps.last());
        }
        assert(ps.drop_last().push(ps.last()) == ps);
    }
}

/// What became of an exclusion request.
#[derive(Debug, PartialEq, Eq, Structural)]
pub enum ExcludeOutcome {
    /// The addon is not a global addon (an error for the user).
    NotGlobal,
    /// The project was already excluded; nothing changed.
    AlreadyExcluded,
    /// The project was added to the addon's exclusion list.
    Excluded,
}

/// Excludes the project `project_path` from the global addon `identifier`.
pub fn exclude_project(config: &mut Config, identifier: &str, project_path: &str) -> (r: ExcludeOutcome)
    ensures
        !old(config).addons.globals@.contains_key(identifier@) ==> r == ExcludeOutcome::NotGlobal,
        old(config).addons.globals@.contains_key(identifier@) && excluded(*old(config), identifier@, project_path@)
            ==> r == ExcludeOutcome::AlreadyExcluded,
        old(config).addons.globals@.contains_key(identifier@) && !excluded(*old(config), identifier@, project_path@)
            ==> r == ExcludeOutcome::Excluded,
        r != ExcludeOutcome::Excluded ==> final(config).addons.globals_exclusions@ == old(config).addons.globals_exclusions@,
        r == ExcludeOutcome::Excluded ==> exclusion_views(*final(config))
            == with_exclusion(exclusion_views(*old(config)), identifier@, project_path@),
        final(config).addons.globals@ == old(config).addons.globals@,
        final(config).addons.linked@ == old(config).addons.linked@,
        final(config).addons.repositories@ == old(config).addons.repositories@,
        final(config).editors@ == old(config).editors@,
        final(config).projects@ == old(config).projects@,
        same_outside_addons(*final(config), *old(config)),
        final(config).addons.repositories == old(config).addons.repositories,
        final(config).addons.linked == old(config).addons.linked,
        final(config).addons.globals == old(config).addons.globals,
        final(config).addons.sync_count == old(config).addons.sync_count,
{
    if !config.addons.globals.contains_key(identifier) {
        return ExcludeOutcome::NotGlobal;
    }
    if is_excluded(config, identifier, project_path) {
        return ExcludeOutcome::AlreadyExcluded;
    }
    let mut list = match config.addons.globals_exclusions.remove(identifier) {
        Some(l) => l,
        None => Vec::new(),
    };
    assert(string_views(list@) == listed(exclusion_views(*old(config)), identifier@));
    let ghost old_list = list@;
    list.push(project_path.to_owned());
    assert(string_views(list@) =~= string_views(old_list).push(project_path@));
    config.addons.globals_exclusions.insert(identifier.to_owned(), list);
    assert(exclusion_views(*config) =~= with_exclusion(exclusion_views(*old(config)), identifier@, project_path@));
    ExcludeOutcome::Excluded
}

/// What became of a request to end an exclusion.
#[derive(Debug, PartialEq, Eq, Structural)]
pub enum RevertOutcome {
    /// No project is excluded from the addon.
    NoExclusions,
    /// Other projects are excluded, this one is not; nothing changed.
    NotExcluded,
    /// The project was taken off the addon's exclusion list.
    Reverted,
}

/// Ends the exclusion of the project `project_path` from the global addon
/// `identifier`: every occurrence of it leaves the list, and a list left
/// empty is dropped.
pub fn revert_exclusion_entry(config: &mut Config, identifier: &str, project_path: &str) -> (r: RevertOutcome)
    ensures
        !old(config).addons.globals_exclusions@.contains_key(identifier@) ==> r == RevertOutcome::NoExclusions,
        old(config).addons.globals_exclusions@.contains_key(identifier@) ==>
            (r == RevertOutcome::Reverted <==> excluded(*old(config), identifier@, project_path@)),
        old(config).addons.globals_exclusions@.contains_key(identifier@) && !excluded(*old(config), identifier@, project_path@)
            ==> r == RevertOutcome::NotExcluded,
        r != RevertOutcome::Reverted ==> final(config).addons.globals_exclusions@ == old(config).addons.globals_exclusions@,
        r == RevertOutcome::Reverted ==> exclusion_views(*final(config))
            == without_exclusion(exclusion_views(*old(config)), identifier@, project_path@),
        final(config).addons.globals@ == old(config).addons.globals@,
        final(config).addons.linked@ == old(config).addons.linked@,
        final(config).addons.repositories@ == old(config).addons.repositories@,
        final(config).editors@ == old(config).editors@,
        final(config).projects@ == old(config).projects@,
        same_outside_addons(*final(config), *old(config)),
        final(config).addons.repositories == old(config).addons.repositories,
        final(config).addons.linked == old(config).addons.linked,
        final(config).addons.globals == old(config).addons.globals,
        final(config).addons.sync_count == old(config).addons.sync_count,
{
    if !config.addons.globals_exclusions.contains_key(identifier) {
        return RevertOutcome::NoExclusions;
    }
    if !is_excluded(config, identifier, project_path) {
        return RevertOutcome::NotExcluded;
    }
    let list = match config.addons.globals_exclusions.remove(identifier) {
        Some(l) => l,
        None => Vec::new(),
    };
    let ghost ps = string_views(list@);
    assert(ps == listed(exclusion_views(*old(config)), identifier@));
    let k = chars_of(project_path);
    let mut rest: Vec<String> = Vec::new();
    let mut i: usize = 0;
    assert(ps.take(0) =~= Seq::<Seq<char>>::empty());
    while i < list.len()
        invariant
            i <= list@.len(),
            ps == string_views(list@),
            k@ == project_path@,
            string_views(rest@) == without(ps.take(i as int), project_path@),
        decreases list.len() - i,
    {
        assert(ps.take(i + 1).drop_last() == ps.take(i as int));
        assert(ps.take(i + 1).last() == list@[i as int]@);
        if !chars_eq(chars_of(list[i].as_str()).as_slice(), k.as_slice()) {
            let ghost r0 = rest@;
            rest.push(list[i].clone());
            assert(string_views(rest@) =~= string_views(r0).push(list@[i as int]@));
        }
        i = i + 1;
    }
    assert(ps.take(ps.len() as int) == ps);
    if rest.len() > 0 {
        config.addons.globals_exclusions.insert(identifier.to_owned(), rest);
    }
    assert(exclusion_views(*config) =~= without_exclusion(exclusion_views(*old(config)), identifier@, project_path@));
    RevertOutcome::Reverted
}

/// `without(ps, p)` holds no `p`.
pub proof fn lemma_without_drops(ps: Seq<Seq<char>>, p: Seq<char>)
    ensures
        !without(ps, p).contains(p),
    decreases ps.len(),
{
    if ps.len() > 0 {
        lemma_without_drops(ps.drop_last(), p);
        let r = without(ps.drop_last(), p);
        if ps.last() != p {
            assert forall|i: int| 0 <= i < r.push(ps.last()).len() implies r.push(ps.last())[i] != p by {
                if i < r.len() {
                    assert(r.push(ps.last())[i] == r[i]);
                }
            }
        }
    }
}

/// Once a project is excluded from a global addon it is on the addon's
/// list; once its exclusion ends it is on it no more.
pub proof fn lemma_exclusion_state(m: Map<Seq<char>, Seq<Seq<char>>>, identifier: Seq<char>, project: Seq<char>)
    ensures
        listed(with_exclusion(m, identifier, project), identifier).contains(project),
        !listed(without_exclusion(m, identifier, project), identifier).contains(project),
{
    let l = listed(m, identifier).push(project);
    assert(l[l.len() - 1] == project);
    lemma_without_drops(listed(m, identifier), project);
}

/// Excluding a project that was not excluded and then ending that exclusion
/// gives back the exclusion lists as they were, when the addon had no list
/// or a non-empty one.
pub proof fn lemma_exclude_then_revert(m: Map<Seq<char>, Seq<Seq<char>>>, identifier: Seq<char>, project: Seq<char>)
    requires
        !listed(m, identifier).contains(project),
        m.contains_key(identifier) ==> m[identifier].len() > 0,
    ensures
        without_exclusion(with_exclusion(m, identifier, project), identifier, project) == m,
{
    let l = listed(m, identifier);
    lemma_without_absent(l, project);
    assert(l.push(project).drop_last() == l);
    assert(listed(with_exclusion(m, identifier, project), identifier) == l.push(project));
    assert(without(l.push(project), project) == l);
    if l.len() == 0 {
        assert(!m.contains_key(identifier));
        assert(with_exclusion(m, identifier, project).remove(identifier) =~= m);
    } else {
        assert(with_exclusion(m, identifier, project).insert(identifier, l) =~= m);
    }
}

/// Where a global addon comes back from when a project's exclusion ends:
/// its global store directory (version as linked, else `unknown`), its
/// folder, and whether it is linked (symlinked) rather than copied; `None`
/// for an addon that is not global or an identifier without `/`.
pub open spec fn readd_source(c: Config, identifier: Seq<char>) -> Option<(Seq<char>, Seq<char>, bool)> {
    if !c.addons.globals@.contains_key(identifier) {
        None
    } else {
        let linked = c.addons.linked@.contains_key(identifier);
        let version = if linked { c.addons.linked@[identifier].version@ } else { "unknown"@ };
        match store_dir(identifier, version) {
            Some(d) => Some((d, c.addons.globals@[identifier].folder_name@, linked)),
            None => None,
        }
    }
}

/// How a global addon is put back into a project.
pub struct ReaddPlan {
    /// Directory of the global store holding the addon version.
    pub store_dir: String,
    /// The addon's folder, inside that directory and in `addons/`.
    pub folder_name: String,
    /// Link the folder rather than copy it.
    pub symlink: bool,
}

/// How the global addon `identifier` is put back into a project whose
/// exclusion ended.
pub fn readd_plan(config: &Config, identifier: &str) -> (r: Option<ReaddPlan>)
    ensures
        match readd_source(*config, identifier@) {
            Some((d, f, l)) => r matches Some(p) && p.store_dir@ == d && p.folder_name@ == f && p.symlink == l,
            None => r is None,
        },
{
    let global = match config.addons.globals.get(identifier) {
        Some(g) => g,
        None => {
            return None;
        },
    };
    let (version, symlink) = match config.addons.linked.get(identifier) {
        Some(info) => (info.version.as_str(), true),
        None => ("unknown", false),
    };
    match store_dir_name(identifier, version) {
        Some(d) => Some(ReaddPlan { store_dir: d, folder_name: global.folder_name.clone(), symlink }),
        None => None,
    }
}

/// A pinned version, or `latest`.
pub open spec fn version_or_latest(v: Option<String>) -> Seq<char> {
    match v {
        Some(s) => s@,
        None => "latest"@,
    }
}

/// A line of the menu of global addons to exclude:
/// `<identifier> v<version>`, marked when the project is already excluded.
pub open spec fn exclude_menu_line(c: Config, identifier: Seq<char>, e: GlobalAddonEntry, project: Seq<char>) -> Seq<char> {
    identifier + " v"@ + version_or_latest(e.version)
        + (if excluded(c, identifier, project) { " (already excluded)"@ } else { ""@ })
}

/// The menu of global addons to exclude the project `project_path` from, in
/// the registry's order.
pub fn exclude_menu(config: &Config, project_path: &str) -> (v: Vec<String>)
    ensures
        v@.len() == config.addons.globals.entry_seq().len(),
        forall|i: int| 0 <= i < v@.len() ==> #[trigger] v@[i]@ == exclude_menu_line(*config,
            config.addons.globals.entry_seq()[i].0@, config.addons.globals.entry_seq()[i].1, project_path@),
{
    let entries = config.addons.globals.entries();
    let mut v: Vec<String> = Vec::new();
    let mut i: usize = 0;
    while i < entries.len()
        invariant
            i <= entries@.len(),
            entries@ == config.addons.globals.entry_seq(),
            v@.len() == i,
            forall|j: int| 0 <= j < i ==> #[trigger] v@[j]@ == exclude_menu_line(*config,
                entries@[j].0@, entries@[j].1, project_path@),
        decreases entries.len() - i,
    {
        let (ident, info) = &entries[i];
        let mut line = ident.clone();
        push_str(&mut line, " v");
        match &info.version {
            Some(ver) => push_str(&mut line, ver.as_str()),
            None => push_str(&mut line, "latest"),
        }
        if is_excluded(config, ident.as_str(), project_path) {
            push_str(&mut line, " (already excluded)");
        } else {
            proof { reveal_strlit(""); }
            assert(line@ + ""@ =~= line@);
        }
        v.push(line);
        i = i + 1;
    }
    v
}

/// The global addons the project `project` is excluded from, with their
/// pinned version or `latest`, in the order of the exclusion lists.
pub open spec fn revert_choices(c: Config, es: Seq<(String, Vec<String>)>, project: Seq<char>) -> Seq<(Seq<char>, Seq<char>)>
    decreases es.len(),
{
    if es.len() == 0 {
        Seq::empty()
    } else {
        let r = revert_choices(c, es.drop_last(), project);
        let id = es.last().0@;
        if string_views(es.last().1@).contains(project) && c.addons.globals@.contains_key(id) {
            r.push((id, version_or_latest(c.addons.globals@[id].version)))
        } else {
            r
        }
    }
}

/// The views of identifier and version pairs.
pub open spec fn pair_views(v: Seq<(String, String)>) -> Seq<(Seq<char>, Seq<char>)> {
    v.map_values(|p: (String, String)| (p.0@, p.1@))
}

fn list_has(list: &Vec<String>, item: &[char]) -> (b: bool)
    ensures
        b == string_views(list@).contains(item@),
{
    let mut i: usize = 0;
    while i < list.len()
        invariant
            i <= list@.len(),
            forall|j: int| 0 <= j < i ==> list@[j]@ != item@,
        decreases list.len() - i,
    {
        if chars_eq(chars_of(list[i].as_str()).as_slice(), item) {
            assert(string_views(list@)[i as int] == item@);
            return true;
        }
        i = i + 1;
    }
    assert forall|j: int| 0 <= j < string_views(list@).len() implies string_views(list@)[j] != item@ by {
        assert(string_views(list@)[j] == list@[j]@);
    }
    false
}

/// The global addons the project `project_path` may be taken back into,
/// with their versions, for the menu of `--revert`.
pub fn revert_menu(config: &Config, project_path: &str) -> (v: Vec<(String, String)>)
    ensures
        pair_views(v@) == revert_choices(*config, config.addons.globals_exclusions.entry_seq(), project_path@),
{
    let entries = config.addons.globals_exclusions.entries();
    let ghost es = entries@;
    let k = chars_of(project_path);
    let mut v: Vec<(String, String)> = Vec::new();
    let mut i: usize = 0;
    assert(es.take(0) =~= Seq::<(String, Vec<String>)>::empty());
    assert(pair_views(v@) =~= Seq::<(Seq<char>, Seq<char>)>::empty());
    while i < entries.len()
        invariant
            i <= es.len(),
            es == entries@,
            k@ == project_path@,
            pair_views(v@) == revert_choices(*config, es.take(i as int), project_path@),
        decreases entries.len() - i,
    {
        assert(es.take(i + 1).drop_last() == es.take(i as int));
        assert(es.take(i + 1).last() == es[i as int]);
        let (ident, list) = &entries[i];
        if list_has(list, k.as_slice()) {
            match config.addons.globals.get(ident.as_str()) {
                Some(g) => {
                    let version = match &g.version {
                        Some(s) => s.clone(),
                        None => String::from_str("latest"),
                    };
                    let ghost v0 = v@;
                    v.push((ident.clone(), version));
                    assert(pair_views(v@) =~= pair_views(v0).push((ident@, version_or_latest(g.version))));
                },
                None => {},
            }
        }
        i = i + 1;
    }
    assert(es.take(es.len() as int) == es);
    v
}

} // verus!
