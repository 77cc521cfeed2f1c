//! Addon repositories: the name a repository URL is registered under, and
//! adding, removing and listing repositories.
use vstd::prelude::*;
use crate::text::{chars_of, chars_eq, first_where, lemma_first_where_is, lemma_first_where_none, pad_right, push_chars, push_padded, push_str, split, split_chars, strip_prefix_or_keep, strip_prefix_or_self, string_of_all, trim_start_matching_pat, trim_start_pat, views};

use crate::config::{same_outside_addons, Config, Repository};

verus! {

/// `url` without leading `https://` and then `http://` prefixes.
pub open spec fn without_scheme(url: Seq<char>) -> Seq<char> {
    trim_start_pat(trim_start_pat(url, "https://"@), "http://"@)
}

/// Name a repository URL is registered under: `godot-official-store` for the
/// official store's host, else the host (without `www.`, port kept), joined by
/// `_` to the first non-empty path segment when there is one.
pub open spec fn repository_name(url: Seq<char>) -> Seq<char> {
    let pieces = split(without_scheme(url), '/');
    let host = pieces[0];
    if host == "store.godotengine.org"@ {
        "godot-official-store"@
    } else {
        let h = strip_prefix_or_self(host, "www."@);
        match first_where(pieces.len() as int, |i: int| i >= 1 && pieces[i].len() > 0) {
            Some(i) => h + "_"@ + pieces[i],
            None => h,
        }
    }
}

/// The name a repository URL is registered under.
pub fn derive_name(url: &str) -> (r: String)
    ensures
        r@ == repository_name(url@),
{
    let u = chars_of(url);
    let a = trim_start_matching_pat(u.as_slice(), chars_of("https://").as_slice());
    let w = trim_start_matching_pat(a.as_slice(), chars_of("http://").as_slice());
    let pieces = split_chars(w.as_slice(), '/');
    let ghost ps = views(pieces@);
    assert(ps[0] == pieces@[0]@);
    if chars_eq(pieces[0].as_slice(), chars_of("store.godotengine.org").as_slice()) {
        return String::from_str("godot-official-store");
    }
    let h = strip_prefix_or_keep(pieces[0].as_slice(), chars_of("www.").as_slice());
    let mut name = string_of_all(h.as_slice());
    assert(ps == split(without_scheme(url@), '/'));
    let ghost pred = |i: int| i >= 1 && split(without_scheme(url@), '/')[i].len() > 0;
    let mut i: usize = 1;
    while i < pieces.len()
        invariant
            1 <= i <= pieces@.len(),
            ps == views(pieces@),
            ps.len() == pieces@.len(),
            name@ == h@,
            h@ == strip_prefix_or_self(ps[0], "www."@),
            ps[0] != "store.godotengine.org"@,
            ps == split(without_scheme(url@), '/'),
            pred == (|i: int| i >= 1 && split(without_scheme(url@), '/')[i].len() > 0),
            forall|j: int| 0 <= j < i ==> !#[trigger] pred(j),
        decreases pieces.len() - i,
    {
        assert(ps[i as int] == pieces@[i as int]@);
        if pieces[i].len() > 0 {
            proof { lemma_first_where_is(ps.len() as int, pred, i as int); }
            push_str(&mut name, "_");
            push_chars(&mut name, pieces[i].as_slice());
            return name;
        }
        i = i + 1;
    }
    proof { lemma_first_where_none(ps.len() as int, pred); }
    name
}

/// Repository `i` of `repos` is registered with `url`.
pub open spec fn has_url(repos: Seq<Repository>, url: Seq<char>) -> spec_fn(int) -> bool {
    |i: int| repos[i].url@ == url
}

/// Index of the first repository registered with `url`.
pub open spec fn repository_index(repos: Seq<Repository>, url: Seq<char>) -> Option<int> {
    first_where(repos.len() as int, has_url(repos, url))
}

/// What a toggle did.
pub enum RepositoryChange {
    /// The repository was registered and has been removed.
    Removed(Repository),
    /// The repository was not registered and has been added.
    Added(Repository),
}

/// Why a toggle was refused.
#[derive(Debug, PartialEq, Eq, Structural)]
pub enum RepositoryError {
    /// The official store cannot be removed.
    CannotRemoveDefault,
}

impl RepositoryError {
    /// The error message shown for it.
    pub fn message(&self) -> (m: &'static str)
        ensures
            m@ == "Cannot remove the default Godot Asset Store repository."@,
    {
        "Cannot remove the default Godot Asset Store repository."
    }
}

fn find_repository(repos: &Vec<Repository>, url: &str) -> (r: Option<usize>)
    ensures
        r matches Some(i) ==> i < repos@.len() && repository_index(repos@, url@) == Some(i as int),
        r is None ==> repository_index(repos@, url@) is None,
{
    let ghost pred = has_url(repos@, url@);
    let u = chars_of(url);
    let mut i: usize = 0;
    while i < repos.len()
        invariant
            i <= repos@.len(),
            u@ == url@,
            pred == has_url(repos@, url@),
            forall|j: int| 0 <= j < i ==> !#[trigger] pred(j),
        decreases repos.len() - i,
    {
        if chars_eq(chars_of(repos[i].url.as_str()).as_slice(), u.as_slice()) {
            proof { lemma_first_where_is(repos@.len() as int, pred, i as int); }
            return Some(i);
        }
        i = i + 1;
    }
    proof { lemma_first_where_none(repos@.len() as int, pred); }
    None
}

/// Registers the repository at `url`, or removes it when it is registered
/// already; the official store cannot be removed.
pub fn toggle_repository(config: &mut Config, url: &str) -> (r: Result<RepositoryChange, RepositoryError>)
    ensures
        match repository_index(old(config).addons.repositories@, url@) {
            Some(i) => {
                let repo = old(config).addons.repositories@[i];
                if repo.name@ == "godot-official-store"@ {
                    &&& r == Err::<RepositoryChange, RepositoryError>(RepositoryError::CannotRemoveDefault)
                    &&& final(config).addons.repositories@ == old(config).addons.repositories@
                } else {
                    &&& r matches Ok(RepositoryChange::Removed(x)) && x == repo
                    &&& final(config).addons.repositories@ == old(config).addons.repositories@.remove(i)
                }
            },
            None => {
                &&& r matches Ok(RepositoryChange::Added(x)) && x.name@ == repository_name(url@) && x.url@ == url@
                    && final(config).addons.repositories@ == old(config).addons.repositories@.push(x)
            },
        },
        final(config).addons.linked@ == old(config).addons.linked@,
        final(config).addons.globals@ == old(config).addons.globals@,
        final(config).editors@ == old(config).editors@,
        final(config).projects@ == old(config).projects@,
        same_outside_addons(*final(config), *old(config)),
        final(config).addons.linked == old(config).addons.linked,
        final(config).addons.globals == old(config).addons.globals,
        final(config).addons.globals_exclusions == old(config).addons.globals_exclusions,
        final(config).addons.sync_count == old(config).addons.sync_count,
{
    match find_repository(&config.addons.repositories, url) {
        Some(idx) => {
            if chars_eq(chars_of(config.addons.repositories[idx].name.as_str()).as_slice(),
                chars_of("godot-official-store").as_slice()) {
                return Err(RepositoryError::CannotRemoveDefault);
            }
            let removed = config.addons.repositories.remove(idx);
            Ok(RepositoryChange::Removed(removed))
        },
        None => {
            let repo = Repository { name: derive_name(url), url: String::from_str(url) };
            let added = repo.clone();
            config.addons.repositories.push(repo);
            Ok(RepositoryChange::Added(added))
        },
    }
}

/// Line listing one repository.
pub open spec fn repository_line(r: Repository) -> Seq<char> {
    "  "@ + pad_right(r.name@, 20) + " "@ + r.url@
        + (if r.name@ == "godot-official-store"@ { " (default)"@ } else { ""@ })
}

/// Lines listing the registered repositories.
pub open spec fn repository_listing(repos: Seq<Repository>) -> Seq<Seq<char>> {
    if repos.len() == 0 {
        seq!["No repositories registered."@]
    } else {
        seq!["Repositories:"@] + repos.map_values(|r: Repository| repository_line(r))
    }
}

/// The lines that list the registered repositories.
pub fn list_repositories(repos: &Vec<Repository>) -> (lines: Vec<String>)
    ensures
        lines@.map_values(|s: String| s@) == repository_listing(repos@),
{
    let mut lines: Vec<String> = Vec::new();
    if repos.len() == 0 {
        lines.push(String::from_str("No repositories registered."));
        assert(lines@.map_values(|s: String| s@) =~= repository_listing(repos@));
        return lines;
    }
    lines.push(String::from_str("Repositories:"));
    let mut i: usize = 0;
    while i < repos.len()
        invariant
            i <= repos@.len(),
            repos@.len() > 0,
            lines@.map_values(|s: String| s@) =~= seq!["Repositories:"@]
                + repos@.take(i as int).map_values(|r: Repository| repository_line(r)),
        decreases repos.len() - i,
    {
        let mut line = String::from_str("  ");
        push_padded(&mut line, repos[i].name.as_str(), 20);
        push_str(&mut line, " ");
        push_str(&mut line, repos[i].url.as_str());
        if chars_eq(chars_of(repos[i].name.as_str()).as_slice(), chars_of("godot-official-store").as_slice()) {
            push_str(&mut line, " (default)");
        } else {
            proof { reveal_strlit(""); }
            assert(line@ =~= line@ + ""@);
        }
        assert(line@ == repository_line(repos@[i as int]));
        let ghost before = lines@;
        lines.push(line);
        assert(lines@.map_values(|s: String| s@) =~= before.map_values(|s: String| s@).push(line@));
        assert(repos@.take(i + 1) == repos@.take(i as int).push(repos@[i as int]));
        assert(repos@.take(i + 1).map_values(|r: Repository| repository_line(r))
            =~= repos@.take(i as int).map_values(|r: Repository| repository_line(r)).push(repository_line(repos@[i as int])));
        i = i + 1;
    }
    assert(repos@.take(repos@.len() as int) == repos@);
    lines
}

/// What `gdio addons repository` prints, and whether the registry changed.
pub struct RepositoryReport {
    pub lines: Vec<String>,
    pub changed: bool,
}

/// Runs the repository command: with no URL, lists the repositories; with a
/// URL, toggles it and reports the change.
pub fn run(config: &mut Config, url: Option<&str>) -> (r: Result<RepositoryReport, RepositoryError>)
    ensures
        url is None ==> (r matches Ok(rep) && !rep.changed
            && rep.lines@.map_values(|s: String| s@) == repository_listing(old(config).addons.repositories@)
            && final(config).addons.repositories@ == old(config).addons.repositories@),
        url matches Some(u) ==> match repository_index(old(config).addons.repositories@, u@) {
            Some(i) => {
                let repo = old(config).addons.repositories@[i];
                if repo.name@ == "godot-official-store"@ {
                    &&& r == Err::<RepositoryReport, RepositoryError>(RepositoryError::CannotRemoveDefault)
                    &&& final(config).addons.repositories@ == old(config).addons.repositories@
                } else {
                    &&& r matches Ok(rep) && rep.changed && rep.lines@.len() == 1
                        && rep.lines@[0]@ == "Removed repository '"@ + repo.name@ + "' ("@ + repo.url@ + ")"@
                    &&& final(config).addons.repositories@ == old(config).addons.repositories@.remove(i)
                }
            },
            None => {
                &&& r matches Ok(rep) && rep.changed && rep.lines@.len() == 1
                    && rep.lines@[0]@ == "Added repository '"@ + repository_name(u@) + "' ("@ + u@ + ")"@
                &&& final(config).addons.repositories@.len() == old(config).addons.repositories@.len() + 1
                &&& final(config).addons.repositories@.drop_last() == old(config).addons.repositories@
                &&& final(config).addons.repositories@.last().name@ == repository_name(u@)
                &&& final(config).addons.repositories@.last().url@ == u@
            },
        },
        final(config).addons.linked@ == old(config).addons.linked@,
        final(config).addons.globals@ == old(config).addons.globals@,
        final(config).editors@ == old(config).editors@,
        final(config).projects@ == old(config).projects@,
        same_outside_addons(*final(config), *old(config)),
        final(config).addons.linked == old(config).addons.linked,
        final(config).addons.globals == old(config).addons.globals,
        final(config).addons.globals_exclusions == old(config).addons.globals_exclusions,
        final(config).addons.sync_count == old(config).addons.sync_count,
{
    match url {
        None => {
            let lines = list_repositories(&config.addons.repositories);
            Ok(RepositoryReport { lines, changed: false })
        },
        Some(u) => {
            let change = toggle_repository(config, u)?;
            let mut line = String::new();
            let repo = match change {
                RepositoryChange::Removed(x) => {
                    push_str(&mut line, "Removed repository '");
                    x
                },
                RepositoryChange::Added(x) => {
                    push_str(&mut line, "Added repository '");
                    x
                },
            };
            push_str(&mut line, repo.name.as_str());
            push_str(&mut line, "' (");
            push_str(&mut line, repo.url.as_str());
            push_str(&mut line, ")");
            let mut lines: Vec<String> = Vec::new();
            lines.push(line);
            Ok(RepositoryReport { lines, changed: true })
        },
    }
}

/// Toggling a repository that is not registered adds it; toggling it again
/// removes it, leaving the list as it was (unless its name is the official
/// store's, which cannot be removed).
pub proof fn lemma_toggle_repository_twice(repos: Seq<Repository>, url: Seq<char>, added: Repository)
    requires
        repository_index(repos, url) is None,
        added.url@ == url,
        added.name@ == repository_name(url),
        repository_name(url) != "godot-official-store"@,
    ensures
        repository_index(repos.push(added), url) == Some(repos.len() as int),
        repos.push(added)[repos.len() as int].name@ != "godot-official-store"@,
        repos.push(added).remove(repos.len() as int) == repos,
{
    let r2 = repos.push(added);
    let pred2 = has_url(r2, url);
    let pred1 = has_url(repos, url);
    assert forall|j: int| 0 <= j < repos.len() implies !#[trigger] pred2(j) by {
        assert(r2[j] == repos[j]);
        if pred2(j) {
            assert(pred1(j));
        }
    }
    lemma_first_where_is(r2.len() as int, pred2, repos.len() as int);
    assert(r2.remove(repos.len() as int) =~= repos);
}

} // verus!
