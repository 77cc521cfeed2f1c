//! Decisions of `gdio addons sync`: which addons a project opts out of,
//! which release a global addon installs, where a linked addon lives, and
//! when linked addons are validated.
use vstd::prelude::*;
use crate::text::{chars_of, chars_eq, first_where, lemma_first_where_is, lemma_first_where_none};
use crate::platform::string_views;
use crate::config::{same_outside_addons, Config, GdioProject};
use crate::releases::{derefs, fitting, list_compatible_releases, sorted_desc_stable, Release};
use crate::addons::{identifier_parts, split_identifier};

verus! {

/// The project `project_key` opted out of the global addon `identifier`.
pub open spec fn excluded(c: Config, identifier: Seq<char>, project_key: Seq<char>) -> bool {
    c.addons.globals_exclusions@.contains_key(identifier)
        && string_views(c.addons.globals_exclusions@[identifier]@).contains(project_key)
}

/// Whether the project `project_key` opted out of the global addon `identifier`.
pub fn is_excluded(config: &Config, identifier: &str, project_key: &str) -> (b: bool)
    ensures
        b == excluded(*config, identifier@, project_key@),
{
    match config.addons.globals_exclusions.get(identifier) {
        Some(projects) => {
            let k = chars_of(project_key);
            let mut i: usize = 0;
            while i < projects.len()
                invariant
                    i <= projects@.len(),
                    k@ == project_key@,
                    config.addons.globals_exclusions@.contains_key(identifier@),
                    *projects == config.addons.globals_exclusions@[identifier@],
                    forall|j: int| 0 <= j < i ==> projects@[j]@ != project_key@,
                decreases projects.len() - i,
            {
                if chars_eq(chars_of(projects[i].as_str()).as_slice(), k.as_slice()) {
                    assert(string_views(projects@)[i as int] == project_key@);
                    return true;
                }
                i = i + 1;
            }
            assert forall|j: int| 0 <= j < string_views(projects@).len() implies string_views(projects@)[j] != project_key@ by {
                assert(string_views(projects@)[j] == projects@[j]@);
            }
            false
        },
        None => false,
    }
}

/// Counts a sync; every twentieth one is due to validate the linked addons
/// (the count then starts again).
pub fn sync_tick(config: &mut Config) -> (due: bool)
    requires
        old(config).addons.sync_count < u32::MAX,
    ensures
        due == (old(config).addons.sync_count + 1 >= 20),
        final(config).addons.sync_count == (if due { 0 } else { old(config).addons.sync_count + 1 }),
        final(config).addons.linked@ == old(config).addons.linked@,
        final(config).addons.globals@ == old(config).addons.globals@,
        final(config).editors@ == old(config).editors@,
        final(config).projects@ == old(config).projects@,
        same_outside_addons(*final(config), *old(config)),
        final(config).addons.repositories == old(config).addons.repositories,
        final(config).addons.linked == old(config).addons.linked,
        final(config).addons.globals == old(config).addons.globals,
        final(config).addons.globals_exclusions == old(config).addons.globals_exclusions,
{
    config.addons.sync_count = config.addons.sync_count + 1;
    if config.addons.sync_count >= 20 {
        config.addons.sync_count = 0;
        true
    } else {
        false
    }
}

/// Where a linked addon tracked by a project's `.gdio` comes from.
pub struct LinkedTarget {
    pub publisher: String,
    pub asset: String,
    pub folder_name: String,
    pub version: String,
    pub repository: String,
    pub wanted_version: String,
}

/// For a `.gdio` entry `identifier` with parts (publisher, asset): folder and
/// version as registered (the asset and `unknown` when not registered), the
/// repository and version the `.gdio` asks for (the official store and the
/// registered version when it does not say).
pub open spec fn linked_target(c: Config, g: GdioProject, identifier: Seq<char>)
    -> Option<(Seq<char>, Seq<char>, Seq<char>, Seq<char>, Seq<char>, Seq<char>)> {
    match identifier_parts(identifier) {
        None => None,
        Some((p, a)) => {
            let linked = c.addons.linked@.contains_key(identifier);
            let folder = if linked { c.addons.linked@[identifier].folder_name@ } else { a };
            let version = if linked { c.addons.linked@[identifier].version@ } else { "unknown"@ };
            let has = g.addons@.contains_key(identifier);
            let repo = if has { g.addons@[identifier].repository@ } else { "https://store.godotengine.org"@ };
            let wanted = if has { g.addons@[identifier].version@ } else { version };
            Some((p, a, folder, version, repo, wanted))
        },
    }
}

/// Where the linked addon `identifier` of a project's `.gdio` is stored and
/// fetched from; `None` when the identifier has no `/`.
pub fn linked_sync_target(config: &Config, gdio: &GdioProject, identifier: &str) -> (r: Option<LinkedTarget>)
    ensures
        match linked_target(*config, *gdio, identifier@) {
            Some((p, a, f, v, repo, w)) => r matches Some(t) && t.publisher@ == p && t.asset@ == a
                && t.folder_name@ == f && t.version@ == v && t.repository@ == repo && t.wanted_version@ == w,
            None => r is None,
        },
{
    let (publisher, asset) = match split_identifier(identifier) {
        Some(parts) => parts,
        None => {
            return None;
        },
    };
    let (folder_name, version) = match config.addons.linked.get(identifier) {
        Some(info) => (info.folder_name.clone(), info.version.clone()),
        None => (asset.clone(), String::from_str("unknown")),
    };
    let (repository, wanted_version) = match gdio.addons.get(identifier) {
        Some(e) => (e.repository.clone(), e.version.clone()),
        None => (String::from_str("https://store.godotengine.org"), version.clone()),
    };
    Some(LinkedTarget { publisher, asset, folder_name, version, repository, wanted_version })
}

/// Whether a repository is asked for a linked addon's releases: it is the
/// addon's repository, or the addon names none.
pub fn repository_serves(repo_url: &str, wanted: &str) -> (b: bool)
    ensures
        b == (repo_url@ == wanted@ || wanted@.len() == 0),
{
    chars_eq(chars_of(repo_url).as_slice(), chars_of(wanted).as_slice()) || chars_of(wanted).len() == 0
}

/// Index of the first release with version `version`.
pub open spec fn release_with(rs: Seq<Release>, version: Seq<char>) -> Option<int> {
    first_where(rs.len() as int, |i: int| rs[i].version@ == version)
}

/// The first release with version `version`.
pub fn find_release_version(releases: &[Release], version: &str) -> (r: Option<usize>)
    ensures
        r matches Some(i) ==> i < releases@.len() && release_with(releases@, version@) == Some(i as int),
        r is None ==> release_with(releases@, version@) is None,
{
    let v = chars_of(version);
    let ghost pred = |i: int| releases@[i].version@ == version@;
    let mut i: usize = 0;
    while i < releases.len()
        invariant
            i <= releases@.len(),
            v@ == version@,
            pred == (|i: int| releases@[i].version@ == version@),
            forall|j: int| 0 <= j < i ==> !#[trigger] pred(j),
        decreases releases.len() - i,
    {
        if chars_eq(chars_of(releases[i].version.as_str()).as_slice(), v.as_slice()) {
            proof { lemma_first_where_is(releases@.len() as int, pred, i as int); }
            return Some(i);
        }
        i = i + 1;
    }
    proof { lemma_first_where_none(releases@.len() as int, pred); }
    None
}

/// A pass of the search for the release a linked addon is downloaded from:
/// first the repositories that serve the addon, for its wanted version; then
/// every repository, for its first release.
#[derive(PartialEq, Eq, Structural, Debug, Clone, Copy)]
pub enum SearchPass {
    Wanted,
    Newest,
}

/// What the search for a linked addon's release does next.
#[derive(PartialEq, Eq, Structural, Debug, Clone, Copy)]
pub enum SearchStep {
    /// Fetch the releases of repository `repo` and hand them to `search_reply`.
    Ask { pass: SearchPass, repo: usize },
    /// Download release `release` of the last reply.
    Take { release: usize },
    /// No repository offers a release.
    GiveUp,
}

/// The repositories asked in `pass` at or after position `from`.
pub open spec fn asked_in(urls: Seq<Seq<char>>, wanted: Seq<char>, pass: SearchPass, from: int) -> spec_fn(
    int,
) -> bool {
    |i: int| i >= from && (pass == SearchPass::Newest || urls[i] == wanted || wanted.len() == 0)
}

/// The next repository to ask in `pass` from position `from` on; after the
/// last one of the first pass, the second pass starts at the first
/// repository.
pub open spec fn next_ask(urls: Seq<Seq<char>>, wanted: Seq<char>, pass: SearchPass, from: int) -> SearchStep {
    match first_where(urls.len() as int, asked_in(urls, wanted, pass, from)) {
        Some(i) => SearchStep::Ask { pass, repo: i as usize },
        None => if pass == SearchPass::Wanted && urls.len() > 0 {
            SearchStep::Ask { pass: SearchPass::Newest, repo: 0 }
        } else {
            SearchStep::GiveUp
        },
    }
}

/// The release a reply offers in `pass`: the first with the wanted version,
/// or in the second pass the first release. A failed fetch offers none.
pub open spec fn reply_pick(reply: Option<Seq<Release>>, pass: SearchPass, version: Seq<char>) -> Option<int> {
    match reply {
        None => None,
        Some(rs) => if pass == SearchPass::Wanted {
            release_with(rs, version)
        } else if rs.len() > 0 {
            Some(0)
        } else {
            None
        },
    }
}

/// The step after repository `repo` answered `reply` in `pass`.
pub open spec fn after_reply(
    urls: Seq<Seq<char>>,
    wanted: Seq<char>,
    version: Seq<char>,
    pass: SearchPass,
    repo: int,
    reply: Option<Seq<Release>>,
) -> SearchStep {
    match reply_pick(reply, pass, version) {
        Some(i) => SearchStep::Take { release: i as usize },
        None => next_ask(urls, wanted, pass, repo + 1),
    }
}

fn next_repository(urls: &[String], wanted: &str, pass: SearchPass, from: usize) -> (s: SearchStep)
    ensures
        s == next_ask(string_views(urls@), wanted@, pass, from as int),
{
    let ghost u = string_views(urls@);
    let ghost pred = asked_in(u, wanted@, pass, from as int);
    let mut i: usize = from;
    if i > urls.len() {
        i = urls.len();
    }
    assert forall|j: int| 0 <= j < i implies !#[trigger] pred(j) by {}
    while i < urls.len()
        invariant
            i <= urls@.len(),
            u == string_views(urls@),
            pred == asked_in(u, wanted@, pass, from as int),
            forall|j: int| 0 <= j < i ==> !#[trigger] pred(j),
        decreases urls.len() - i,
    {
        if i >= from && (pass == SearchPass::Newest || repository_serves(urls[i].as_str(), wanted)) {
            assert(u[i as int] == urls@[i as int]@);
            assert(pred(i as int));
            proof { lemma_first_where_is(u.len() as int, pred, i as int); }
            return SearchStep::Ask { pass, repo: i };
        }
        assert(u[i as int] == urls@[i as int]@);
        i = i + 1;
    }
    proof { lemma_first_where_none(u.len() as int, pred); }
    if pass == SearchPass::Wanted && urls.len() > 0 {
        SearchStep::Ask { pass: SearchPass::Newest, repo: 0 }
    } else {
        SearchStep::GiveUp
    }
}

/// The first step of the search for a linked addon's release, given the
/// configured repositories' URLs and the addon's repository.
pub fn search_start(urls: &[String], wanted: &str) -> (s: SearchStep)
    ensures
        s == next_ask(string_views(urls@), wanted@, SearchPass::Wanted, 0),
{
    next_repository(urls, wanted, SearchPass::Wanted, 0)
}

/// The step after repository `repo` answered: `reply` holds its releases, or
/// is `None` when the fetch failed.
pub fn search_reply(
    urls: &[String],
    wanted: &str,
    version: &str,
    pass: SearchPass,
    repo: usize,
    reply: Option<&[Release]>,
) -> (s: SearchStep)
    ensures
        s == after_reply(
            string_views(urls@),
            wanted@,
            version@,
            pass,
            repo as int,
            match reply { Some(rs) => Some(rs@), None => None },
        ),
{
    let pick: Option<usize> = match reply {
        None => None,
        Some(rs) => if pass == SearchPass::Wanted {
            find_release_version(rs, version)
        } else if rs.len() > 0 {
            Some(0)
        } else {
            None
        },
    };
    match pick {
        Some(i) => SearchStep::Take { release: i },
        None => {
            if repo < urls.len() {
                next_repository(urls, wanted, pass, repo + 1)
            } else {
                let s = next_repository(urls, wanted, pass, urls.len());
                proof {
                    let u = string_views(urls@);
                    lemma_first_where_none(u.len() as int, asked_in(u, wanted@, pass, repo + 1));
                    lemma_first_where_none(u.len() as int, asked_in(u, wanted@, pass, u.len() as int));
                }
                s
            }
        },
    }
}

/// The release a global addon installs from one repository's releases:
/// the pinned version when one is pinned; else the highest release usable
/// with the project's engine version (when the project is bound to one), or
/// else the repository's first release.
pub fn pick_global_release<'a>(releases: &'a [Release], pinned: Option<&str>, godot_version: Option<&str>) -> (r: Option<&'a Release>)
    ensures
        pinned matches Some(p) ==> match release_with(releases@, p@) {
            Some(i) => r == Some(&releases@[i]),
            None => r is None,
        },
        pinned is None && godot_version is None ==>
            r == (if releases@.len() > 0 { Some(&releases@[0]) } else { None }),
        pinned is None ==> (godot_version matches Some(g) ==> {
            &&& (r is None <==> fitting(releases@, g@).len() == 0)
            &&& (r matches Some(x) ==> exists|out: Seq<Release>| sorted_desc_stable(out, fitting(releases@, g@))
                    && out.len() > 0 && *x == out[0])
        }),
{
    match pinned {
        Some(p) => match find_release_version(releases, p) {
            Some(i) => Some(&releases[i]),
            None => None,
        },
        None => match godot_version {
            Some(g) => {
                let compatible = list_compatible_releases(releases, g);
                proof {
                    let perm = choose|perm: Seq<int>| crate::releases::permuted_by(derefs(compatible@), fitting(releases@, g@), perm)
                        && (forall|i: int, j: int| 0 <= i < j < derefs(compatible@).len() ==>
                            crate::version::key_lt(crate::releases::release_key(derefs(compatible@)[j]), crate::releases::release_key(derefs(compatible@)[i]))
                            || (crate::releases::release_key(derefs(compatible@)[i]) == crate::releases::release_key(derefs(compatible@)[j]) && perm[i] < perm[j]));
                    assert(derefs(compatible@).len() == fitting(releases@, g@).len());
                }
                if compatible.len() > 0 {
                    assert(derefs(compatible@)[0] == *compatible@[0]);
                    Some(compatible[0])
                } else {
                    None
                }
            },
            None => {
                if releases.len() > 0 {
                    Some(&releases[0])
                } else {
                    None
                }
            },
        },
    }
}

/// What to do with a linked addon's link in the project.
#[derive(PartialEq, Eq, Structural, Debug, Clone, Copy)]
pub enum LinkStep {
    /// Something other than a link stands there: leave it.
    Conflict,
    /// The link already points at the stored copy.
    Current,
    /// Make the link (anew).
    Create,
}

/// The step for a linked addon's place in the project: whether anything is
/// there, whether it is a link, and whether the link could be read and
/// points at the addon's stored copy.
pub fn link_step(exists: bool, is_symlink: bool, points_there: bool) -> (s: LinkStep)
    ensures
        s == (if !exists { LinkStep::Create } else if !is_symlink { LinkStep::Conflict } else if points_there {
            LinkStep::Current } else { LinkStep::Create }),
{
    if !exists {
        LinkStep::Create
    } else if !is_symlink {
        LinkStep::Conflict
    } else if points_there {
        LinkStep::Current
    } else {
        LinkStep::Create
    }
}

/// What sync does with one global addon in a project.
#[derive(Debug)]
pub enum GlobalStep {
    /// The project opted out of it.
    Excluded,
    /// Its folder is already in the project.
    Present,
    /// Its identifier has no `/`.
    Invalid,
    /// It comes from a repository other than the official store, and is
    /// not stored: it cannot be fetched here.
    ThirdParty,
    /// Fetch a release of `publisher/asset`.
    Fetch { publisher: String, asset: String },
}

/// The official asset store, the repository global addons are fetched from.
pub open spec fn official_store() -> Seq<char> {
    "https://store.godotengine.org"@
}

/// Decides what sync does with the global addon `identifier` (one of the
/// registered global addons) in the project `project_key`: skipped where
/// the project opted out, where its folder is `present`, where the
/// identifier is invalid or where it names a repository other than the
/// official store (an empty repository counts as the store); else fetched.
pub fn global_sync_step(config: &Config, identifier: &str, project_key: &str, present: bool) -> (s: GlobalStep)
    requires
        config.addons.globals@.contains_key(identifier@),
    ensures
        excluded(*config, identifier@, project_key@) ==> s is Excluded,
        !excluded(*config, identifier@, project_key@) && present ==> s is Present,
        !excluded(*config, identifier@, project_key@) && !present ==> match identifier_parts(identifier@) {
            None => s is Invalid,
            Some((p, a)) => {
                let repo = config.addons.globals@[identifier@].repository@;
                if repo != official_store() && repo.len() != 0 {
                    s is ThirdParty
                } else {
                    s matches GlobalStep::Fetch { publisher, asset } && publisher@ == p && asset@ == a
                }
            },
        },
{
    if is_excluded(config, identifier, project_key) {
        return GlobalStep::Excluded;
    }
    if present {
        return GlobalStep::Present;
    }
    let (publisher, asset) = match split_identifier(identifier) {
        Some(parts) => parts,
        None => {
            return GlobalStep::Invalid;
        },
    };
    let info = match config.addons.globals.get(identifier) {
        Some(i) => i,
        None => {
            return GlobalStep::Invalid;
        },
    };
    let repo = chars_of(info.repository.as_str());
    let store = chars_of("https://store.godotengine.org");
    if !chars_eq(repo.as_slice(), store.as_slice()) && repo.len() != 0 {
        GlobalStep::ThirdParty
    } else {
        GlobalStep::Fetch { publisher, asset }
    }
}

/// The visited names after visiting `name`: added at the end unless there.
pub open spec fn after_visit(v: Seq<Seq<char>>, name: Seq<char>) -> Seq<Seq<char>> {
    if v.contains(name) { v } else { v.push(name) }
}

/// Marks `name` as visited; `true` when it had not been (each addon's own
/// dependencies are walked once, which stops dependency cycles).
pub fn visit(visited: &mut Vec<String>, name: &str) -> (fresh: bool)
    ensures
        fresh == !string_views(old(visited)@).contains(name@),
        string_views(final(visited)@) == after_visit(string_views(old(visited)@), name@),
{
    let k = chars_of(name);
    let mut i: usize = 0;
    while i < visited.len()
        invariant
            i <= visited@.len(),
            k@ == name@,
            forall|j: int| 0 <= j < i ==> visited@[j]@ != name@,
        decreases visited.len() - i,
    {
        if chars_eq(chars_of(visited[i].as_str()).as_slice(), k.as_slice()) {
            assert(string_views(visited@)[i as int] == name@);
            return false;
        }
        i = i + 1;
    }
    assert(!string_views(visited@).contains(name@)) by {
        assert forall|j: int| 0 <= j < string_views(visited@).len() implies string_views(visited@)[j] != name@ by {
            assert(string_views(visited@)[j] == visited@[j]@);
        }
    }
    let ghost before = visited@;
    visited.push(String::from_str(name));
    assert(string_views(visited@) =~= string_views(before).push(name@));
    true
}

/// Where a dependency declared by an addon comes from.
#[derive(PartialEq, Eq, Structural, Debug, Clone, Copy)]
pub enum DepSource {
    /// The project tracks it and its folder is there.
    Present,
    /// Link it from the global store, where it is kept.
    Store,
    /// Download it from a repository.
    Repository,
}

/// The source of a declared dependency: none needed when the project's
/// `.gdio` tracks it and its folder exists; else the global store when it
/// holds the addon, else a repository.
pub fn dependency_source(in_gdio: bool, folder_exists: bool, stored: bool) -> (s: DepSource)
    ensures
        s == (if in_gdio && folder_exists { DepSource::Present } else if stored { DepSource::Store } else {
            DepSource::Repository }),
{
    if in_gdio && folder_exists {
        DepSource::Present
    } else if stored {
        DepSource::Store
    } else {
        DepSource::Repository
    }
}

} // verus!
