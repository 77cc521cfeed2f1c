//! Installing an addon into a project (`gdio addons add`): the version
//! menu, and switching between a local copy and a link to the global store.
use vstd::prelude::*;
use crate::text::push_str;
use crate::releases::Release;

verus! {

/// A line of the version menu: `v<version> [<repository>]`, marked when
/// the release is a pre-release.
pub open spec fn release_menu_line(version: Seq<char>, repo_name: Seq<char>, stable: bool) -> Seq<char> {
    "v"@ + version + " ["@ + repo_name + "]"@ + (if stable { ""@ } else { " (pre-release)"@ })
}

/// The version menu of an addon: one line per (repository name, release).
pub fn release_menu(releases: &[(String, Release)]) -> (v: Vec<String>)
    ensures
        v@.len() == releases@.len(),
        forall|i: int| 0 <= i < v@.len() ==> #[trigger] v@[i]@ == release_menu_line(releases@[i].1.version@,
            releases@[i].0@, releases@[i].1.stable),
{
    let mut v: Vec<String> = Vec::new();
    let mut i: usize = 0;
    while i < releases.len()
        invariant
            i <= releases@.len(),
            v@.len() == i,
            forall|j: int| 0 <= j < i ==> #[trigger] v@[j]@ == release_menu_line(releases@[j].1.version@,
                releases@[j].0@, releases@[j].1.stable),
        decreases releases.len() - i,
    {
        let (repo, r) = &releases[i];
        let mut line = String::from_str("v");
        push_str(&mut line, r.version.as_str());
        push_str(&mut line, " [");
        push_str(&mut line, repo.as_str());
        push_str(&mut line, "]");
        if r.stable {
            proof { reveal_strlit(""); }
            assert(line@ + ""@ =~= line@);
        } else {
            push_str(&mut line, " (pre-release)");
        }
        v.push(line);
        i = i + 1;
    }
    v
}

/// How an existing installation changes before an addon is installed.
#[derive(Clone, Copy, Debug, PartialEq, Eq, Structural)]
pub enum ModeSwitch {
    /// It was linked and is now installed locally: the link, the `.gdio`
    /// entry and the project's reference go.
    ToLocal,
    /// It was a local copy and is now linked: the copy goes.
    ToLinked,
    /// Nothing to undo.
    Keep,
}

/// What to undo of the current installation: a linked addon (tracked in
/// the `.gdio`) installed locally is unlinked; a local copy (a folder is
/// known, not tracked) installed linked is removed.
pub fn mode_switch(currently_linked: bool, linked: bool, has_current_folder: bool) -> (r: ModeSwitch)
    ensures
        r == (if currently_linked && !linked {
            ModeSwitch::ToLocal
        } else if !currently_linked && linked && has_current_folder {
            ModeSwitch::ToLinked
        } else {
            ModeSwitch::Keep
        }),
{
    if currently_linked && !linked {
        ModeSwitch::ToLocal
    } else if !currently_linked && linked && has_current_folder {
        ModeSwitch::ToLinked
    } else {
        ModeSwitch::Keep
    }
}

} // verus!
