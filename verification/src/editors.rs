//! Registering editors (`gdio add`): downloaded editors under their
//! version, local binaries under a name the user picks.
use vstd::prelude::*;
use vstd::slice::slice_to_vec;
use crate::text::{chars_of, chars_eq, contains, contains_in, lowercase, pad_right, push_padded, push_str, string_of_all, to_lowercase, trim_start_char};
use crate::numparse::{decimal, push_decimal};
use crate::addon_list::{is_name_order, name_order_of};
use crate::platform::{mono_dir_suffix, platform_dir_suffix, TargetOs};
use crate::config::{editor_key, same_tools_and_addons, versions_match, Config, EditorInfo, EditorSource};

verus! {

/// Some registered editor's key matches `key` (see `versions_match`).
pub open spec fn has_editor_for(c: Config, key: Seq<char>) -> bool {
    exists|k: Seq<char>| #[trigger] c.editors@.contains_key(k) && versions_match(k, key)
}

/// Name of a downloaded editor: `Godot v<key>`, with `-csharp` for C# builds.
pub open spec fn downloaded_name(key: Seq<char>, csharp: bool) -> Seq<char> {
    "Godot v"@ + key + (if csharp { "-csharp"@ } else { ""@ })
}

pub(crate) proof fn lemma_matches_itself(k: Seq<char>)
    ensures
        versions_match(k, k),
{
    let s = trim_start_char(k, 'v');
    assert(s.take(s.len() as int) =~= s);
}

/// Registers a downloaded editor found at `exe_path` under `version_key`
/// (`<version>-<stage>`), unless an editor matching that key is registered
/// already; returns the editor registered.
pub fn register_downloaded_editor(config: &mut Config, exe_path: String, version_key: &str, is_mono: bool, csharp: bool)
    -> (r: Option<EditorInfo>)
    ensures
        has_editor_for(*old(config), version_key@) ==> r is None && final(config).editors@ == old(config).editors@,
        !has_editor_for(*old(config), version_key@) ==> (r matches Some(e) && {
            &&& e.name@ == downloaded_name(version_key@, csharp)
            &&& e.path == exe_path
            &&& e.version@ == version_key@
            &&& e.is_mono == (csharp || is_mono)
            &&& e.source == EditorSource::Downloaded
            &&& final(config).editors@ == old(config).editors@.insert(editor_key(e), e)
        }),
        final(config).projects@ == old(config).projects@,
        final(config).recent_project == old(config).recent_project,
        same_tools_and_addons(*final(config), *old(config)),
        final(config).projects == old(config).projects,
        final(config).recent_project == old(config).recent_project,
{
    if config.find_editor_for_version(version_key).is_some() {
        proof {
            if !config.editors@.contains_key(version_key@) {
                let k = choose|k: Seq<char>| #[trigger] config.editors@.contains_key(k) && versions_match(k, version_key@);
            } else {
                lemma_matches_itself(version_key@);
            }
        }
        return None;
    }
    let mut name = String::from_str("Godot v");
    push_str(&mut name, version_key);
    if csharp {
        push_str(&mut name, "-csharp");
    } else {
        proof { reveal_strlit(""); }
        assert(name@ =~= "Godot v"@ + version_key@ + ""@);
    }
    let editor = EditorInfo {
        name,
        path: exe_path,
        version: version_key.to_owned(),
        is_mono: csharp || is_mono,
        source: EditorSource::Downloaded,
    };
    let registered = editor.clone();
    config.register_editor(editor);
    Some(registered)
}

/// Directory a downloaded editor is unpacked to:
/// `Godot_v<version>[-<stage>]_<platform suffix>`.
pub open spec fn editor_dir(version: Seq<char>, stage: Option<Seq<char>>, csharp: bool, os: TargetOs) -> Seq<char> {
    let suffix = if csharp {
        match os {
            TargetOs::Windows => "mono_win64"@,
            TargetOs::Linux => "mono_linux"@,
            TargetOs::MacOs => "mono_macos"@,
            TargetOs::Other => "unknown"@,
        }
    } else {
        match os {
            TargetOs::Windows => "win64"@,
            TargetOs::Linux => "linux"@,
            TargetOs::MacOs => "macos"@,
            TargetOs::Other => "unknown"@,
        }
    };
    "Godot_v"@ + version + (match stage { Some(s) => "-"@ + s, None => ""@ }) + "_"@ + suffix
}

/// The directory name a downloaded editor is unpacked to.
pub fn editor_dir_name(version: &str, stage: Option<&str>, csharp: bool, os: TargetOs) -> (r: String)
    ensures
        r@ == editor_dir(version@, match stage { Some(s) => Some(s@), None => None }, csharp, os),
{
    let mut r = String::from_str("Godot_v");
    push_str(&mut r, version);
    match stage {
        Some(s) => {
            push_str(&mut r, "-");
            push_str(&mut r, s);
        },
        None => {
            proof { reveal_strlit(""); }
            assert(r@ =~= r@ + ""@);
        },
    }
    push_str(&mut r, "_");
    if csharp {
        push_str(&mut r, mono_dir_suffix(os));
    } else {
        push_str(&mut r, platform_dir_suffix(os));
    }
    r
}

/// A quote character (`"` or `'`).
pub open spec fn is_quote(c: char) -> bool {
    c == '"' || c == '\''
}

/// `s` without leading quotes.
pub open spec fn trim_start_quotes(s: Seq<char>) -> Seq<char>
    decreases s.len(),
{
    if s.len() > 0 && is_quote(s[0]) { trim_start_quotes(s.drop_first()) } else { s }
}

/// `s` without trailing quotes.
pub open spec fn trim_end_quotes(s: Seq<char>) -> Seq<char>
    decreases s.len(),
{
    if s.len() > 0 && is_quote(s.last()) { trim_end_quotes(s.drop_last()) } else { s }
}

/// A path as typed, without the quotes around it.
pub fn unquoted_path(path: &str) -> (r: String)
    ensures
        r@ == trim_end_quotes(trim_start_quotes(path@)),
{
    let s = chars_of(path);
    let mut i: usize = 0;
    assert(s@.skip(0) == s@);
    while i < s.len() && (s[i] == '"' || s[i] == '\'')
        invariant
            i <= s@.len(),
            trim_start_quotes(s@.skip(i as int)) == trim_start_quotes(s@),
        decreases s.len() - i,
    {
        assert(s@.skip(i as int).drop_first() == s@.skip(i + 1));
        i = i + 1;
    }
    let t = slice_to_vec(&s.as_slice()[i..s.len()]);
    assert(t@ == trim_start_quotes(s@));
    let mut j: usize = t.len();
    assert(t@.take(j as int) == t@);
    while j > 0 && (t[j - 1] == '"' || t[j - 1] == '\'')
        invariant
            j <= t@.len(),
            trim_end_quotes(t@.take(j as int)) == trim_end_quotes(t@),
        decreases j,
    {
        assert(t@.take(j as int).drop_last() == t@.take(j - 1));
        j = j - 1;
    }
    let u = &t.as_slice()[0..j];
    assert(u@ == t@.take(j as int));
    string_of_all(u)
}

/// A registered editor called `name`, if any (`None` when no editor has
/// that name).
pub fn editor_named<'a>(config: &'a Config, name: &str) -> (r: Option<&'a EditorInfo>)
    ensures
        r matches Some(e) ==> e.name@ == name@ && exists|k: Seq<char>| #[trigger] config.editors@.contains_key(k)
            && config.editors@[k] == *e,
        r is None ==> forall|k: Seq<char>| #[trigger] config.editors@.contains_key(k) ==> config.editors@[k].name@ != name@,
{
    let entries = config.editors.entries();
    let n = chars_of(name);
    let mut i: usize = 0;
    while i < entries.len()
        invariant
            i <= entries@.len(),
            n@ == name@,
            entries@ == config.editors.entry_seq(),
            forall|k: Seq<char>| #[trigger] config.editors@.contains_key(k) ==>
                exists|j: int| 0 <= j < entries@.len() && (#[trigger] entries@[j]).0@ == k,
            forall|j: int| 0 <= j < entries@.len() ==>
                config.editors@.contains_key(#[trigger] entries@[j].0@) && config.editors@[entries@[j].0@] == entries@[j].1,
            forall|j: int| 0 <= j < i ==> (#[trigger] entries@[j]).1.name@ != name@,
        decreases entries.len() - i,
    {
        if chars_eq(chars_of(entries[i].1.name.as_str()).as_slice(), n.as_slice()) {
            assert(config.editors@.contains_key(entries@[i as int].0@));
            return Some(&entries[i].1);
        }
        i = i + 1;
    }
    assert forall|k: Seq<char>| #[trigger] config.editors@.contains_key(k) implies config.editors@[k].name@ != name@ by {
        let j = choose|j: int| 0 <= j < entries@.len() && (#[trigger] entries@[j]).0@ == k;
        assert(config.editors@[entries@[j].0@] == entries@[j].1);
    }
    None
}

/// What the user is told when the name they typed is taken:
/// `'<name>' taken by local|downloaded (<path>)`.
pub fn name_taken_message(existing: &EditorInfo, name: &str) -> (r: String)
    ensures
        r@ == "'"@ + name@ + "' taken by "@
            + (if existing.source == EditorSource::Local { "local"@ } else { "downloaded"@ }) + " ("@
            + existing.path@ + ")"@,
{
    let mut r = String::from_str("'");
    push_str(&mut r, name);
    push_str(&mut r, "' taken by ");
    match existing.source {
        EditorSource::Local => push_str(&mut r, "local"),
        EditorSource::Downloaded => push_str(&mut r, "downloaded"),
    }
    push_str(&mut r, " (");
    push_str(&mut r, existing.path.as_str());
    push_str(&mut r, ")");
    r
}

/// Registers the local editor binary `path` as `name`; local editors are
/// all registered under the key `local`.
pub fn register_local_editor(config: &mut Config, name: String, path: String) -> (e: EditorInfo)
    ensures
        e.name == name && e.path == path && e.version@ == "local"@ && !e.is_mono && e.source == EditorSource::Local,
        final(config).editors@ == old(config).editors@.insert("local"@, e),
        final(config).projects@ == old(config).projects@,
        final(config).recent_project == old(config).recent_project,
        same_tools_and_addons(*final(config), *old(config)),
        final(config).projects == old(config).projects,
        final(config).recent_project == old(config).recent_project,
{
    let editor = EditorInfo { name, path, version: String::from_str("local"), is_mono: false, source: EditorSource::Local };
    let registered = editor.clone();
    config.register_editor(editor);
    registered
}

/// The menu of editors to open a project with: every registered editor's
/// name, in the registry's order, then `[add editor]`.
pub fn editor_menu(config: &Config) -> (v: Vec<String>)
    ensures
        v@.len() == config.editors.entry_seq().len() + 1,
        forall|i: int| 0 <= i < config.editors.entry_seq().len() ==> #[trigger] v@[i] == config.editors.entry_seq()[i].1.name,
        v@[v@.len() - 1]@ == "[add editor]"@,
{
    let entries = config.editors.entries();
    let mut v: Vec<String> = Vec::new();
    let mut i: usize = 0;
    while i < entries.len()
        invariant
            i <= entries@.len(),
            entries@ == config.editors.entry_seq(),
            v@.len() == i,
            forall|j: int| 0 <= j < i ==> #[trigger] v@[j] == entries@[j].1.name,
        decreases entries.len() - i,
    {
        v.push(entries[i].1.name.clone());
        i = i + 1;
    }
    v.push(String::from_str("[add editor]"));
    v
}

/// An editor `gdio remove <target>` may mean: its key contains the
/// target, or its name contains it, case aside.
pub open spec fn removal_match(key: Seq<char>, e: EditorInfo, target: Seq<char>) -> bool {
    contains(key, target) || contains(lowercase(e.name@), lowercase(target))
}

/// The keys of the editors `gdio remove <target>` may mean, in the
/// registry's order.
pub fn removal_matches(config: &Config, target: &str) -> (v: Vec<String>)
    ensures
        v@.len() <= config.editors.entry_seq().len(),
        forall|i: int| 0 <= i < v@.len() ==> config.editors@.contains_key(#[trigger] v@[i]@)
            && removal_match(v@[i]@, config.editors@[v@[i]@], target@),
        forall|k: Seq<char>| #[trigger] config.editors@.contains_key(k) && removal_match(k, config.editors@[k], target@)
            ==> exists|i: int| 0 <= i < v@.len() && v@[i]@ == k,
{
    let entries = config.editors.entries();
    let t = chars_of(target);
    let lt = chars_of(to_lowercase(target).as_str());
    let mut v: Vec<String> = Vec::new();
    let mut i: usize = 0;
    while i < entries.len()
        invariant
            i <= entries@.len(),
            t@ == target@,
            lt@ == lowercase(target@),
            v@.len() <= i,
            entries@ == config.editors.entry_seq(),
            forall|j: int| 0 <= j < entries@.len() ==>
                config.editors@.contains_key(#[trigger] entries@[j].0@) && config.editors@[entries@[j].0@] == entries@[j].1,
            forall|k: Seq<char>| #[trigger] config.editors@.contains_key(k) ==>
                exists|j: int| 0 <= j < entries@.len() && (#[trigger] entries@[j]).0@ == k,
            forall|j: int| 0 <= j < v@.len() ==> config.editors@.contains_key(#[trigger] v@[j]@)
                && removal_match(v@[j]@, config.editors@[v@[j]@], target@),
            forall|j: int| 0 <= j < i && removal_match(entries@[j].0@, entries@[j].1, target@) ==>
                exists|x: int| 0 <= x < v@.len() && v@[x]@ == (#[trigger] entries@[j]).0@,
        decreases entries.len() - i,
    {
        let (key, e) = &entries[i];
        let name_lower = chars_of(to_lowercase(e.name.as_str()).as_str());
        if contains_in(chars_of(key.as_str()).as_slice(), t.as_slice()) || contains_in(name_lower.as_slice(), lt.as_slice()) {
            assert(config.editors@[entries@[i as int].0@] == entries@[i as int].1);
            let ghost before = v@;
            v.push(key.clone());
            assert(v@[before.len() as int]@ == entries@[i as int].0@);
            assert forall|j: int| 0 <= j < i + 1 && removal_match(entries@[j].0@, entries@[j].1, target@) implies
                exists|x: int| 0 <= x < v@.len() && v@[x]@ == (#[trigger] entries@[j]).0@ by {
                if j < i {
                    let x = choose|x: int| 0 <= x < before.len() && before[x]@ == entries@[j].0@;
                    assert(v@[x] == before[x]);
                } else {
                    assert(v@[before.len() as int]@ == entries@[j].0@);
                }
            }
        }
        i = i + 1;
    }
    assert forall|k: Seq<char>| #[trigger] config.editors@.contains_key(k) && removal_match(k, config.editors@[k], target@)
        implies exists|i: int| 0 <= i < v@.len() && v@[i]@ == k by {
        let j = choose|j: int| 0 <= j < entries@.len() && (#[trigger] entries@[j]).0@ == k;
        assert(config.editors@[entries@[j].0@] == entries@[j].1);
    }
    v
}

/// An editor `gdio bind <target>` may mean: its key contains the target,
/// or its name or version contains it, case aside.
pub open spec fn bind_match(key: Seq<char>, e: EditorInfo, target: Seq<char>) -> bool {
    contains(key, target) || contains(lowercase(e.name@), lowercase(target)) || contains(lowercase(e.version@), lowercase(target))
}

/// An editor `gdio bind <target>` may mean (the first in the registry's
/// order); `None` when no editor matches.
pub fn bind_candidate<'a>(config: &'a Config, target: &str) -> (r: Option<&'a EditorInfo>)
    ensures
        r matches Some(e) ==> exists|k: Seq<char>| #[trigger] config.editors@.contains_key(k)
            && config.editors@[k] == *e && bind_match(k, *e, target@),
        r is None ==> forall|k: Seq<char>| #[trigger] config.editors@.contains_key(k) ==> !bind_match(k, config.editors@[k], target@),
{
    let entries = config.editors.entries();
    let t = chars_of(target);
    let lt = chars_of(to_lowercase(target).as_str());
    let mut i: usize = 0;
    while i < entries.len()
        invariant
            i <= entries@.len(),
            t@ == target@,
            lt@ == lowercase(target@),
            entries@ == config.editors.entry_seq(),
            forall|j: int| 0 <= j < entries@.len() ==>
                config.editors@.contains_key(#[trigger] entries@[j].0@) && config.editors@[entries@[j].0@] == entries@[j].1,
            forall|k: Seq<char>| #[trigger] config.editors@.contains_key(k) ==>
                exists|j: int| 0 <= j < entries@.len() && (#[trigger] entries@[j]).0@ == k,
            forall|j: int| 0 <= j < i ==> !bind_match((#[trigger] entries@[j]).0@, entries@[j].1, target@),
        decreases entries.len() - i,
    {
        let (key, e) = &entries[i];
        let name_lower = chars_of(to_lowercase(e.name.as_str()).as_str());
        let version_lower = chars_of(to_lowercase(e.version.as_str()).as_str());
        if contains_in(chars_of(key.as_str()).as_slice(), t.as_slice())
            || contains_in(name_lower.as_slice(), lt.as_slice())
            || contains_in(version_lower.as_slice(), lt.as_slice()) {
            assert(config.editors@.contains_key(entries@[i as int].0@));
            return Some(e);
        }
        i = i + 1;
    }
    assert forall|k: Seq<char>| #[trigger] config.editors@.contains_key(k) implies !bind_match(k, config.editors@[k], target@) by {
        let j = choose|j: int| 0 <= j < entries@.len() && (#[trigger] entries@[j]).0@ == k;
        assert(config.editors@[entries@[j].0@] == entries@[j].1);
    }
    None
}

/// How an editor is shown in menus: `<name> (<version>)`.
pub open spec fn editor_label(e: EditorInfo) -> Seq<char> {
    e.name@ + " ("@ + e.version@ + ")"@
}

/// The label of an editor in menus and listings.
pub fn editor_label_of(e: &EditorInfo) -> (r: String)
    ensures
        r@ == editor_label(*e),
{
    let mut r = e.name.clone();
    push_str(&mut r, " (");
    push_str(&mut r, e.version.as_str());
    push_str(&mut r, ")");
    r
}

/// A line of `gdio list`: the label padded to 35 characters, then the path.
pub open spec fn editor_list_line(e: EditorInfo) -> Seq<char> {
    pad_right(editor_label(e), 35) + " "@ + e.path@
}

/// The versions of registry entries.
pub open spec fn editor_versions(es: Seq<(String, EditorInfo)>) -> Seq<Seq<char>> {
    es.map_values(|p: (String, EditorInfo)| p.1.version@)
}

/// The editor lines of `gdio list`, sorted by version (editors with equal
/// versions in the registry's order).
pub fn editor_listing(config: &Config) -> (v: Vec<String>)
    ensures
        v@.len() == config.editors.entry_seq().len(),
        exists|ord: Seq<usize>| {
            &&& #[trigger] is_name_order(editor_versions(config.editors.entry_seq()), ord)
            &&& forall|i: int| 0 <= i < v@.len() ==> #[trigger] v@[i]@ == editor_list_line(config.editors.entry_seq()[ord[i] as int].1)
        },
{
    let entries = config.editors.entries();
    let n = entries.len();
    let mut versions: Vec<Vec<char>> = Vec::new();
    let mut k: usize = 0;
    while k < n
        invariant
            k <= n == entries@.len(),
            versions@.len() == k,
            forall|j: int| 0 <= j < k ==> (#[trigger] versions@[j])@ == entries@[j].1.version@,
        decreases n - k,
    {
        versions.push(chars_of(entries[k].1.version.as_str()));
        k = k + 1;
    }
    let order = name_order_of(&versions);
    let ghost ns = versions@.map_values(|v: Vec<char>| v@);
    assert(ns =~= editor_versions(entries@));
    let mut v: Vec<String> = Vec::new();
    let mut q: usize = 0;
    while q < n
        invariant
            n == entries@.len() == order@.len(),
            q <= n,
            v@.len() == q,
            forall|a: int| 0 <= a < n ==> #[trigger] order@[a] < n,
            forall|a: int| 0 <= a < q ==> #[trigger] v@[a]@ == editor_list_line(entries@[order@[a] as int].1),
        decreases n - q,
    {
        let e = &entries[order[q]].1;
        let mut line = String::new();
        let label = editor_label_of(e);
        push_padded(&mut line, label.as_str(), 35);
        push_str(&mut line, " ");
        push_str(&mut line, e.path.as_str());
        v.push(line);
        q = q + 1;
    }
    v
}

/// The last line of `gdio list`: `Total: <n> editor(s)`.
pub fn editor_total_line(config: &Config) -> (r: String)
    ensures
        r@ == "Total: "@ + decimal(config.editors.entry_seq().len()) + " editor(s)"@,
{
    let mut r = String::from_str("Total: ");
    push_decimal(&mut r, config.editors.len() as u64);
    push_str(&mut r, " editor(s)");
    r
}

} // verus!
