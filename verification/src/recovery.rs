//! Choosing what `gdio recover` hands to GDRE Tools: the game packs,
//! Android packages or game executables found in a directory.
use vstd::prelude::*;
use crate::text::{chars_of, chars_eq, contains, contains_in, lowercase, rfind_char, rfind_char_in, to_lowercase};
use crate::releases::permuted_by;
use crate::addon_list::{lex_lt, sort_by_name};

verus! {

/// `Path::extension` of a file name, empty when it has none: the text after
/// the last `.`, unless that `.` starts the name.
pub open spec fn extension(name: Seq<char>) -> Seq<char> {
    match rfind_char(name, '.') {
        Some(i) => if i > 0 { name.skip(i + 1) } else { Seq::empty() },
        None => Seq::empty(),
    }
}

/// What a file is worth to recovery: 0 for a `.pck`, 1 for an `.apk`, 2 for
/// an `.exe` whose name mentions `godot` or `game` (case aside), 3 otherwise.
pub open spec fn recover_kind(name: Seq<char>) -> int {
    let ext = lowercase(extension(name));
    if ext == "pck"@ {
        0
    } else if ext == "apk"@ {
        1
    } else if ext == "exe"@ && (contains(lowercase(name), "godot"@) || contains(lowercase(name), "game"@)) {
        2
    } else {
        3
    }
}

/// The files of one kind, in their order.
pub open spec fn of_kind(names: Seq<String>, k: int) -> Seq<String>
    decreases names.len(),
{
    if names.len() == 0 {
        Seq::empty()
    } else if recover_kind(names.last()@) == k {
        of_kind(names.drop_last(), k).push(names.last())
    } else {
        of_kind(names.drop_last(), k)
    }
}

/// The candidates: the packs if there are any, else the Android packages,
/// else the game executables.
pub open spec fn recover_candidates(names: Seq<String>) -> Seq<String> {
    if of_kind(names, 0).len() > 0 {
        of_kind(names, 0)
    } else if of_kind(names, 1).len() > 0 {
        of_kind(names, 1)
    } else {
        of_kind(names, 2)
    }
}

fn extension_of(name: &[char]) -> (r: Vec<char>)
    ensures
        r@ == extension(name@),
{
    match rfind_char_in(name, '.') {
        Some(i) => {
            if i > 0 {
                let n = name.len();
                let r = vstd::slice::slice_to_vec(&name[i + 1..n]);
                assert(r@ == name@.skip(i + 1));
                r
            } else {
                Vec::new()
            }
        },
        None => Vec::new(),
    }
}

fn kind_of(name: &str) -> (k: u8)
    ensures
        k as int == recover_kind(name@),
{
    let chars = chars_of(name);
    let ext = extension_of(chars.as_slice());
    let mut e = String::new();
    crate::text::push_chars(&mut e, ext.as_slice());
    let lower_ext = chars_of(to_lowercase(e.as_str()).as_str());
    if chars_eq(lower_ext.as_slice(), chars_of("pck").as_slice()) {
        0
    } else if chars_eq(lower_ext.as_slice(), chars_of("apk").as_slice()) {
        1
    } else if chars_eq(lower_ext.as_slice(), chars_of("exe").as_slice()) {
        let lower = chars_of(to_lowercase(name).as_str());
        if contains_in(lower.as_slice(), chars_of("godot").as_slice()) || contains_in(lower.as_slice(), chars_of("game").as_slice()) {
            2
        } else {
            3
        }
    } else {
        3
    }
}

fn files_of_kind(names: &[String], k: u8) -> (v: Vec<String>)
    ensures
        v@ == of_kind(names@, k as int),
{
    let mut v: Vec<String> = Vec::new();
    let mut i: usize = 0;
    assert(names@.take(0) =~= Seq::<String>::empty());
    while i < names.len()
        invariant
            i <= names@.len(),
            v@ == of_kind(names@.take(i as int), k as int),
        decreases names.len() - i,
    {
        assert(names@.take(i + 1).drop_last() == names@.take(i as int));
        assert(names@.take(i + 1).last() == names@[i as int]);
        if kind_of(names[i].as_str()) == k {
            v.push(names[i].clone());
        }
        i = i + 1;
    }
    assert(names@.take(names@.len() as int) == names@);
    v
}

/// The files of a directory (regular files' names) to offer for recovery:
/// the candidates (see `recover_candidates`) sorted by name, files with
/// equal names keeping their order.
pub fn find_recoverable_files(names: &[String]) -> (out: Vec<String>)
    ensures
        exists|perm: Seq<int>| {
            &&& permuted_by(out@, recover_candidates(names@), perm)
            &&& forall|i: int, j: int| 0 <= i < j < out@.len() ==>
                lex_lt(out@[i]@, out@[j]@) || (out@[i]@ == out@[j]@ && perm[i] < perm[j])
        },
{
    let pck = files_of_kind(names, 0);
    let group = if pck.len() > 0 {
        pck
    } else {
        let apk = files_of_kind(names, 1);
        if apk.len() > 0 {
            apk
        } else {
            files_of_kind(names, 2)
        }
    };
    let mut pairs: Vec<(String, bool)> = Vec::new();
    let mut i: usize = 0;
    while i < group.len()
        invariant
            i <= group@.len(),
            pairs@.len() == i,
            forall|j: int| 0 <= j < i ==> (#[trigger] pairs@[j]).0 == group@[j],
        decreases group.len() - i,
    {
        pairs.push((group[i].clone(), false));
        i = i + 1;
    }
    let sorted = sort_by_name(pairs.as_slice());
    let mut out: Vec<String> = Vec::new();
    let mut q: usize = 0;
    while q < sorted.len()
        invariant
            q <= sorted@.len(),
            out@.len() == q,
            forall|j: int| 0 <= j < q ==> out@[j] == (#[trigger] sorted@[j]).0,
        decreases sorted.len() - q,
    {
        out.push(sorted[q].0.clone());
        q = q + 1;
    }
    proof {
        let perm = choose|perm: Seq<int>| {
            &&& permuted_by(sorted@, pairs@, perm)
            &&& forall|i: int, j: int| 0 <= i < j < sorted@.len() ==>
                lex_lt(sorted@[i].0@, sorted@[j].0@) || (sorted@[i].0@ == sorted@[j].0@ && perm[i] < perm[j])
        };
        assert(group@ == recover_candidates(names@));
        assert forall|i: int| 0 <= i < out@.len() implies out@[i] == group@[#[trigger] perm[i]] by {
            assert(sorted@[i] == pairs@[perm[i]]);
        }
        assert(permuted_by(out@, group@, perm));
        assert forall|i: int, j: int| 0 <= i < j < out@.len() implies
            lex_lt(out@[i]@, out@[j]@) || (out@[i]@ == out@[j]@ && perm[i] < perm[j]) by {
            assert(out@[i] == sorted@[i].0 && out@[j] == sorted@[j].0);
        }
    }
    out
}

} // verus!
