//! The GitHub Actions workflows `gdio ci` writes into a project.
use vstd::prelude::*;
use crate::text::{chars_of, find, find_in, push_chars, push_str};
use crate::version::{parse_version_flavor, version_flavor};

verus! {

/// `s` with every occurrence of `p` (left to right, not overlapping)
/// replaced by `r`, as `str::replace` does for a non-empty `p`.
pub open spec fn replaced(s: Seq<char>, p: Seq<char>, r: Seq<char>) -> Seq<char>
    recommends
        p.len() > 0,
    decreases s.len(),
{
    if p.len() == 0 {
        s
    } else {
        match find(s, p) {
            Some(i) => if 0 <= i && i + p.len() <= s.len() {
                s.take(i) + r + replaced(s.skip(i + p.len()), p, r)
            } else {
                s
            },
            None => s,
        }
    }
}

/// Replaces every occurrence of the non-empty `p` in `s` by `r`.
pub fn replace_all(s: &str, p: &str, r: &str) -> (out: String)
    requires
        p@.len() > 0,
    ensures
        out@ == replaced(s@, p@, r@),
{
    let pc = chars_of(p);
    let rc = chars_of(r);
    let mut rest: Vec<char> = chars_of(s);
    let mut out = String::new();
    loop
        invariant
            pc@ == p@,
            rc@ == r@,
            p@.len() > 0,
            out@ + replaced(rest@, p@, r@) == replaced(s@, p@, r@),
        decreases rest@.len(),
    {
        match find_in(rest.as_slice(), pc.as_slice()) {
            Some(i) => {
                let n = rest.len();
                assert(find(rest@, p@) == Some(i as int));
                assert(i + p@.len() <= rest@.len());
                let before = vstd::slice::slice_to_vec(&rest.as_slice()[0..i]);
                let after = vstd::slice::slice_to_vec(&rest.as_slice()[i + pc.len()..n]);
                assert(before@ == rest@.take(i as int));
                assert(after@ == rest@.skip(i + p@.len()));
                let ghost o0 = out@;
                push_chars(&mut out, before.as_slice());
                push_chars(&mut out, rc.as_slice());
                assert(out@ + replaced(after@, p@, r@) =~= o0 + replaced(rest@, p@, r@));
                rest = after;
            },
            None => {
                let ghost o0 = out@;
                push_chars(&mut out, rest.as_slice());
                assert(out@ == o0 + replaced(rest@, p@, r@));
                return out;
            },
        }
    }
}

/// The release of the engine the workflows install: `<base>.<flavor>` of
/// the bound editor's version, whether it is a C# build, and whether the
/// Godot Secure workflow is written too (stable releases only).
pub open spec fn ci_target(version: Seq<char>) -> (Seq<char>, bool) {
    let (base, flavor) = version_flavor(version);
    (base + "."@ + flavor, flavor == "stable"@)
}

/// A workflow template with `{tag}` and `{csharp_bool}` filled in.
pub open spec fn filled_workflow(template: Seq<char>, tag: Seq<char>, csharp: bool) -> Seq<char> {
    replaced(replaced(template, "{tag}"@, tag), "{csharp_bool}"@, if csharp { "true"@ } else { "false"@ })
}

/// The engine release tag of the workflows, and whether the Godot Secure
/// workflow is written, for an editor of version `version`.
pub fn ci_tag(version: &str) -> (r: (String, bool))
    ensures
        (r.0@, r.1) == ci_target(version@),
{
    let (base, flavor) = parse_version_flavor(version);
    let mut tag = base;
    push_str(&mut tag, ".");
    push_str(&mut tag, flavor.as_str());
    let stable = crate::text::chars_eq(chars_of(flavor.as_str()).as_slice(), chars_of("stable").as_slice());
    (tag, stable)
}

/// A workflow file from its template.
pub fn fill_workflow(template: &str, tag: &str, csharp: bool) -> (r: String)
    ensures
        r@ == filled_workflow(template@, tag@, csharp),
{
    proof {
        reveal_strlit("{tag}");
        reveal_strlit("{csharp_bool}");
    }
    let step = replace_all(template, "{tag}", tag);
    replace_all(step.as_str(), "{csharp_bool}", if csharp { "true" } else { "false" })
}

} // verus!
