//! Listing addons: those installed in a project's `addons/` directory, by
//! name, and the globally linked ones.
use vstd::prelude::*;
use crate::text::{chars_of, pad_right, push_padded, push_str};
use crate::numparse::{decimal, push_decimal};
use crate::releases::permuted_by;
use crate::config::{Config, LinkedAddonInfo};
use crate::platform::string_views;

verus! {

/// `a` comes before `b` in code point order (as byte order of UTF-8 names).
pub open spec fn lex_lt(a: Seq<char>, b: Seq<char>) -> bool
    decreases a.len(),
{
    if a.len() == 0 {
        b.len() > 0
    } else if b.len() == 0 {
        false
    } else if a[0] != b[0] {
        (a[0] as u32) < (b[0] as u32)
    } else {
        lex_lt(a.drop_first(), b.drop_first())
    }
}

pub(crate) proof fn lemma_lex_irreflexive(a: Seq<char>)
    ensures
        !lex_lt(a, a),
    decreases a.len(),
{
    if a.len() > 0 {
        lemma_lex_irreflexive(a.drop_first());
    }
}

pub(crate) proof fn lemma_lex_trans(a: Seq<char>, b: Seq<char>, c: Seq<char>)
    requires
        lex_lt(a, b),
        lex_lt(b, c),
    ensures
        lex_lt(a, c),
    decreases a.len(),
{
    if a.len() > 0 && b.len() > 0 && c.len() > 0 && a[0] == b[0] && b[0] == c[0] {
        lemma_lex_trans(a.drop_first(), b.drop_first(), c.drop_first());
    }
}

proof fn lemma_lex_total(a: Seq<char>, b: Seq<char>)
    ensures
        a == b || lex_lt(a, b) || lex_lt(b, a),
    decreases a.len(),
{
    if a.len() > 0 && b.len() > 0 && a[0] == b[0] {
        lemma_lex_total(a.drop_first(), b.drop_first());
        if a.drop_first() == b.drop_first() {
            assert(a =~= b) by {
                assert forall|i: int| 0 <= i < a.len() implies a[i] == b[i] by {
                    if i > 0 {
                        assert(a[i] == a.drop_first()[i - 1]);
                        assert(b[i] == b.drop_first()[i - 1]);
                    }
                }
            }
        }
    } else if a.len() == 0 && b.len() == 0 {
        assert(a =~= b);
    } else if a.len() > 0 && b.len() > 0 {
        assert((a[0] as u32) != (b[0] as u32)) by {
            vstd::utf8::char_u32_cast(a[0], a[0] as u32);
            vstd::utf8::char_u32_cast(b[0], b[0] as u32);
        }
    }
}

fn lex_less(a: &[char], b: &[char]) -> (r: bool)
    ensures
        r == lex_lt(a@, b@),
{
    let mut i: usize = 0;
    assert(a@.skip(0) == a@);
    assert(b@.skip(0) == b@);
    while i < a.len() && i < b.len() && a[i] == b[i]
        invariant
            i <= a@.len(),
            i <= b@.len(),
            lex_lt(a@.skip(i as int), b@.skip(i as int)) == lex_lt(a@, b@),
        decreases a.len() - i,
    {
        assert(a@.skip(i as int).drop_first() == a@.skip(i + 1));
        assert(b@.skip(i as int).drop_first() == b@.skip(i + 1));
        i = i + 1;
    }
    if i == a.len() {
        i < b.len()
    } else if i == b.len() {
        false
    } else {
        (a[i] as u32) < (b[i] as u32)
    }
}

/// `out` holds the entries of `src` in name order, entries with equal names
/// keeping their order.
pub open spec fn sorted_by_name(out: Seq<(String, bool)>, src: Seq<(String, bool)>) -> bool {
    exists|perm: Seq<int>| {
        &&& permuted_by(out, src, perm)
        &&& forall|i: int, j: int| 0 <= i < j < out.len() ==>
            lex_lt(out[i].0@, out[j].0@) || (out[i].0@ == out[j].0@ && perm[i] < perm[j])
    }
}

spec fn name_order(ns: Seq<Seq<char>>, ord: Seq<usize>) -> bool {
    forall|a: int, b: int| 0 <= a < b < ord.len() ==>
        lex_lt(ns[#[trigger] ord[a] as int], ns[#[trigger] ord[b] as int])
        || (ns[ord[a] as int] == ns[ord[b] as int] && ord[a] < ord[b])
}

proof fn lemma_insert_by_name(ns: Seq<Seq<char>>, prev: Seq<usize>, p: int, m: usize)
    requires
        name_order(ns, prev),
        0 <= p <= prev.len(),
        m < ns.len(),
        forall|a: int| 0 <= a < prev.len() ==> #[trigger] prev[a] < m,
        forall|a: int| 0 <= a < p ==> !lex_lt(ns[m as int], ns[#[trigger] prev[a] as int]),
        p < prev.len() ==> lex_lt(ns[m as int], ns[prev[p] as int]),
    ensures
        name_order(ns, prev.insert(p, m)),
{
    let new = prev.insert(p, m);
    assert forall|a: int, b: int| 0 <= a < b < new.len() implies
        lex_lt(ns[#[trigger] new[a] as int], ns[#[trigger] new[b] as int])
        || (ns[new[a] as int] == ns[new[b] as int] && new[a] < new[b]) by {
        if b == p {
            assert(new[a] == prev[a]);
            lemma_lex_total(ns[prev[a] as int], ns[m as int]);
        } else if a == p {
            assert(new[b] == prev[b - 1]);
            if b - 1 > p {
                if lex_lt(ns[prev[p] as int], ns[prev[b - 1] as int]) {
                    lemma_lex_trans(ns[m as int], ns[prev[p] as int], ns[prev[b - 1] as int]);
                }
            }
        } else if b < p {
            assert(new[a] == prev[a] && new[b] == prev[b]);
        } else if a < p {
            assert(new[a] == prev[a] && new[b] == prev[b - 1]);
        } else {
            assert(new[a] == prev[a - 1] && new[b] == prev[b - 1]);
        }
    }
}

/// `ord` lists every index below `n` once, names in order and equal names
/// by index.
pub open spec fn is_name_order(ns: Seq<Seq<char>>, ord: Seq<usize>) -> bool {
    &&& ord.len() == ns.len()
    &&& forall|a: int| 0 <= a < ord.len() ==> #[trigger] ord[a] < ns.len()
    &&& forall|a: int, b: int| 0 <= a < b < ord.len() ==> ord[a] != ord[b]
    &&& forall|a: int, b: int| 0 <= a < b < ord.len() ==>
        lex_lt(ns[#[trigger] ord[a] as int], ns[#[trigger] ord[b] as int])
        || (ns[ord[a] as int] == ns[ord[b] as int] && ord[a] < ord[b])
}

/// The order that sorts `names` (stable insertion sort).
pub fn name_order_of(names: &Vec<Vec<char>>) -> (order: Vec<usize>)
    ensures
        is_name_order(names@.map_values(|v: Vec<char>| v@), order@),
{
    let n = names.len();
    let ghost ns = names@.map_values(|v: Vec<char>| v@);
    let mut order: Vec<usize> = Vec::new();
    let mut m: usize = 0;
    while m < n
        invariant
            n == names@.len() == ns.len(),
            ns == names@.map_values(|v: Vec<char>| v@),
            m <= n,
            order@.len() == m,
            forall|a: int| 0 <= a < m ==> #[trigger] order@[a] < m,
            forall|a: int, b: int| 0 <= a < b < m ==> order@[a] != order@[b],
            name_order(ns, order@),
        decreases n - m,
    {
        let mut p: usize = 0;
        while p < order.len() && !lex_less(names[m].as_slice(), names[order[p]].as_slice())
            invariant
                p <= order@.len() == m,
                m < n == names@.len() == ns.len(),
                ns == names@.map_values(|v: Vec<char>| v@),
                forall|a: int| 0 <= a < m ==> #[trigger] order@[a] < m,
                forall|a: int| 0 <= a < p ==> !lex_lt(ns[m as int], ns[#[trigger] order@[a] as int]),
            decreases order.len() - p,
        {
            p = p + 1;
        }
        proof { lemma_insert_by_name(ns, order@, p as int, m); }
        let ghost prev = order@;
        order.insert(p, m);
        proof {
            assert forall|a: int, b: int| 0 <= a < b < order@.len() implies order@[a] != order@[b] by {
                if a < p && b < p {
                    assert(order@[a] == prev[a] && order@[b] == prev[b]);
                } else if a < p && b == p {
                    assert(order@[a] == prev[a]);
                } else if a < p {
                    assert(order@[a] == prev[a] && order@[b] == prev[b - 1]);
                } else if a == p {
                    assert(order@[b] == prev[b - 1]);
                } else {
                    assert(order@[a] == prev[a - 1] && order@[b] == prev[b - 1]);
                }
            }
            assert forall|a: int| 0 <= a < m + 1 implies #[trigger] order@[a] < m + 1 by {
                if a < p {
                    assert(order@[a] == prev[a]);
                } else if a > p {
                    assert(order@[a] == prev[a - 1]);
                }
            }
        }
        m = m + 1;
    }
    order
}

/// Sorts directory entries (name, is a link) by name, keeping the order of
/// equal names.
pub fn sort_by_name(entries: &[(String, bool)]) -> (out: Vec<(String, bool)>)
    ensures
        sorted_by_name(out@, entries@),
{
    let n = entries.len();
    let mut names: Vec<Vec<char>> = Vec::new();
    let mut k: usize = 0;
    while k < n
        invariant
            k <= n == entries@.len(),
            names@.len() == k,
            forall|j: int| 0 <= j < k ==> (#[trigger] names@[j])@ == entries@[j].0@,
        decreases n - k,
    {
        names.push(chars_of(entries[k].0.as_str()));
        k = k + 1;
    }
    let ghost ns = names@.map_values(|v: Vec<char>| v@);
    let order = name_order_of(&names);
    let mut out: Vec<(String, bool)> = Vec::new();
    let mut q: usize = 0;
    while q < n
        invariant
            n == entries@.len() == order@.len(),
            q <= n,
            out@.len() == q,
            forall|a: int| 0 <= a < n ==> #[trigger] order@[a] < n,
            forall|a: int| 0 <= a < q ==> out@[a] == entries@[#[trigger] order@[a] as int],
        decreases n - q,
    {
        let e = &entries[order[q]];
        out.push((e.0.clone(), e.1));
        q = q + 1;
    }
    let ghost perm = order@.map_values(|x: usize| x as int);
    assert(permuted_by(out@, entries@, perm));
    assert forall|i: int, j: int| 0 <= i < j < out@.len() implies
        lex_lt(out@[i].0@, out@[j].0@) || (out@[i].0@ == out@[j].0@ && perm[i] < perm[j]) by {
        assert(out@[i].0@ == ns[order@[i] as int]);
        assert(out@[j].0@ == ns[order@[j] as int]);
    }
    out
}

/// Line listing a linked addon: identifier, version, folder and number of projects.
pub open spec fn linked_line(ident: Seq<char>, info: LinkedAddonInfo) -> Seq<char> {
    "  "@ + pad_right(ident, 30) + " v"@ + pad_right(info.version@, 10) + " "@ + info.folder_name@
        + " ("@ + decimal(info.projects@.len()) + " projects)"@
}

/// Line listing an addon installed in the project, marked when it links to
/// the global store.
pub open spec fn local_line(e: (String, bool)) -> Seq<char> {
    "  "@ + e.0@ + (if e.1 { " (global)"@ } else { ""@ })
}

/// What `gdio addons list --linked` prints: the linked addons of the registry.
pub open spec fn linked_listing(entries: Seq<(String, LinkedAddonInfo)>) -> Seq<Seq<char>> {
    if entries.len() == 0 {
        seq!["No linked addons registered."@]
    } else {
        seq!["Linked addons:"@] + entries.map_values(|e: (String, LinkedAddonInfo)| linked_line(e.0@, e.1))
    }
}

/// What `gdio addons list` prints for a project whose `addons/` directory
/// holds `sorted` (in name order).
pub open spec fn local_listing(sorted: Seq<(String, bool)>) -> Seq<Seq<char>> {
    if sorted.len() == 0 {
        seq!["No addons installed."@]
    } else {
        seq!["Installed addons:"@] + sorted.map_values(|e: (String, bool)| local_line(e))
    }
}

/// The lines `gdio addons list` prints. `local` holds the project's addon
/// directories (name, is a link to the global store), or `None` when the
/// project has no `addons/` directory; linked addons come in registry order.
pub fn run(config: &Config, linked: bool, local: Option<&[(String, bool)]>) -> (lines: Vec<String>)
    ensures
        linked ==> string_views(lines@) == linked_listing(config.addons.linked.entry_seq()),
        !linked ==> match local {
            None => string_views(lines@) == seq!["No addons directory found."@],
            Some(es) => exists|sorted: Seq<(String, bool)>|
                sorted_by_name(sorted, es@) && string_views(lines@) == #[trigger] local_listing(sorted),
        },
{
    let mut lines: Vec<String> = Vec::new();
    if linked {
        let entries = config.addons.linked.entries();
        if entries.len() == 0 {
            lines.push(String::from_str("No linked addons registered."));
            assert(string_views(lines@) =~= linked_listing(config.addons.linked.entry_seq()));
            return lines;
        }
        lines.push(String::from_str("Linked addons:"));
        let mut i: usize = 0;
        while i < entries.len()
            invariant
                i <= entries@.len(),
                entries@.len() > 0,
                string_views(lines@) =~= seq!["Linked addons:"@]
                    + entries@.take(i as int).map_values(|e: (String, LinkedAddonInfo)| linked_line(e.0@, e.1)),
            decreases entries.len() - i,
        {
            let mut line = String::from_str("  ");
            push_padded(&mut line, entries[i].0.as_str(), 30);
            push_str(&mut line, " v");
            push_padded(&mut line, entries[i].1.version.as_str(), 10);
            push_str(&mut line, " ");
            push_str(&mut line, entries[i].1.folder_name.as_str());
            push_str(&mut line, " (");
            push_decimal(&mut line, entries[i].1.projects.len() as u64);
            push_str(&mut line, " projects)");
            let ghost before = lines@;
            lines.push(line);
            assert(string_views(lines@) =~= string_views(before).push(linked_line(entries@[i as int].0@, entries@[i as int].1)));
            assert(entries@.take(i + 1) =~= entries@.take(i as int).push(entries@[i as int]));
            i = i + 1;
        }
        assert(entries@.take(entries@.len() as int) == entries@);
        return lines;
    }
    match local {
        None => {
            lines.push(String::from_str("No addons directory found."));
            assert(string_views(lines@) =~= seq!["No addons directory found."@]);
            lines
        },
        Some(es) => {
            let sorted = sort_by_name(es);
            if es.len() == 0 {
                lines.push(String::from_str("No addons installed."));
                assert(sorted@.len() == 0);
                assert(string_views(lines@) =~= local_listing(sorted@));
                return lines;
            }
            lines.push(String::from_str("Installed addons:"));
            let mut i: usize = 0;
            while i < sorted.len()
                invariant
                    i <= sorted@.len(),
                    string_views(lines@) =~= seq!["Installed addons:"@]
                        + sorted@.take(i as int).map_values(|e: (String, bool)| local_line(e)),
                decreases sorted.len() - i,
            {
                let mut line = String::from_str("  ");
                push_str(&mut line, sorted[i].0.as_str());
                if sorted[i].1 {
                    push_str(&mut line, " (global)");
                } else {
                    proof { reveal_strlit(""); }
                    assert(line@ =~= line@ + ""@);
                }
                let ghost before = lines@;
                lines.push(line);
                assert(string_views(lines@) =~= string_views(before).push(local_line(sorted@[i as int])));
                assert(sorted@.take(i + 1) =~= sorted@.take(i as int).push(sorted@[i as int]));
                i = i + 1;
            }
            assert(sorted@.take(sorted@.len() as int) == sorted@);
            assert(string_views(lines@) == local_listing(sorted@));
            lines
        },
    }
}

} // verus!
