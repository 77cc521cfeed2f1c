//! Addon releases offered by an asset repository, and the choice of those
//! that suit an engine version.
use vstd::prelude::*;
use crate::version::{compatible, is_version_compatible, key_lt, version_key};

verus! {

/// One published release of an addon.
#[derive(Clone, Debug)]
pub struct Release {
    pub download_url: String,
    pub version: String,
    pub stable: bool,
    pub min_godot_version: Option<String>,
    pub max_godot_version: Option<String>,
}

/// The release may be used with engine version `godot`: it is no older than
/// its minimum and no newer than its maximum engine version.
pub open spec fn release_fits(r: Release, godot: Seq<char>) -> bool {
    &&& (r.min_godot_version matches Some(m) ==> compatible(godot, m@, true))
    &&& (r.max_godot_version matches Some(m) ==> compatible(godot, m@, false))
}

/// Sort key of a release: its version key.
pub open spec fn release_key(r: Release) -> (int, int, int, int, int) {
    version_key(r.version@)
}

/// `out[i] == src[perm[i]]` for a permutation `perm` of the indices of `src`.
pub open spec fn permuted_by<T>(out: Seq<T>, src: Seq<T>, perm: Seq<int>) -> bool {
    &&& perm.len() == src.len()
    &&& out.len() == src.len()
    &&& forall|i: int| 0 <= i < perm.len() ==> 0 <= #[trigger] perm[i] < src.len()
    &&& forall|i: int, j: int| 0 <= i < j < perm.len() ==> perm[i] != perm[j]
    &&& forall|i: int| 0 <= i < out.len() ==> out[i] == src[#[trigger] perm[i]]
}

/// `out` is `src` sorted by key, highest first, equal keys keeping their order.
pub open spec fn sorted_desc_stable(out: Seq<Release>, src: Seq<Release>) -> bool {
    exists|perm: Seq<int>| {
        &&& permuted_by(out, src, perm)
        &&& forall|i: int, j: int| 0 <= i < j < out.len() ==>
            key_lt(release_key(out[j]), release_key(out[i]))
            || (release_key(out[i]) == release_key(out[j]) && perm[i] < perm[j])
    }
}

/// The releases a sequence of references points to.
pub open spec fn derefs(s: Seq<&Release>) -> Seq<Release> {
    s.map_values(|r: &Release| *r)
}

/// The releases that fit `godot`, in their original order.
pub open spec fn fitting(releases: Seq<Release>, godot: Seq<char>) -> Seq<Release> {
    releases.filter(|r: Release| release_fits(r, godot))
}

/// `ord` lists indices of `ks` from the highest key down, equal keys by index.
pub open spec fn sorted_order(ks: Seq<(int, int, int, int, int)>, ord: Seq<usize>) -> bool {
    forall|a: int, b: int| 0 <= a < b < ord.len() ==>
        key_lt(ks[#[trigger] ord[b] as int], ks[#[trigger] ord[a] as int])
        || (ks[ord[a] as int] == ks[ord[b] as int] && ord[a] < ord[b])
}

proof fn lemma_key_lt_trans(a: (int, int, int, int, int), b: (int, int, int, int, int), c: (int, int, int, int, int))
    requires
        key_lt(a, b),
        key_lt(b, c),
    ensures
        key_lt(a, c),
{
}

proof fn lemma_insert_sorted(ks: Seq<(int, int, int, int, int)>, prev: Seq<usize>, p: int, m: usize)
    requires
        sorted_order(ks, prev),
        0 <= p <= prev.len(),
        m < ks.len(),
        forall|a: int| 0 <= a < prev.len() ==> #[trigger] prev[a] < m,
        forall|a: int| 0 <= a < p ==> !key_lt(ks[#[trigger] prev[a] as int], ks[m as int]),
        p < prev.len() ==> key_lt(ks[prev[p] as int], ks[m as int]),
    ensures
        sorted_order(ks, prev.insert(p, m)),
{
    let new = prev.insert(p, m);
    assert forall|a: int, b: int| 0 <= a < b < new.len() implies
        key_lt(ks[#[trigger] new[b] as int], ks[#[trigger] new[a] as int])
        || (ks[new[a] as int] == ks[new[b] as int] && new[a] < new[b]) by {
        if b == p {
            assert(new[a] == prev[a]);
            assert(!key_lt(ks[prev[a] as int], ks[m as int]));
        } else if a == p {
            assert(new[b] == prev[b - 1]);
            if b - 1 > p {
                assert(key_lt(ks[prev[b - 1] as int], ks[prev[p] as int])
                    || ks[prev[p] as int] == ks[prev[b - 1] as int]);
                if key_lt(ks[prev[b - 1] as int], ks[prev[p] as int]) {
                    lemma_key_lt_trans(ks[prev[b - 1] as int], ks[prev[p] as int], ks[m as int]);
                }
            }
        } else if b < p {
            assert(new[a] == prev[a] && new[b] == prev[b]);
        } else if a < p {
            assert(new[a] == prev[a] && new[b] == prev[b - 1]);
        } else {
            assert(new[a] == prev[a - 1] && new[b] == prev[b - 1]);
        }
    }
}

fn fits(r: &Release, godot_version: &str) -> (b: bool)
    ensures
        b == release_fits(*r, godot_version@),
{
    if let Some(min) = &r.min_godot_version {
        if !is_version_compatible(godot_version, min.as_str(), true) {
            return false;
        }
    }
    if let Some(max) = &r.max_godot_version {
        if !is_version_compatible(godot_version, max.as_str(), false) {
            return false;
        }
    }
    true
}

/// `k` as a spec key.
pub open spec fn ikey(k: (i32, i32, i32, i32, i32)) -> (int, int, int, int, int) {
    (k.0 as int, k.1 as int, k.2 as int, k.3 as int, k.4 as int)
}

fn key_less(a: (i32, i32, i32, i32, i32), b: (i32, i32, i32, i32, i32)) -> (r: bool)
    ensures
        r == key_lt(ikey(a), ikey(b)),
{
    if a.0 != b.0 {
        a.0 < b.0
    } else if a.1 != b.1 {
        a.1 < b.1
    } else if a.2 != b.2 {
        a.2 < b.2
    } else if a.3 != b.3 {
        a.3 < b.3
    } else {
        a.4 < b.4
    }
}

fn release_key_of(r: &Release) -> (k: (i32, i32, i32, i32, i32))
    ensures
        ikey(k) == release_key(*r),
{
    crate::version::parse_version_key_pub(r.version.as_str())
}

/// The releases usable with `godot_version`, highest version first; releases
/// with equal versions keep their original order.
pub fn list_compatible_releases<'a>(releases: &'a [Release], godot_version: &str) -> (out: Vec<&'a Release>)
    ensures
        sorted_desc_stable(derefs(out@), fitting(releases@, godot_version@)),
{
    let ghost pred = |r: Release| release_fits(r, godot_version@);
    // Keep the fitting releases, in order.
    let mut kept: Vec<&'a Release> = Vec::new();
    let mut i: usize = 0;
    while i < releases.len()
        invariant
            i <= releases@.len(),
            pred == (|r: Release| release_fits(r, godot_version@)),
            derefs(kept@) == releases@.take(i as int).filter(pred),
        decreases releases.len() - i,
    {
        let r = &releases[i];
        proof {
            reveal(Seq::filter);
            assert(releases@.take(i + 1).drop_last() == releases@.take(i as int));
        }
        let ghost before = kept@;
        if fits(r, godot_version) {
            kept.push(r);
            assert(derefs(kept@) =~= derefs(before).push(*r));
        }
        i = i + 1;
    }
    assert(releases@.take(releases@.len() as int) == releases@);
    let ghost src = derefs(kept@);
    assert(src == fitting(releases@, godot_version@));
    // Keys of the kept releases.
    let mut keys: Vec<(i32, i32, i32, i32, i32)> = Vec::new();
    let mut k: usize = 0;
    while k < kept.len()
        invariant
            k <= kept@.len(),
            keys@.len() == k,
            forall|j: int| 0 <= j < k ==> ikey(#[trigger] keys@[j]) == release_key(*kept@[j]),
        decreases kept.len() - k,
    {
        keys.push(release_key_of(kept[k]));
        k = k + 1;
    }
    // Stable insertion sort of indices, highest key first.
    let n = kept.len();
    let ghost ks = keys@.map_values(|k: (i32, i32, i32, i32, i32)| ikey(k));
    let mut order: Vec<usize> = Vec::new();
    let mut m: usize = 0;
    while m < n
        invariant
            n == kept@.len() == keys@.len() == ks.len(),
            ks == keys@.map_values(|k: (i32, i32, i32, i32, i32)| ikey(k)),
            m <= n,
            order@.len() == m,
            forall|a: int| 0 <= a < m ==> #[trigger] order@[a] < m,
            forall|a: int, b: int| 0 <= a < b < m ==> order@[a] != order@[b],
            sorted_order(ks, order@),
        decreases n - m,
    {
        let km = keys[m];
        assert(ks[m as int] == ikey(km));
        // First position whose key is below the new one.
        let mut p: usize = 0;
        while p < order.len() && !key_less(keys[order[p]], km)
            invariant
                p <= order@.len() == m,
                m < n == keys@.len() == ks.len(),
                ks == keys@.map_values(|k: (i32, i32, i32, i32, i32)| ikey(k)),
                forall|a: int| 0 <= a < m ==> #[trigger] order@[a] < m,
                forall|a: int| 0 <= a < p ==> !key_lt(ks[#[trigger] order@[a] as int], ikey(km)),
            decreases order.len() - p,
        {
            assert(ks[order@[p as int] as int] == ikey(keys@[order@[p as int] as int]));
            p = p + 1;
        }
        proof {
            if p < m {
                assert(ks[order@[p as int] as int] == ikey(keys@[order@[p as int] as int]));
            }
            lemma_insert_sorted(ks, order@, p as int, m);
        }
        order.insert(p, m);
        m = m + 1;
    }
    // Gather the releases in sorted order.
    let mut out: Vec<&'a Release> = Vec::new();
    let mut q: usize = 0;
    while q < n
        invariant
            n == kept@.len() == order@.len(),
            q <= n,
            out@.len() == q,
            forall|a: int| 0 <= a < n ==> #[trigger] order@[a] < n,
            forall|a: int| 0 <= a < q ==> out@[a] == kept@[#[trigger] order@[a] as int],
        decreases n - q,
    {
        out.push(kept[order[q]]);
        q = q + 1;
    }
    let ghost perm = order@.map_values(|x: usize| x as int);
    assert(permuted_by(derefs(out@), src, perm));
    assert forall|i: int, j: int| 0 <= i < j < out@.len() implies
        key_lt(release_key(derefs(out@)[j]), release_key(derefs(out@)[i]))
        || (release_key(derefs(out@)[i]) == release_key(derefs(out@)[j]) && perm[i] < perm[j]) by {
        assert(release_key(derefs(out@)[i]) == ks[order@[i] as int]);
        assert(release_key(derefs(out@)[j]) == ks[order@[j] as int]);
    }
    out
}

} // verus!
