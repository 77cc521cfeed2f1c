//! Laws of version strings: how a flavor splits off an editor version, and
//! how pre-releases of one version are ordered.
use vstd::prelude::*;
use crate::numparse::all_digits;
use crate::text::{
    ends_with, first_where, is_alpha, is_digit, is_last_occurrence, lemma_first_where_is, lemma_first_where_none,
    lemma_occurs_single, lemma_rfind_is, occurs_at, starts_with,
};
use crate::version::{
    first_digit, i32_or_zero, is_flavor, is_pre_sep, key_lt, pre_release, pre_sep, strip_v, tier_of, version_arg,
    version_core, version_flavor, version_key, version_numbers, version_suffix,
};

verus! {

/// `t` begins with the name of a pre-release flavor: dev, alpha, beta or rc.
pub open spec fn is_pre_flavor(t: Seq<char>) -> bool {
    starts_with(t, "dev"@) || starts_with(t, "alpha"@) || starts_with(t, "beta"@) || starts_with(t, "rc"@)
}

/// Law: an editor version without dashes and a pre-release flavor joined by
/// `-` (such as `4.7-dev3` or `4.3-beta1`) split back into the version and
/// the flavor, and as a version argument name that build.
pub proof fn lemma_dash_flavor_splits(v: Seq<char>, f: Seq<char>)
    requires
        forall|j: int| 0 <= j < v.len() ==> v[j] != '-',
        forall|j: int| 0 <= j < f.len() ==> f[j] != '-',
        is_pre_flavor(f),
        !ends_with(f, ".mono"@),
    ensures
        version_flavor(v + "-"@ + f) == (v, f),
        version_arg(v + "-"@ + f) == (v, Some(f)),
{
    reveal_strlit("-");
    reveal_strlit(".mono");
    reveal_strlit("dev");
    reveal_strlit("alpha");
    reveal_strlit("beta");
    reveal_strlit("rc");
    reveal_strlit("stable");
    let s = v + "-"@ + f;
    let i = v.len() as int;
    assert(s[i] == '-');
    assert(!ends_with(s, ".mono"@)) by {
        if ends_with(s, ".mono"@) {
            let tail = s.skip(s.len() - 5);
            if f.len() >= 5 {
                assert(f.skip(f.len() - 5) =~= tail);
            } else {
                assert(tail[4 - f.len()] == s[i]);
            }
        }
    }
    lemma_occurs_single(s, '-', i);
    assert forall|j: int| i < j implies !occurs_at(s, seq!['-'], j) by {
        lemma_occurs_single(s, '-', j);
        if 0 <= j < s.len() {
            assert(s[j] == f[j - i - 1]);
        }
    }
    assert(is_last_occurrence(s, seq!['-'], i));
    lemma_rfind_is(s, seq!['-'], i);
    assert(s.skip(i + 1) =~= f);
    assert(s.take(i) =~= v);
    assert(is_flavor(f));
    assert(f != "stable"@) by {
        if f == "stable"@ {
            assert(f[0] == 's');
            if starts_with(f, "dev"@) {
                assert(f.take(3)[0] == f[0]);
            } else if starts_with(f, "alpha"@) {
                assert(f.take(5)[0] == f[0]);
            } else if starts_with(f, "beta"@) {
                assert(f.take(4)[0] == f[0]);
            } else {
                assert(f.take(2)[0] == f[0]);
            }
        }
    }
}

/// `core` is the numeric part of a version: digits and dots, starting with
/// a digit.
pub open spec fn is_numeric_core(core: Seq<char>) -> bool {
    &&& core.len() > 0
    &&& is_digit(core[0])
    &&& forall|j: int| 0 <= j < core.len() ==> is_digit(#[trigger] core[j]) || core[j] == '.'
}

/// A numeric core holds no pre-release separator before position `n`, when
/// what follows position `n - 1` is no letter.
proof fn lemma_no_sep_before(s: Seq<char>, core: Seq<char>)
    requires
        is_numeric_core(core),
        core.len() <= s.len(),
        s.take(core.len() as int) == core,
        core.len() < s.len() ==> !is_alpha(s[core.len() as int]),
    ensures
        forall|j: int| 0 <= j < core.len() ==> !#[trigger] is_pre_sep(s, j),
{
    assert forall|j: int| 0 <= j < core.len() implies !#[trigger] is_pre_sep(s, j) by {
        assert(s[j] == s.take(core.len() as int)[j]);
        if j + 1 < core.len() {
            assert(s[j + 1] == s.take(core.len() as int)[j + 1]);
            assert(is_digit(core[j + 1]) || core[j + 1] == '.');
        }
        assert(is_digit(core[j]) || core[j] == '.');
    }
}

/// The key of a release version: its numbers, stable tier, number 0.
proof fn lemma_release_key(core: Seq<char>)
    requires
        is_numeric_core(core),
    ensures
        version_key(core).3 == 4 && version_key(core).4 == 0,
        version_numbers(core) == (version_key(core).0, version_key(core).1, version_key(core).2),
{
    assert(strip_v(core) == core);
    assert(core.take(core.len() as int) =~= core);
    lemma_no_sep_before(core, core);
    lemma_first_where_none(core.len() as int, |i: int| is_pre_sep(core, i));
    assert(version_suffix(core) == Seq::<char>::empty());
}

/// The key of the pre-release `core-<name><n>`: the numbers of `core`, the
/// tier of `name` and the number `n` (0 when there is none).
proof fn lemma_pre_release_key(core: Seq<char>, name: Seq<char>, n: Seq<char>)
    requires
        is_numeric_core(core),
        is_name(name),
        all_digits(n),
    ensures
        version_key(core + "-"@ + name + n) == (
            version_numbers(core).0,
            version_numbers(core).1,
            version_numbers(core).2,
            tier_of(name),
            if n.len() > 0 { i32_or_zero(n) } else { 0 },
        ),
{
    reveal_strlit("-");
    let s = core + "-"@ + name + n;
    let l = core.len() as int;
    assert(s[0] == core[0]);
    assert(strip_v(s) == s);
    assert(s.take(l) =~= core);
    assert(s[l] == '-');
    assert(s[l + 1] == name[0]);
    lemma_no_sep_before(s, core);
    assert(is_pre_sep(s, l));
    lemma_first_where_is(s.len() as int, |i: int| is_pre_sep(s, i), l);
    assert(pre_sep(s) == Some(l));
    assert(version_core(s) =~= core);
    let suffix = name + n;
    assert(version_suffix(s) =~= suffix);
    lemma_release_key(core);
    assert forall|j: int| 0 <= j < name.len() implies !is_digit(#[trigger] suffix[j]) by {
        assert(suffix[j] == name[j]);
        assert(is_alpha(name[j]));
    }
    if n.len() > 0 {
        assert(is_digit(suffix[name.len() as int])) by {
            assert(suffix[name.len() as int] == n[0]);
        }
        lemma_first_where_is(suffix.len() as int, |i: int| is_digit(suffix[i]), name.len() as int);
        assert(first_digit(suffix) == Some(name.len() as int));
        assert(suffix.take(name.len() as int) =~= name);
        assert(suffix.skip(name.len() as int) =~= n);
    } else {
        assert(suffix =~= name);
        lemma_first_where_none(suffix.len() as int, |i: int| is_digit(suffix[i]));
    }
    assert(pre_release(suffix) == (tier_of(name), if n.len() > 0 { i32_or_zero(n) } else { 0 }));
}

/// A non-empty run of ASCII letters.
spec fn is_name(name: Seq<char>) -> bool {
    name.len() > 0 && forall|j: int| 0 <= j < name.len() ==> is_alpha(#[trigger] name[j])
}

/// The tiers of the pre-release names.
proof fn lemma_tiers()
    ensures
        tier_of("dev"@) == 0,
        is_name("dev"@),
        tier_of("alpha"@) == 1,
        is_name("alpha"@),
        tier_of("a"@) == 1,
        is_name("a"@),
        tier_of("beta"@) == 2,
        is_name("beta"@),
        tier_of("b"@) == 2,
        is_name("b"@),
        tier_of("rc"@) == 3,
        is_name("rc"@),
{
    reveal_strlit("dev");
    reveal_strlit("alpha");
    reveal_strlit("a");
    reveal_strlit("beta");
    reveal_strlit("b");
    reveal_strlit("rc");
    assert("alpha"@.len() != "dev"@.len());
    assert("a"@.len() != "dev"@.len());
    assert("beta"@.len() != "dev"@.len() && "beta"@.len() != "alpha"@.len() && "beta"@.len() != "a"@.len());
    assert("b"@.len() != "dev"@.len() && "b"@.len() != "alpha"@.len() && "b"@[0] != "a"@[0]);
    assert("rc"@.len() != "dev"@.len() && "rc"@.len() != "alpha"@.len() && "rc"@.len() != "a"@.len());
    assert("rc"@.len() != "beta"@.len() && "rc"@.len() != "b"@.len());
}

/// Law: the pre-releases of one version, with the same pre-release number,
/// are ordered dev before alpha before beta before rc, and all come before
/// the release itself (so a list sorted newest first puts `1.0.0-beta1`
/// before `1.0.0-alpha1`); `a` and `b` stand for alpha and beta.
pub proof fn lemma_pre_release_order(core: Seq<char>, n: Seq<char>)
    requires
        is_numeric_core(core),
        all_digits(n),
    ensures
        key_lt(version_key(core + "-"@ + "dev"@ + n), version_key(core + "-"@ + "alpha"@ + n)),
        key_lt(version_key(core + "-"@ + "alpha"@ + n), version_key(core + "-"@ + "beta"@ + n)),
        key_lt(version_key(core + "-"@ + "beta"@ + n), version_key(core + "-"@ + "rc"@ + n)),
        key_lt(version_key(core + "-"@ + "rc"@ + n), version_key(core)),
        version_key(core + "-"@ + "a"@ + n) == version_key(core + "-"@ + "alpha"@ + n),
        version_key(core + "-"@ + "b"@ + n) == version_key(core + "-"@ + "beta"@ + n),
{
    lemma_tiers();
    lemma_pre_release_key(core, "dev"@, n);
    lemma_pre_release_key(core, "alpha"@, n);
    lemma_pre_release_key(core, "a"@, n);
    lemma_pre_release_key(core, "beta"@, n);
    lemma_pre_release_key(core, "b"@, n);
    lemma_pre_release_key(core, "rc"@, n);
    lemma_release_key(core);
}

} // verus!
