//! Version strings: flavors (`4.3-beta1`), addon version components and
//! engine-compatibility checks.
use vstd::prelude::*;
use vstd::slice::slice_to_vec;
use crate::text::{string_of, string_of_all, strip_suffix_or_keep, strip_suffix_or_self, starts_with, has_prefix, rfind_char, rfind_char_in, last_where, lemma_last_where_is, find_char, find_char_in, contains, contains_in, lowercase, to_lowercase, push_str, chars_of, chars_eq, first_where, lemma_first_where_is, lemma_first_where_none, is_alpha, is_ascii_alpha, is_digit, is_ascii_digit, split, split_chars, views};
use crate::numparse::{parse_i32, parse_signed};

verus! {

/// `i` separates a version's core from a pre-release suffix: a `-` or `.`
/// after the first character, followed by an ASCII letter.
pub open spec fn is_pre_sep(v: Seq<char>, i: int) -> bool {
    1 <= i && i + 1 < v.len() && (v[i] == '-' || v[i] == '.') && is_alpha(v[i + 1])
}

/// Index of the first pre-release separator of `v`.
pub open spec fn pre_sep(v: Seq<char>) -> Option<int> {
    first_where(v.len() as int, |i: int| is_pre_sep(v, i))
}

/// The numeric core of `v` (before the pre-release separator).
pub open spec fn version_core(v: Seq<char>) -> Seq<char> {
    match pre_sep(v) {
        Some(i) => v.take(i),
        None => v,
    }
}

/// The pre-release suffix of `v` (after the separator), or empty.
pub open spec fn version_suffix(v: Seq<char>) -> Seq<char> {
    match pre_sep(v) {
        Some(i) => v.skip(i + 1),
        None => Seq::<char>::empty(),
    }
}

/// Tier of a pre-release name: dev < alpha < beta < rc; unknown names rank lowest.
pub open spec fn tier_of(name: Seq<char>) -> int {
    if name == "dev"@ {
        0
    } else if name == "alpha"@ || name == "a"@ {
        1
    } else if name == "beta"@ || name == "b"@ {
        2
    } else if name == "rc"@ {
        3
    } else {
        -1
    }
}

/// A parsed `i32`, or 0 where the text is not one.
pub open spec fn i32_or_zero(s: Seq<char>) -> int {
    match parse_signed(s, i32::MIN as int, i32::MAX as int) {
        Some(n) => n,
        None => 0,
    }
}

/// Index of the first ASCII digit of `s`.
pub open spec fn first_digit(s: Seq<char>) -> Option<int> {
    first_where(s.len() as int, |i: int| is_digit(s[i]))
}

/// Tier and number of a pre-release suffix (`beta3` is tier 2, number 3;
/// no suffix is the stable tier 4).
pub open spec fn pre_release(suffix: Seq<char>) -> (int, int) {
    if suffix.len() == 0 {
        (4, 0)
    } else {
        match first_digit(suffix) {
            Some(p) => (tier_of(suffix.take(p)), i32_or_zero(suffix.skip(p))),
            None => (tier_of(suffix), 0),
        }
    }
}

/// `v` without one leading `v`.
pub open spec fn strip_v(v: Seq<char>) -> Seq<char> {
    if v.len() > 0 && v[0] == 'v' {
        v.drop_first()
    } else {
        v
    }
}

/// The `k`-th dot-separated numeric component of a core, or 0.
pub open spec fn component(core: Seq<char>, k: int) -> int {
    let parts = split(core, '.');
    if k < parts.len() {
        i32_or_zero(parts[k])
    } else {
        0
    }
}

/// Major, minor and patch of a version string.
pub open spec fn version_numbers(version: Seq<char>) -> (int, int, int) {
    let core = version_core(strip_v(version));
    (component(core, 0), component(core, 1), component(core, 2))
}

/// The comparison key of a version: numbers, then pre-release tier and number.
pub open spec fn version_key(version: Seq<char>) -> (int, int, int, int, int) {
    let n = version_numbers(version);
    let t = pre_release(version_suffix(strip_v(version)));
    (n.0, n.1, n.2, t.0, t.1)
}

/// Lexicographic `a <= b` on triples.
pub open spec fn lex_le3(a: (int, int, int), b: (int, int, int)) -> bool {
    if a.0 != b.0 {
        a.0 < b.0
    } else if a.1 != b.1 {
        a.1 < b.1
    } else {
        a.2 <= b.2
    }
}

/// Lexicographic `a < b` on five-part keys.
pub open spec fn key_lt(a: (int, int, int, int, int), b: (int, int, int, int, int)) -> bool {
    if a.0 != b.0 {
        a.0 < b.0
    } else if a.1 != b.1 {
        a.1 < b.1
    } else if a.2 != b.2 {
        a.2 < b.2
    } else if a.3 != b.3 {
        a.3 < b.3
    } else {
        a.4 < b.4
    }
}

/// `engine` satisfies the constraint: at least `constraint` when `is_min`,
/// at most `constraint` otherwise (numbers only, pre-release ignored).
pub open spec fn compatible(engine: Seq<char>, constraint: Seq<char>, is_min: bool) -> bool {
    if is_min {
        lex_le3(version_numbers(constraint), version_numbers(engine))
    } else {
        lex_le3(version_numbers(engine), version_numbers(constraint))
    }
}

/// Splits `version` into its numeric core and pre-release suffix.
fn find_prerelease(version: &[char]) -> (r: (Vec<char>, Vec<char>))
    ensures
        r.0@ == version_core(version@),
        r.1@ == version_suffix(version@),
{
    let n = version.len();
    let ghost pred = |i: int| is_pre_sep(version@, i);
    let mut i: usize = 1;
    while i < n
        invariant
            n == version@.len(),
            pred == (|i: int| is_pre_sep(version@, i)),
            1 <= i,
            forall|j: int| 0 <= j < i && j < n ==> !#[trigger] pred(j),
        decreases n - i,
    {
        if (version[i] == '-' || version[i] == '.') && i + 1 < n && is_ascii_alpha(version[i + 1]) {
            proof { lemma_first_where_is(n as int, pred, i as int); }
            return (slice_to_vec(&version[0..i]), slice_to_vec(&version[i + 1..n]));
        }
        i = i + 1;
    }
    proof { lemma_first_where_none(n as int, pred); }
    (slice_to_vec(version), Vec::new())
}

/// Index of the first ASCII digit.
fn find_first_digit(s: &[char]) -> (r: Option<usize>)
    ensures
        r matches Some(p) ==> first_digit(s@) == Some(p as int) && p < s@.len(),
        r is None ==> first_digit(s@) is None,
{
    let ghost pred = |i: int| is_digit(s@[i]);
    let mut i: usize = 0;
    while i < s.len()
        invariant
            i <= s@.len(),
            pred == (|i: int| is_digit(s@[i])),
            forall|j: int| 0 <= j < i ==> !#[trigger] pred(j),
        decreases s.len() - i,
    {
        if is_ascii_digit(s[i]) {
            proof { lemma_first_where_is(s@.len() as int, pred, i as int); }
            return Some(i);
        }
        i = i + 1;
    }
    proof { lemma_first_where_none(s@.len() as int, pred); }
    None
}

/// Tier of a pre-release name.
fn tier_of_name(name: &[char]) -> (t: i32)
    ensures
        t as int == tier_of(name@),
{
    if chars_eq(name, chars_of("dev").as_slice()) {
        0
    } else if chars_eq(name, chars_of("alpha").as_slice()) || chars_eq(name, chars_of("a").as_slice()) {
        1
    } else if chars_eq(name, chars_of("beta").as_slice()) || chars_eq(name, chars_of("b").as_slice()) {
        2
    } else if chars_eq(name, chars_of("rc").as_slice()) {
        3
    } else {
        -1
    }
}

/// Tier and number of a pre-release suffix.
fn parse_pre_release(suffix: &[char]) -> (r: (i32, i32))
    ensures
        (r.0 as int, r.1 as int) == pre_release(suffix@),
{
    if suffix.len() == 0 {
        return (4, 0);
    }
    match find_first_digit(suffix) {
        Some(pos) => {
            let name = &suffix[0..pos];
            let num = &suffix[pos..suffix.len()];
            assert(name@ == suffix@.take(pos as int));
            assert(num@ == suffix@.skip(pos as int));
            let tier = tier_of_name(name);
            let number = match parse_i32(num) {
                Some(v) => v,
                None => 0,
            };
            (tier, number)
        },
        None => (tier_of_name(suffix), 0),
    }
}

/// The `k`-th component of `parts`, parsed, or 0.
fn component_at(parts: &Vec<Vec<char>>, k: usize) -> (c: i32)
    ensures
        c as int == (if k < parts@.len() { i32_or_zero(parts@[k as int]@) } else { 0 }),
{
    if k < parts.len() {
        match parse_i32(parts[k].as_slice()) {
            Some(v) => v,
            None => 0,
        }
    } else {
        0
    }
}

/// Major/minor/patch, pre-release tier and pre-release number of a version.
/// A leading `v` is ignored; missing or non-numeric components count as 0.
fn parse_version_components(version: &str) -> (r: ((i32, i32, i32), i32, i32))
    ensures
        version_key(version@) == (r.0.0 as int, r.0.1 as int, r.0.2 as int, r.1 as int, r.2 as int),
{
    let all = chars_of(version);
    let v: Vec<char> = if all.len() > 0 && all[0] == 'v' {
        slice_to_vec(&all.as_slice()[1..all.len()])
    } else {
        all
    };
    assert(v@ == strip_v(version@)) by {
        if version@.len() > 0 && version@[0] == 'v' {
            assert(version@.drop_first() == version@.subrange(1, version@.len() as int));
        }
    }
    let (core, suffix) = find_prerelease(v.as_slice());
    let parts = split_chars(core.as_slice(), '.');
    assert(views(parts@) == split(core@, '.'));
    let ghost sp = split(core@, '.');
    assert forall|k: int| 0 <= k < parts@.len() implies parts@[k]@ == sp[k] by {}
    let a = component_at(&parts, 0);
    let b = component_at(&parts, 1);
    let c = component_at(&parts, 2);
    let (tier, number) = parse_pre_release(suffix.as_slice());
    ((a, b, c), tier, number)
}

/// Whether `engine_version` satisfies `constraint`: at least the constraint
/// when `is_min`, at most the constraint otherwise. The first differing
/// component of major/minor/patch decides.
pub fn is_version_compatible(engine_version: &str, constraint: &str, is_min: bool) -> (b: bool)
    ensures
        b == compatible(engine_version@, constraint@, is_min),
{
    let (engine, _, _) = parse_version_components(engine_version);
    let (cons, _, _) = parse_version_components(constraint);
    if engine.0 != cons.0 {
        if is_min { cons.0 <= engine.0 } else { cons.0 >= engine.0 }
    } else if engine.1 != cons.1 {
        if is_min { cons.1 <= engine.1 } else { cons.1 >= engine.1 }
    } else if engine.2 != cons.2 {
        if is_min { cons.2 <= engine.2 } else { cons.2 >= engine.2 }
    } else {
        true
    }
}

/// The comparison key of a version string.
fn parse_version_key(version: &str) -> (k: (i32, i32, i32, i32, i32))
    ensures
        version_key(version@) == (k.0 as int, k.1 as int, k.2 as int, k.3 as int, k.4 as int),
{
    let (parts, tier, number) = parse_version_components(version);
    (parts.0, parts.1, parts.2, tier, number)
}


/// The comparison key of a version string, for other modules.
pub fn parse_version_key_pub(version: &str) -> (k: (i32, i32, i32, i32, i32))
    ensures
        version_key(version@) == (k.0 as int, k.1 as int, k.2 as int, k.3 as int, k.4 as int),
{
    parse_version_key(version)
}


/// `t` begins with one of the flavor names stable, rc, beta, dev, alpha.
pub open spec fn is_flavor(t: Seq<char>) -> bool {
    starts_with(t, "stable"@) || starts_with(t, "rc"@) || starts_with(t, "beta"@)
        || starts_with(t, "dev"@) || starts_with(t, "alpha"@)
}

/// The text after a `.` at `i` begins with a flavor name.
pub open spec fn is_dot_flavor(v: Seq<char>, i: int) -> bool {
    v[i] == '.' && is_flavor(v.skip(i + 1))
}

/// The segment of `t` before its first `.` (all of `t` without one).
pub open spec fn first_segment(t: Seq<char>) -> Seq<char> {
    match find_char(t, '.') {
        Some(j) => t.take(j),
        None => t,
    }
}

/// Version and flavor of an editor version string: `4.3-beta1` is
/// (`4.3`, `beta1`), `4.8.dev.custom_build.7216a6290` is (`4.8`, `dev`):
/// a flavor after a `.` is the segment up to the next `.`; a `.mono`
/// suffix is ignored; without a flavor the whole string is the version and
/// the flavor is `stable`.
pub open spec fn version_flavor(s: Seq<char>) -> (Seq<char>, Seq<char>) {
    let v = strip_suffix_or_self(s, ".mono"@);
    match rfind_char(v, '-') {
        Some(i) if is_flavor(v.skip(i + 1)) => (v.take(i), v.skip(i + 1)),
        _ => match last_where(v.len() as int, |i: int| is_dot_flavor(v, i)) {
            Some(i) => (v.take(i), first_segment(v.skip(i + 1))),
            None => (v, "stable"@),
        },
    }
}

fn is_flavor_exec(t: &[char]) -> (b: bool)
    ensures
        b == is_flavor(t@),
{
    has_prefix(t, chars_of("stable").as_slice()) || has_prefix(t, chars_of("rc").as_slice())
        || has_prefix(t, chars_of("beta").as_slice()) || has_prefix(t, chars_of("dev").as_slice())
        || has_prefix(t, chars_of("alpha").as_slice())
}

/// Splits an editor version string into version and flavor.
pub fn parse_version_flavor(version: &str) -> (r: (String, String))
    ensures
        (r.0@, r.1@) == version_flavor(version@),
{
    let all = chars_of(version);
    let v = strip_suffix_or_keep(all.as_slice(), chars_of(".mono").as_slice());
    let n = v.len();
    if let Some(idx) = rfind_char_in(v.as_slice(), '-') {
        let rest = &v.as_slice()[idx + 1..n];
        assert(rest@ == v@.skip(idx + 1));
        if is_flavor_exec(rest) {
            assert(v@.take(idx as int) == v@.subrange(0, idx as int));
            return (string_of(v.as_slice(), 0, idx), string_of_all(rest));
        }
    }
    let ghost pred = |i: int| is_dot_flavor(v@, i);
    let mut idx: usize = n;
    while idx > 0
        invariant
            idx <= n == v@.len(),
            pred == (|i: int| is_dot_flavor(v@, i)),
            v@ == strip_suffix_or_self(version@, ".mono"@),
            !(rfind_char(v@, '-') matches Some(i) && is_flavor(v@.skip(i + 1))),
            forall|j: int| idx <= j < n ==> !#[trigger] pred(j),
        decreases idx,
    {
        let pos = idx - 1;
        if v[pos] == '.' {
            let rest = &v.as_slice()[pos + 1..n];
            assert(rest@ == v@.skip(pos + 1));
            if is_flavor_exec(rest) {
                proof { lemma_last_where_is(n as int, pred, pos as int); }
                assert(v@.take(pos as int) == v@.subrange(0, pos as int));
                let flavor = match find_char_in(rest, '.') {
                    Some(j) => {
                        assert(rest@.take(j as int) == rest@.subrange(0, j as int));
                        string_of(rest, 0, j)
                    },
                    None => string_of_all(rest),
                };
                return (string_of(v.as_slice(), 0, pos), flavor);
            }
        }
        idx = pos;
    }
    (string_of_all(v.as_slice()), String::from_str("stable"))
}

/// A version argument and its explicit flavor, if it names one other than `stable`.
pub open spec fn version_arg(arg: Seq<char>) -> (Seq<char>, Option<Seq<char>>) {
    let (ver, flavor) = version_flavor(arg);
    if flavor == "stable"@ {
        (arg, None)
    } else {
        (ver, Some(flavor))
    }
}

/// Splits a version argument such as `4.7-dev3` into `4.7` and `Some("dev3")`;
/// `4.7` and `4.7-stable` give the whole argument and no flavor.
pub fn parse_version_arg(arg: &str) -> (r: (String, Option<String>))
    ensures
        r.0@ == version_arg(arg@).0,
        r.1 matches Some(f) ==> version_arg(arg@).1 == Some(f@),
        r.1 is None ==> version_arg(arg@).1 is None,
{
    let (ver, flavor) = parse_version_flavor(arg);
    let fc = chars_of(flavor.as_str());
    if chars_eq(fc.as_slice(), chars_of("stable").as_slice()) {
        (String::from_str(arg), None)
    } else {
        (ver, Some(flavor))
    }
}

/// `c` belongs to a version number (ASCII digit or `.`).
pub open spec fn is_version_char(c: char) -> bool {
    is_digit(c) || c == '.'
}

/// The leading run of version characters of `s`.
pub open spec fn version_run(s: Seq<char>) -> Seq<char> {
    match first_where(s.len() as int, |i: int| !is_version_char(s[i])) {
        Some(e) => s.take(e),
        None => s,
    }
}

/// Version, display name and C# flag read from an editor file name:
/// the version follows the first `v` (or starts at the first digit).
pub open spec fn editor_name_parts(name: Seq<char>) -> (Seq<char>, Seq<char>, bool) {
    let is_mono = contains(lowercase(name), "mono"@);
    let version = match find_char(name, 'v') {
        Some(i) => version_run(name.skip(i + 1)),
        None => match first_digit(name) {
            Some(i) => version_run(name.skip(i)),
            None => "unknown"@,
        },
    };
    (version, "Godot v"@ + version, is_mono)
}

fn version_run_of(s: &[char]) -> (r: String)
    ensures
        r@ == version_run(s@),
{
    let ghost pred = |i: int| !is_version_char(s@[i]);
    let mut i: usize = 0;
    while i < s.len()
        invariant
            i <= s@.len(),
            pred == (|i: int| !is_version_char(s@[i])),
            forall|j: int| 0 <= j < i ==> !#[trigger] pred(j),
        decreases s.len() - i,
    {
        if !(is_ascii_digit(s[i]) || s[i] == '.') {
            proof { lemma_first_where_is(s@.len() as int, pred, i as int); }
            assert(s@.take(i as int) == s@.subrange(0, i as int));
            return string_of(s, 0, i);
        }
        i = i + 1;
    }
    proof { lemma_first_where_none(s@.len() as int, pred); }
    string_of_all(s)
}

/// Reads the version from an editor file name (`Godot_v4.3-stable_win64.exe`
/// gives `4.3`), with its display name `Godot v4.3` and whether it is a C# build.
pub fn parse_editor_name(filename: &str) -> (r: (String, String, bool))
    ensures
        (r.0@, r.1@, r.2) == editor_name_parts(filename@),
{
    let name = chars_of(filename);
    let lower = to_lowercase(filename);
    let is_mono = contains_in(chars_of(lower.as_str()).as_slice(), chars_of("mono").as_slice());
    let n = name.len();
    let version = if let Some(idx) = find_char_in(name.as_slice(), 'v') {
        let after = &name.as_slice()[idx + 1..n];
        assert(after@ == name@.skip(idx + 1));
        version_run_of(after)
    } else if let Some(idx) = find_first_digit(name.as_slice()) {
        let after = &name.as_slice()[idx..n];
        assert(after@ == name@.skip(idx as int));
        version_run_of(after)
    } else {
        String::from_str("unknown")
    };
    let mut display = String::from_str("Godot v");
    push_str(&mut display, version.as_str());
    (version, display, is_mono)
}

} // verus!
