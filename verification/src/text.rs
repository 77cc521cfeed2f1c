//! Character-level helpers over `str` and `String`, stated on `Seq<char>`.
use vstd::prelude::*;
use vstd::slice::slice_to_vec;

verus! {

/// Appends one character to a string (std `String::push`).
#[verifier::external_body]
pub(crate) fn push_char(s: &mut String, c: char)
    ensures
        final(s)@ == old(s)@.push(c),
{
    s.push(c);
}

/// The characters of a string slice, in order.
pub fn chars_of(s: &str) -> (v: Vec<char>)
    ensures
        v@ == s@,
{
    let mut v: Vec<char> = Vec::new();
    for c in it: s.chars()
        invariant
            v@ == it.seq().take(it.index()),
    {
        v.push(c);
    }
    v
}

/// A string made of `s[from..to]`.
pub fn string_of(s: &[char], from: usize, to: usize) -> (r: String)
    requires
        from <= to <= s@.len(),
    ensures
        r@ == s@.subrange(from as int, to as int),
{
    let mut r = String::new();
    let mut i = from;
    while i < to
        invariant
            from <= i <= to <= s@.len(),
            r@ == s@.subrange(from as int, i as int),
        decreases to - i,
    {
        push_char(&mut r, s[i]);
        assert(s@.subrange(from as int, i + 1) == s@.subrange(from as int, i as int).push(s@[i as int]));
        i = i + 1;
    }
    r
}

/// A string holding all of `s`.
pub fn string_of_all(s: &[char]) -> (r: String)
    ensures
        r@ == s@,
{
    assert(s@.subrange(0, s@.len() as int) == s@);
    string_of(s, 0, s.len())
}

/// Appends `t` to `r`.
pub fn push_chars(r: &mut String, t: &[char])
    ensures
        final(r)@ == old(r)@ + t@,
{
    let mut i: usize = 0;
    while i < t.len()
        invariant
            i <= t@.len(),
            r@ == old(r)@ + t@.take(i as int),
        decreases t.len() - i,
    {
        push_char(r, t[i]);
        assert(t@.take(i + 1) == t@.take(i as int).push(t@[i as int]));
        i = i + 1;
    }
    assert(t@.take(t@.len() as int) == t@);
}

/// Appends the characters of `t` to `r`.
pub fn push_str(r: &mut String, t: &str)
    ensures
        final(r)@ == old(r)@ + t@,
{
    let v = chars_of(t);
    push_chars(r, v.as_slice());
}

/// Unicode `White_Space`, as `char::is_whitespace` decides it.
pub open spec fn is_ws(c: char) -> bool {
    ||| ('\u{9}' <= c && c <= '\u{d}')
    ||| c == ' '
    ||| c == '\u{85}'
    ||| c == '\u{a0}'
    ||| c == '\u{1680}'
    ||| ('\u{2000}' <= c && c <= '\u{200a}')
    ||| c == '\u{2028}'
    ||| c == '\u{2029}'
    ||| c == '\u{202f}'
    ||| c == '\u{205f}'
    ||| c == '\u{3000}'
}

/// `char::is_whitespace`.
pub fn is_whitespace(c: char) -> (b: bool)
    ensures
        b == is_ws(c),
{
    ('\u{9}' <= c && c <= '\u{d}') || c == ' ' || c == '\u{85}' || c == '\u{a0}' || c == '\u{1680}'
        || ('\u{2000}' <= c && c <= '\u{200a}') || c == '\u{2028}' || c == '\u{2029}'
        || c == '\u{202f}' || c == '\u{205f}' || c == '\u{3000}'
}

/// ASCII digit `0`..=`9`.
pub open spec fn is_digit(c: char) -> bool {
    '0' <= c && c <= '9'
}

/// ASCII letter.
pub open spec fn is_alpha(c: char) -> bool {
    ('a' <= c && c <= 'z') || ('A' <= c && c <= 'Z')
}

/// `char::is_ascii_digit`.
pub fn is_ascii_digit(c: char) -> (b: bool)
    ensures
        b == is_digit(c),
{
    '0' <= c && c <= '9'
}

/// `char::is_ascii_alphabetic`.
pub fn is_ascii_alpha(c: char) -> (b: bool)
    ensures
        b == is_alpha(c),
{
    ('a' <= c && c <= 'z') || ('A' <= c && c <= 'Z')
}


/// `p` is a prefix of `s`.
pub open spec fn starts_with(s: Seq<char>, p: Seq<char>) -> bool {
    p.len() <= s.len() && s.take(p.len() as int) == p
}

/// `p` is a suffix of `s`.
pub open spec fn ends_with(s: Seq<char>, p: Seq<char>) -> bool {
    p.len() <= s.len() && s.skip(s.len() - p.len()) == p
}

/// `p` occurs in `s` starting at index `i`.
pub open spec fn occurs_at(s: Seq<char>, p: Seq<char>, i: int) -> bool {
    0 <= i && i + p.len() <= s.len() && s.subrange(i, i + p.len()) == p
}

/// `p` occurs somewhere in `s` (`str::contains`).
pub open spec fn contains(s: Seq<char>, p: Seq<char>) -> bool {
    exists|i: int| occurs_at(s, p, i)
}

/// `i` is the first index at which `p` occurs in `s`.
pub open spec fn is_first_occurrence(s: Seq<char>, p: Seq<char>, i: int) -> bool {
    occurs_at(s, p, i) && forall|j: int| 0 <= j < i ==> !occurs_at(s, p, j)
}

/// `i` is the last index at which `p` occurs in `s`.
pub open spec fn is_last_occurrence(s: Seq<char>, p: Seq<char>, i: int) -> bool {
    occurs_at(s, p, i) && forall|j: int| i < j ==> !occurs_at(s, p, j)
}

/// `str::find`: the first index of `p` in `s`.
pub open spec fn find(s: Seq<char>, p: Seq<char>) -> Option<int> {
    if contains(s, p) {
        Some(choose|i: int| is_first_occurrence(s, p, i))
    } else {
        None
    }
}

/// `str::rfind`: the last index of `p` in `s`.
pub open spec fn rfind(s: Seq<char>, p: Seq<char>) -> Option<int> {
    if contains(s, p) {
        Some(choose|i: int| is_last_occurrence(s, p, i))
    } else {
        None
    }
}

/// The first index of `c` in `s`.
pub open spec fn find_char(s: Seq<char>, c: char) -> Option<int> {
    find(s, seq![c])
}

/// The last index of `c` in `s`.
pub open spec fn rfind_char(s: Seq<char>, c: char) -> Option<int> {
    rfind(s, seq![c])
}

pub proof fn lemma_occurs_single(s: Seq<char>, c: char, i: int)
    ensures
        occurs_at(s, seq![c], i) <==> (0 <= i < s.len() && s[i] == c),
{
    if 0 <= i < s.len() && s[i] == c {
        assert(s.subrange(i, i + 1) =~= seq![c]);
    }
    if occurs_at(s, seq![c], i) {
        assert(s.subrange(i, i + 1)[0] == s[i]);
    }
}

pub proof fn lemma_find_is(s: Seq<char>, p: Seq<char>, i: int)
    requires
        is_first_occurrence(s, p, i),
    ensures
        find(s, p) == Some(i),
{
    let k = choose|k: int| is_first_occurrence(s, p, k);
    assert(is_first_occurrence(s, p, k));
    if k < i {
        assert(!occurs_at(s, p, k));
    }
    if i < k {
        assert(!occurs_at(s, p, i));
    }
}

pub proof fn lemma_find_none(s: Seq<char>, p: Seq<char>)
    requires
        forall|j: int| !occurs_at(s, p, j),
    ensures
        find(s, p) == None::<int>,
        rfind(s, p) == None::<int>,
{
}

pub proof fn lemma_rfind_is(s: Seq<char>, p: Seq<char>, i: int)
    requires
        is_last_occurrence(s, p, i),
    ensures
        rfind(s, p) == Some(i),
{
    let k = choose|k: int| is_last_occurrence(s, p, k);
    assert(is_last_occurrence(s, p, k));
    if k < i {
        assert(!occurs_at(s, p, i));
    }
    if i < k {
        assert(!occurs_at(s, p, k));
    }
}

/// Whether `p` occurs in `s` at index `i`.
pub fn matches_at(s: &[char], p: &[char], i: usize) -> (b: bool)
    ensures
        b == occurs_at(s@, p@, i as int),
{
    if i > s.len() || p.len() > s.len() - i {
        return false;
    }
    let n = s.len();
    let mut k: usize = 0;
    while k < p.len()
        invariant
            n == s@.len(),
            i + p@.len() <= s@.len(),
            k <= p@.len(),
            forall|j: int| 0 <= j < k ==> s@[i + j] == p@[j],
        decreases p.len() - k,
    {
        if s[i + k] != p[k] {
            assert(s@.subrange(i as int, i + p@.len())[k as int] != p@[k as int]);
            return false;
        }
        k = k + 1;
    }
    assert(s@.subrange(i as int, i + p@.len()) =~= p@);
    true
}

/// `str::starts_with`.
pub fn has_prefix(s: &[char], p: &[char]) -> (b: bool)
    ensures
        b == starts_with(s@, p@),
{
    let b = matches_at(s, p, 0);
    assert(s@.take(p@.len() as int) == s@.subrange(0, p@.len() as int));
    b
}

/// `str::ends_with`.
pub fn has_suffix(s: &[char], p: &[char]) -> (b: bool)
    ensures
        b == ends_with(s@, p@),
{
    if p.len() > s.len() {
        return false;
    }
    let b = matches_at(s, p, s.len() - p.len());
    assert(s@.skip(s@.len() - p@.len()) == s@.subrange(s@.len() - p@.len(), s@.len() as int));
    b
}

/// `str::find` with a pattern.
pub fn find_in(s: &[char], p: &[char]) -> (r: Option<usize>)
    ensures
        r matches Some(i) ==> find(s@, p@) == Some(i as int) && is_first_occurrence(s@, p@, i as int),
        r is None ==> find(s@, p@) is None,
{
    let n = s.len();
    let m = p.len();
    if m > n {
        proof { lemma_find_none(s@, p@); }
        return None;
    }
    let last = n - m;
    let mut i: usize = 0;
    loop
        invariant
            n == s@.len(),
            m == p@.len(),
            last == n - m,
            i <= last,
            forall|j: int| 0 <= j < i ==> !occurs_at(s@, p@, j),
        decreases last - i,
    {
        if matches_at(s, p, i) {
            proof { lemma_find_is(s@, p@, i as int); }
            return Some(i);
        }
        if i == last {
            proof { lemma_find_none(s@, p@); }
            return None;
        }
        i = i + 1;
    }
}

/// `str::contains` with a pattern.
pub fn contains_in(s: &[char], p: &[char]) -> (b: bool)
    ensures
        b == contains(s@, p@),
{
    find_in(s, p).is_some()
}

/// `str::rfind` with a pattern.
pub fn rfind_in(s: &[char], p: &[char]) -> (r: Option<usize>)
    ensures
        r matches Some(i) ==> rfind(s@, p@) == Some(i as int),
        r is None ==> rfind(s@, p@) is None,
{
    let n = s.len();
    let m = p.len();
    if m > n {
        proof { lemma_find_none(s@, p@); }
        return None;
    }
    let mut i: usize = n - m;
    loop
        invariant
            n == s@.len(),
            m == p@.len(),
            i <= n - m,
            forall|j: int| i < j ==> !occurs_at(s@, p@, j),
        decreases i,
    {
        if matches_at(s, p, i) {
            proof { lemma_rfind_is(s@, p@, i as int); }
            return Some(i);
        }
        if i == 0 {
            proof { lemma_find_none(s@, p@); }
            return None;
        }
        i = i - 1;
    }
}

/// `str::find` with a character.
pub fn find_char_in(s: &[char], c: char) -> (r: Option<usize>)
    ensures
        r matches Some(i) ==> find_char(s@, c) == Some(i as int),
        r is None ==> find_char(s@, c) is None,
        r matches Some(i) ==> i < s@.len() && s@[i as int] == c
            && forall|j: int| 0 <= j < i ==> s@[j] != c,
        r is None ==> forall|j: int| 0 <= j < s@.len() ==> s@[j] != c,
{
    let mut i: usize = 0;
    while i < s.len()
        invariant
            i <= s@.len(),
            forall|j: int| 0 <= j < i ==> s@[j] != c,
        decreases s.len() - i,
    {
        if s[i] == c {
            proof {
                assert forall|j: int| 0 <= j < i implies !occurs_at(s@, seq![c], j) by {
                    lemma_occurs_single(s@, c, j);
                }
                lemma_occurs_single(s@, c, i as int);
                lemma_find_is(s@, seq![c], i as int);
            }
            return Some(i);
        }
        i = i + 1;
    }
    proof {
        assert forall|j: int| !occurs_at(s@, seq![c], j) by {
            lemma_occurs_single(s@, c, j);
        }
        lemma_find_none(s@, seq![c]);
    }
    None
}

/// `str::rfind` with a character.
pub fn rfind_char_in(s: &[char], c: char) -> (r: Option<usize>)
    ensures
        r matches Some(i) ==> rfind_char(s@, c) == Some(i as int),
        r is None ==> rfind_char(s@, c) is None,
        r matches Some(i) ==> i < s@.len() && s@[i as int] == c
            && forall|j: int| i < j < s@.len() ==> s@[j] != c,
        r is None ==> forall|j: int| 0 <= j < s@.len() ==> s@[j] != c,
{
    let mut i: usize = s.len();
    while i > 0
        invariant
            i <= s@.len(),
            forall|j: int| i <= j < s@.len() ==> s@[j] != c,
        decreases i,
    {
        i = i - 1;
        if s[i] == c {
            proof {
                assert forall|j: int| i < j implies !occurs_at(s@, seq![c], j) by {
                    lemma_occurs_single(s@, c, j);
                }
                lemma_occurs_single(s@, c, i as int);
                lemma_rfind_is(s@, seq![c], i as int);
            }
            return Some(i);
        }
    }
    proof {
        assert forall|j: int| !occurs_at(s@, seq![c], j) by {
            lemma_occurs_single(s@, c, j);
        }
        lemma_find_none(s@, seq![c]);
    }
    None
}

/// Whether two character slices are equal.
pub fn chars_eq(a: &[char], b: &[char]) -> (r: bool)
    ensures
        r == (a@ == b@),
{
    if a.len() != b.len() {
        return false;
    }
    let r = matches_at(a, b, 0);
    assert(a@.subrange(0, a@.len() as int) == a@);
    r
}


/// `str::trim_start`: drop leading whitespace.
pub open spec fn trim_start(s: Seq<char>) -> Seq<char>
    decreases s.len(),
{
    if s.len() > 0 && is_ws(s[0]) {
        trim_start(s.drop_first())
    } else {
        s
    }
}

/// `str::trim_end`: drop trailing whitespace.
pub open spec fn trim_end(s: Seq<char>) -> Seq<char>
    decreases s.len(),
{
    if s.len() > 0 && is_ws(s.last()) {
        trim_end(s.drop_last())
    } else {
        s
    }
}

/// `str::trim`.
pub open spec fn trim(s: Seq<char>) -> Seq<char> {
    trim_end(trim_start(s))
}

/// `str::trim_start_matches(c)`: drop leading copies of `c`.
pub open spec fn trim_start_char(s: Seq<char>, c: char) -> Seq<char>
    decreases s.len(),
{
    if s.len() > 0 && s[0] == c {
        trim_start_char(s.drop_first(), c)
    } else {
        s
    }
}

/// `str::trim_end_matches(c)`: drop trailing copies of `c`.
pub open spec fn trim_end_char(s: Seq<char>, c: char) -> Seq<char>
    decreases s.len(),
{
    if s.len() > 0 && s.last() == c {
        trim_end_char(s.drop_last(), c)
    } else {
        s
    }
}

/// `str::trim_matches(c)`.
pub open spec fn trim_char(s: Seq<char>, c: char) -> Seq<char> {
    trim_end_char(trim_start_char(s, c), c)
}

/// `str::trim_start_matches(p)` for a string pattern: drop leading copies of `p`.
pub open spec fn trim_start_pat(s: Seq<char>, p: Seq<char>) -> Seq<char>
    decreases s.len(),
{
    if p.len() > 0 && starts_with(s, p) {
        trim_start_pat(s.skip(p.len() as int), p)
    } else {
        s
    }
}

/// `str::strip_prefix(p).unwrap_or(s)`.
pub open spec fn strip_prefix_or_self(s: Seq<char>, p: Seq<char>) -> Seq<char> {
    if starts_with(s, p) {
        s.skip(p.len() as int)
    } else {
        s
    }
}

/// `str::strip_suffix(p).unwrap_or(s)`.
pub open spec fn strip_suffix_or_self(s: Seq<char>, p: Seq<char>) -> Seq<char> {
    if ends_with(s, p) {
        s.take(s.len() - p.len())
    } else {
        s
    }
}

/// Start of `trim_start(s)` inside `s`.
pub fn trim_start_index(s: &[char]) -> (a: usize)
    ensures
        a <= s@.len(),
        s@.skip(a as int) == trim_start(s@),
{
    let mut i: usize = 0;
    assert(s@.skip(0) == s@);
    while i < s.len() && is_whitespace(s[i])
        invariant
            i <= s@.len(),
            trim_start(s@.skip(i as int)) == trim_start(s@),
        decreases s.len() - i,
    {
        assert(s@.skip(i as int).drop_first() == s@.skip(i + 1));
        i = i + 1;
    }
    assert(s@.skip(0) == s@);
    i
}

/// End of `trim_end(s)` inside `s`.
pub fn trim_end_index(s: &[char]) -> (b: usize)
    ensures
        b <= s@.len(),
        s@.take(b as int) == trim_end(s@),
{
    let mut j: usize = s.len();
    assert(s@.take(j as int) == s@);
    while j > 0 && is_whitespace(s[j - 1])
        invariant
            j <= s@.len(),
            trim_end(s@.take(j as int)) == trim_end(s@),
        decreases j,
    {
        assert(s@.take(j as int).drop_last() == s@.take(j - 1));
        j = j - 1;
    }
    j
}

/// Bounds of `trim(s)` inside `s`.
pub fn trim_range(s: &[char]) -> (r: (usize, usize))
    ensures
        r.0 <= r.1 <= s@.len(),
        s@.subrange(r.0 as int, r.1 as int) == trim(s@),
{
    let a = trim_start_index(s);
    let rest = &s[a..s.len()];
    let b = trim_end_index(rest);
    assert(rest@ == s@.skip(a as int));
    assert(s@.subrange(a as int, (a + b) as int) == rest@.take(b as int));
    (a, a + b)
}

/// `str::trim_start` as a new character vector.
pub fn trimmed_start(s: &[char]) -> (t: Vec<char>)
    ensures
        t@ == trim_start(s@),
{
    let a = trim_start_index(s);
    slice_to_vec(&s[a..s.len()])
}

/// `str::trim` as a new character vector.
pub fn trimmed(s: &[char]) -> (t: Vec<char>)
    ensures
        t@ == trim(s@),
{
    let (a, b) = trim_range(s);
    slice_to_vec(&s[a..b])
}

/// `str::trim_start_matches(c)` as a new character vector.
pub fn trim_start_matching(s: &[char], c: char) -> (t: Vec<char>)
    ensures
        t@ == trim_start_char(s@, c),
{
    let mut i: usize = 0;
    assert(s@.skip(0) == s@);
    while i < s.len() && s[i] == c
        invariant
            i <= s@.len(),
            trim_start_char(s@.skip(i as int), c) == trim_start_char(s@, c),
        decreases s.len() - i,
    {
        assert(s@.skip(i as int).drop_first() == s@.skip(i + 1));
        i = i + 1;
    }
    assert(s@.skip(0) == s@);
    slice_to_vec(&s[i..s.len()])
}

/// `str::trim_end_matches(c)` as a new character vector.
pub fn trim_end_matching(s: &[char], c: char) -> (t: Vec<char>)
    ensures
        t@ == trim_end_char(s@, c),
{
    let mut j: usize = s.len();
    assert(s@.take(j as int) == s@);
    while j > 0 && s[j - 1] == c
        invariant
            j <= s@.len(),
            trim_end_char(s@.take(j as int), c) == trim_end_char(s@, c),
        decreases j,
    {
        assert(s@.take(j as int).drop_last() == s@.take(j - 1));
        j = j - 1;
    }
    slice_to_vec(&s[0..j])
}

/// `str::trim_matches(c)` as a new character vector.
pub fn trim_matching(s: &[char], c: char) -> (t: Vec<char>)
    ensures
        t@ == trim_char(s@, c),
{
    let a = trim_start_matching(s, c);
    trim_end_matching(a.as_slice(), c)
}

/// `str::trim_start_matches(p)` for a string pattern, as a new character vector.
pub fn trim_start_matching_pat(s: &[char], p: &[char]) -> (t: Vec<char>)
    ensures
        t@ == trim_start_pat(s@, p@),
{
    if p.len() == 0 {
        return slice_to_vec(s);
    }
    let mut i: usize = 0;
    assert(s@.skip(0) == s@);
    while matches_at(s, p, i)
        invariant
            i <= s@.len(),
            p@.len() > 0,
            trim_start_pat(s@.skip(i as int), p@) == trim_start_pat(s@, p@),
        decreases s.len() - i,
    {
        assert(s@.skip(i as int).take(p@.len() as int) == s@.subrange(i as int, i + p@.len()));
        assert(s@.skip(i as int).skip(p@.len() as int) == s@.skip(i + p@.len()));
        i = i + p.len();
    }
    assert(s@.skip(0) == s@);
    proof {
        if starts_with(s@.skip(i as int), p@) {
            assert(s@.skip(i as int).take(p@.len() as int) == s@.subrange(i as int, i + p@.len()));
        }
    }
    slice_to_vec(&s[i..s.len()])
}

/// `s.strip_prefix(p).unwrap_or(s)` as a new character vector.
pub fn strip_prefix_or_keep(s: &[char], p: &[char]) -> (t: Vec<char>)
    ensures
        t@ == strip_prefix_or_self(s@, p@),
{
    if has_prefix(s, p) {
        slice_to_vec(&s[p.len()..s.len()])
    } else {
        slice_to_vec(s)
    }
}

/// `s.strip_suffix(p).unwrap_or(s)` as a new character vector.
pub fn strip_suffix_or_keep(s: &[char], p: &[char]) -> (t: Vec<char>)
    ensures
        t@ == strip_suffix_or_self(s@, p@),
{
    if has_suffix(s, p) {
        slice_to_vec(&s[0..s.len() - p.len()])
    } else {
        slice_to_vec(s)
    }
}


/// `str::split(c)`: the pieces between occurrences of `c`.
pub open spec fn split(s: Seq<char>, c: char) -> Seq<Seq<char>>
    decreases s.len(),
{
    if s.len() == 0 {
        seq![Seq::<char>::empty()]
    } else {
        let init = split(s.drop_last(), c);
        if s.last() == c {
            init.push(Seq::<char>::empty())
        } else {
            init.update(init.len() - 1, init.last().push(s.last()))
        }
    }
}

pub proof fn lemma_split_nonempty(s: Seq<char>, c: char)
    ensures
        split(s, c).len() >= 1,
    decreases s.len(),
{
    if s.len() > 0 {
        lemma_split_nonempty(s.drop_last(), c);
    }
}

/// The views of a vector of character vectors.
pub open spec fn views(v: Seq<Vec<char>>) -> Seq<Seq<char>> {
    v.map_values(|x: Vec<char>| x@)
}

/// `str::split(c)` as character vectors.
pub fn split_chars(s: &[char], c: char) -> (r: Vec<Vec<char>>)
    ensures
        views(r@) == split(s@, c),
        r@.len() >= 1,
{
    let mut done: Vec<Vec<char>> = Vec::new();
    let mut cur: Vec<char> = Vec::new();
    let mut i: usize = 0;
    assert(s@.take(0) =~= Seq::<char>::empty());
    assert(views(done@).push(cur@) =~= split(s@.take(0), c));
    while i < s.len()
        invariant
            i <= s@.len(),
            views(done@).push(cur@) == split(s@.take(i as int), c),
        decreases s.len() - i,
    {
        let ghost prev = s@.take(i as int);
        assert(s@.take(i + 1).drop_last() == prev);
        assert(s@.take(i + 1).last() == s@[i as int]);
        proof { lemma_split_nonempty(prev, c); }
        if s[i] == c {
            let piece = cur;
            done.push(piece);
            cur = Vec::new();
            assert(views(done@).push(cur@) =~= split(s@.take(i + 1), c));
        } else {
            cur.push(s[i]);
            assert(views(done@).push(cur@) =~= split(s@.take(i + 1), c));
        }
        i = i + 1;
    }
    assert(s@.take(s@.len() as int) == s@);
    done.push(cur);
    assert(views(done@) =~= split(s@, c));
    done
}

/// A piece of `str::lines` loses one trailing `\r` when a `\n` ended it.
pub open spec fn strip_cr(s: Seq<char>) -> Seq<char> {
    if s.len() > 0 && s.last() == '\r' {
        s.drop_last()
    } else {
        s
    }
}

/// The `i`-th line made from the pieces `p` of a text split at `\n`.
pub open spec fn line_piece(p: Seq<Seq<char>>, i: int) -> Seq<char> {
    if i < p.len() - 1 {
        strip_cr(p[i])
    } else {
        p[i]
    }
}

/// Number of lines made from the pieces `p` of a text split at `\n`.
pub open spec fn line_count(p: Seq<Seq<char>>) -> nat {
    if p.last().len() == 0 {
        (p.len() - 1) as nat
    } else {
        p.len()
    }
}

/// `str::lines`.
pub open spec fn lines(s: Seq<char>) -> Seq<Seq<char>> {
    Seq::new(line_count(split(s, '\n')), |i: int| line_piece(split(s, '\n'), i))
}

/// `str::lines` as character vectors.
pub fn lines_of(s: &[char]) -> (r: Vec<Vec<char>>)
    ensures
        views(r@) == lines(s@),
{
    let parts = split_chars(s, '\n');
    let n = parts.len();
    let ghost p = split(s@, '\n');
    assert(views(parts@) == p);
    assert(parts@[n - 1]@ == p[n - 1]);
    let count = if parts[n - 1].len() == 0 { n - 1 } else { n };
    let mut r: Vec<Vec<char>> = Vec::new();
    let mut i: usize = 0;
    while i < count
        invariant
            count <= n == parts@.len(),
            n == p.len(),
            p == split(s@, '\n'),
            views(parts@) == p,
            i <= count,
            views(r@) =~= lines(s@).take(i as int),
            lines(s@).len() == count,
        decreases count - i,
    {
        assert(parts@[i as int]@ == p[i as int]);
        let piece: &Vec<char> = &parts[i];
        let line: Vec<char> = if i + 1 < n && piece.len() > 0 && piece[piece.len() - 1] == '\r' {
            slice_to_vec(&piece.as_slice()[0..piece.len() - 1])
        } else {
            slice_to_vec(piece.as_slice())
        };
        proof {
            assert(piece@ == p[i as int]);
            assert(lines(s@)[i as int] == line_piece(p, i as int));
            if piece@.len() > 0 {
                assert(piece@.drop_last() =~= piece@.subrange(0, piece@.len() - 1));
            }
        }
        assert(line@ == lines(s@)[i as int]);
        let ghost before = r@;
        r.push(line);
        assert(views(r@) =~= views(before).push(lines(s@)[i as int]));
        assert(lines(s@).take(i + 1) =~= lines(s@).take(i as int).push(lines(s@)[i as int]));
        i = i + 1;
    }
    r
}


/// The least `i` in `0..n` with `p(i)`.
pub open spec fn first_where(n: int, p: spec_fn(int) -> bool) -> Option<int> {
    if exists|i: int| 0 <= i < n && #[trigger] p(i) {
        Some(choose|i: int| 0 <= i < n && #[trigger] p(i) && forall|j: int| 0 <= j < i ==> !#[trigger] p(j))
    } else {
        None
    }
}

pub proof fn lemma_first_where_is(n: int, p: spec_fn(int) -> bool, i: int)
    requires
        0 <= i < n,
        p(i),
        forall|j: int| 0 <= j < i ==> !#[trigger] p(j),
    ensures
        first_where(n, p) == Some(i),
{
    let k = choose|k: int| 0 <= k < n && #[trigger] p(k) && forall|j: int| 0 <= j < k ==> !#[trigger] p(j);
    assert(0 <= k < n && p(k) && forall|j: int| 0 <= j < k ==> !#[trigger] p(j));
    if k < i {
        assert(!p(k));
    }
    if i < k {
        assert(!p(i));
    }
}

/// A least index below `w` where `p` holds, `p` holding at `w`.
proof fn lemma_least_below(n: int, p: spec_fn(int) -> bool, w: int)
    requires
        0 <= w < n,
        p(w),
    ensures
        exists|i: int| 0 <= i < n && #[trigger] p(i) && forall|j: int| 0 <= j < i ==> !#[trigger] p(j),
    decreases w,
{
    if exists|j: int| 0 <= j < w && #[trigger] p(j) {
        let j = choose|j: int| 0 <= j < w && #[trigger] p(j);
        lemma_least_below(n, p, j);
    } else {
        assert(0 <= w < n && p(w) && forall|j: int| 0 <= j < w ==> !#[trigger] p(j));
    }
}

/// What `first_where` gives: the least index where `p` holds, or `None`
/// where it holds nowhere below `n`.
pub proof fn lemma_first_where_facts(n: int, p: spec_fn(int) -> bool)
    ensures
        first_where(n, p) matches Some(i) ==> 0 <= i < n && p(i) && forall|j: int| 0 <= j < i ==> !#[trigger] p(j),
        first_where(n, p) is None ==> forall|j: int| 0 <= j < n ==> !#[trigger] p(j),
{
    if exists|i: int| 0 <= i < n && #[trigger] p(i) {
        let w = choose|i: int| 0 <= i < n && #[trigger] p(i);
        lemma_least_below(n, p, w);
    }
}

pub proof fn lemma_first_where_none(n: int, p: spec_fn(int) -> bool)
    requires
        forall|j: int| 0 <= j < n ==> !#[trigger] p(j),
    ensures
        first_where(n, p) == None::<int>,
{
}


/// The greatest `i` in `0..n` with `p(i)`.
pub open spec fn last_where(n: int, p: spec_fn(int) -> bool) -> Option<int> {
    if exists|i: int| 0 <= i < n && #[trigger] p(i) {
        Some(choose|i: int| 0 <= i < n && #[trigger] p(i) && forall|j: int| i < j < n ==> !#[trigger] p(j))
    } else {
        None
    }
}

pub proof fn lemma_last_where_is(n: int, p: spec_fn(int) -> bool, i: int)
    requires
        0 <= i < n,
        p(i),
        forall|j: int| i < j < n ==> !#[trigger] p(j),
    ensures
        last_where(n, p) == Some(i),
{
    let k = choose|k: int| 0 <= k < n && #[trigger] p(k) && forall|j: int| k < j < n ==> !#[trigger] p(j);
    assert(0 <= k < n && p(k) && forall|j: int| k < j < n ==> !#[trigger] p(j));
    if k < i {
        assert(!p(i));
    }
    if i < k {
        assert(!p(k));
    }
}

/// Unicode lowercase mapping of a string, as std's `str::to_lowercase` computes it.
pub uninterp spec fn lowercase(s: Seq<char>) -> Seq<char>;

/// `str::to_lowercase` (std).
#[verifier::external_body]
pub(crate) fn to_lowercase(s: &str) -> (r: String)
    ensures
        r@ == lowercase(s@),
{
    s.to_lowercase()
}

/// `c.to_ascii_lowercase()`.
pub open spec fn ascii_lower(c: char) -> char {
    if 'A' <= c && c <= 'Z' {
        ((c as u32) + 32) as char
    } else {
        c
    }
}


/// Characters of `b` decoded as UTF-8, each invalid sequence replaced by
/// U+FFFD, as std's `String::from_utf8_lossy` decodes them.
pub uninterp spec fn utf8_lossy(b: Seq<u8>) -> Seq<char>;

/// `String::from_utf8_lossy` (std), as an owned string.
#[verifier::external_body]
pub(crate) fn lossy_utf8(bytes: &[u8]) -> (s: String)
    ensures
        s@ == utf8_lossy(bytes@),
{
    String::from_utf8_lossy(bytes).into_owned()
}

/// `t` padded on the right with spaces to `w` characters, as `{:<w}` formats it.
pub open spec fn pad_right(t: Seq<char>, w: int) -> Seq<char> {
    if t.len() < w {
        t + Seq::new((w - t.len()) as nat, |i: int| ' ')
    } else {
        t
    }
}

/// Appends `t` padded on the right with spaces to `w` characters.
pub fn push_padded(r: &mut String, t: &str, w: usize)
    ensures
        final(r)@ == old(r)@ + pad_right(t@, w as int),
{
    let n = chars_of(t).len();
    push_str(r, t);
    let ghost base = r@;
    let mut k: usize = n;
    while k < w
        invariant
            n == t@.len(),
            k == n || k <= w,
            k >= n,
            base == old(r)@ + t@,
            r@ == base + Seq::new((k - n) as nat, |i: int| ' '),
        decreases w - k,
    {
        push_char(r, ' ');
        assert(Seq::new((k + 1 - n) as nat, |i: int| ' ') == Seq::new((k - n) as nat, |i: int| ' ').push(' '));
        k = k + 1;
    }
    proof {
        if n < w {
            assert(k == w);
            assert(r@ =~= old(r)@ + pad_right(t@, w as int));
        } else {
            assert(k == n);
            assert(r@ =~= old(r)@ + t@);
        }
    }
}

/// `parts` joined with `sep` between each two, as `[..].join(sep)` does.
pub open spec fn join(parts: Seq<Seq<char>>, sep: Seq<char>) -> Seq<char>
    decreases parts.len(),
{
    if parts.len() == 0 {
        Seq::empty()
    } else if parts.len() == 1 {
        parts[0]
    } else {
        join(parts.drop_last(), sep) + sep + parts.last()
    }
}

/// Joins character vectors with `sep` between each two.
pub fn join_chars(parts: &Vec<Vec<char>>, sep: &str) -> (r: String)
    ensures
        r@ == join(views(parts@), sep@),
{
    let mut r = String::new();
    let mut i: usize = 0;
    while i < parts.len()
        invariant
            i <= parts@.len(),
            r@ == join(views(parts@).take(i as int), sep@),
        decreases parts.len() - i,
    {
        let ghost vs = views(parts@);
        assert(vs.take(i + 1).drop_last() == vs.take(i as int));
        assert(vs.take(i + 1).last() == parts@[i as int]@);
        if i > 0 {
            push_str(&mut r, sep);
        } else {
            assert(vs.take(0) =~= Seq::<Seq<char>>::empty());
            assert(r@ =~= Seq::<char>::empty());
        }
        push_chars(&mut r, parts[i].as_slice());
        i = i + 1;
    }
    assert(views(parts@).take(parts@.len() as int) == views(parts@));
    r
}

} // verus!
