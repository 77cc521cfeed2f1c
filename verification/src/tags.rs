//! Project tags (`gdio tags`): the `config/tags` setting of a
//! `project.godot` text, and toggling one tag.
use vstd::prelude::*;
use crate::text::{chars_of, chars_eq, first_where, has_prefix, join, join_chars, lemma_first_where_is, lemma_first_where_none, lines, lines_of, lowercase, push_str, split, split_chars, starts_with, string_of_all, to_lowercase, trim, trimmed, views};
use crate::platform::string_views;
use crate::addon_list::{lex_lt, sort_by_name};
use crate::releases::permuted_by;

verus! {

/// A line setting the project's tags.
pub open spec fn is_tags_line(l: Seq<char>) -> bool {
    starts_with(trim(l), "config/tags="@)
}

/// The lines of `ls` that set the tags.
pub open spec fn tags_line_at(ls: Seq<Seq<char>>) -> spec_fn(int) -> bool {
    |i: int| is_tags_line(ls[i])
}

/// Index of the first line setting the tags.
pub open spec fn tags_line_index(ls: Seq<Seq<char>>) -> Option<int> {
    first_where(ls.len() as int, tags_line_at(ls))
}

/// The quoted texts of `t`: the pieces between the 1st and 2nd `"`, the
/// 3rd and 4th, and so on.
pub open spec fn quoted_items(t: Seq<char>) -> Seq<Seq<char>> {
    odd_pieces(split(t, '"'), split(t, '"').len() / 2)
}

/// The pieces at odd positions 1, 3, … of the first `2 * k` pieces.
pub open spec fn odd_pieces(pieces: Seq<Seq<char>>, k: nat) -> Seq<Seq<char>>
    decreases k,
{
    if k == 0 { Seq::empty() } else { odd_pieces(pieces, (k - 1) as nat).push(pieces[2 * (k - 1) + 1]) }
}

/// The tags a `project.godot` text sets: the quoted texts of its first
/// `config/tags=` line (none without one).
pub open spec fn declared_tags(content: Seq<char>) -> Seq<Seq<char>> {
    match tags_line_index(lines(content)) {
        Some(i) => quoted_items(trim(lines(content)[i])),
        None => Seq::empty(),
    }
}

fn find_tags_line(ls: &Vec<Vec<char>>) -> (r: Option<usize>)
    ensures
        r matches Some(i) ==> tags_line_index(views(ls@)) == Some(i as int) && i < ls@.len(),
        r is None ==> tags_line_index(views(ls@)) is None,
{
    let ghost vs = views(ls@);
    let ghost pred = tags_line_at(vs);
    let key = chars_of("config/tags=");
    let mut i: usize = 0;
    while i < ls.len()
        invariant
            i <= ls@.len(),
            vs == views(ls@),
            key@ == "config/tags="@,
            pred == tags_line_at(vs),
            forall|j: int| 0 <= j < i ==> !#[trigger] pred(j),
        decreases ls.len() - i,
    {
        assert(vs[i as int] == ls@[i as int]@);
        let t = trimmed(ls[i].as_slice());
        if has_prefix(t.as_slice(), key.as_slice()) {
            proof { lemma_first_where_is(vs.len() as int, pred, i as int); }
            return Some(i);
        }
        i = i + 1;
    }
    proof { lemma_first_where_none(vs.len() as int, pred); }
    None
}

/// Reads the project's tags from a `project.godot` text.
pub fn parse_tags(content: &str) -> (v: Vec<String>)
    ensures
        string_views(v@) == declared_tags(content@),
{
    let ls = lines_of(chars_of(content).as_slice());
    let mut v: Vec<String> = Vec::new();
    match find_tags_line(&ls) {
        Some(i) => {
            assert(views(ls@)[i as int] == ls@[i as int]@);
            let t = trimmed(ls[i].as_slice());
            let pieces = split_chars(t.as_slice(), '"');
            let ghost ps = views(pieces@);
            let half = pieces.len() / 2;
            assert(half * 2 <= pieces.len());
            let mut k: usize = 0;
            while k < half
                invariant
                    k <= half,
                    half == pieces.len() / 2,
                    half * 2 <= pieces.len(),
                    ps == views(pieces@),
                    ps == split(t@, '"'),
                    string_views(v@) == odd_pieces(ps, k as nat),
                decreases half - k,
            {
                assert(2 * k + 1 < pieces@.len());
                assert(ps[2 * k + 1] == pieces@[2 * k + 1]@);
                let ghost before = v@;
                v.push(string_of_all(pieces[2 * k + 1].as_slice()));
                assert(string_views(v@) =~= string_views(before).push(ps[2 * k + 1]));
                k = k + 1;
            }
            assert(string_views(v@) == quoted_items(t@));
        },
        None => {
            assert(string_views(v@) =~= Seq::<Seq<char>>::empty());
        },
    }
    v
}

/// The positions of `tags` holding `t`.
pub open spec fn tag_at(tags: Seq<Seq<char>>, t: Seq<char>) -> spec_fn(int) -> bool {
    |i: int| tags[i] == t
}

/// Position of the first tag equal to `t`.
pub open spec fn tag_position(tags: Seq<Seq<char>>, t: Seq<char>) -> Option<int> {
    first_where(tags.len() as int, tag_at(tags, t))
}

/// The tags once `tag` (lowercased) is toggled: removed where it first
/// occurs, else added last.
pub open spec fn toggled(tags: Seq<Seq<char>>, tag: Seq<char>) -> Seq<Seq<char>> {
    let t = lowercase(tag);
    match tag_position(tags, t) {
        Some(i) => tags.remove(i),
        None => tags.push(t),
    }
}

/// Toggles the tag `tag` (lowercased) in `tags`; `true` when it was added.
pub fn toggle_tag(tags: &mut Vec<String>, tag: &str) -> (added: bool)
    ensures
        string_views(final(tags)@) == toggled(string_views(old(tags)@), tag@),
        added == (tag_position(string_views(old(tags)@), lowercase(tag@)) is None),
{
    let lower = to_lowercase(tag);
    let l = chars_of(lower.as_str());
    let ghost ts = string_views(tags@);
    let ghost pred = tag_at(ts, lowercase(tag@));
    let mut i: usize = 0;
    while i < tags.len()
        invariant
            i <= tags@.len(),
            ts == string_views(tags@),
            tags@ == old(tags)@,
            l@ == lowercase(tag@),
            pred == tag_at(ts, lowercase(tag@)),
            forall|j: int| 0 <= j < i ==> !#[trigger] pred(j),
        decreases tags.len() - i,
    {
        assert(ts[i as int] == tags@[i as int]@);
        if chars_eq(chars_of(tags[i].as_str()).as_slice(), l.as_slice()) {
            assert(pred(i as int));
            proof { lemma_first_where_is(ts.len() as int, pred, i as int); }
            let ghost before = tags@;
            tags.remove(i);
            assert(string_views(tags@) =~= ts.remove(i as int));
            return false;
        }
        assert(!pred(i as int));
        i = i + 1;
    }
    proof { lemma_first_where_none(ts.len() as int, pred); }
    let ghost before = tags@;
    tags.push(lower);
    assert(string_views(tags@) =~= ts.push(lowercase(tag@)));
    true
}

/// Toggling a tag that is not there and then toggling it again gives back
/// the tags as they were.
pub proof fn lemma_toggle_twice(tags: Seq<Seq<char>>, tag: Seq<char>)
    requires
        !tags.contains(lowercase(tag)),
    ensures
        toggled(toggled(tags, tag), tag) == tags,
{
    let t = lowercase(tag);
    let p1 = tag_at(tags, t);
    if exists|i: int| 0 <= i < tags.len() && #[trigger] p1(i) {
        let i = choose|i: int| 0 <= i < tags.len() && #[trigger] p1(i);
        assert(tags[i] == t);
    }
    assert(tag_position(tags, t) is None);
    let once = tags.push(t);
    let p2 = tag_at(once, t);
    assert(p2(tags.len() as int));
    assert forall|j: int| 0 <= j < tags.len() implies !#[trigger] p2(j) by {
        assert(once[j] == tags[j]);
        if once[j] == t {
            assert(tags.contains(t));
        }
    }
    assert(tag_position(once, t) == Some(tags.len() as int)) by {
        lemma_first_where_is(once.len() as int, p2, tags.len() as int);
    }
    assert(once.remove(tags.len() as int) =~= tags);
}

/// Each tag between double quotes.
pub open spec fn quoted_tags(tags: Seq<Seq<char>>) -> Seq<Seq<char>>
    decreases tags.len(),
{
    if tags.len() == 0 {
        Seq::empty()
    } else {
        quoted_tags(tags.drop_last()).push("\""@ + tags.last() + "\""@)
    }
}

/// The `config/tags` line for `tags`:
/// `config/tags=PackedStringArray("a", "b")`.
pub open spec fn tags_setting(tags: Seq<Seq<char>>) -> Seq<char> {
    "config/tags=PackedStringArray("@ + join(quoted_tags(tags), ", "@) + ")"@
}

/// The `config/tags` line that sets `tags`.
pub fn tags_setting_line(tags: &Vec<String>) -> (r: String)
    ensures
        r@ == tags_setting(string_views(tags@)),
{
    let mut quoted: Vec<Vec<char>> = Vec::new();
    let mut i: usize = 0;
    while i < tags.len()
        invariant
            i <= tags@.len(),
            views(quoted@) == quoted_tags(string_views(tags@).take(i as int)),
        decreases tags.len() - i,
    {
        let mut q: Vec<char> = Vec::new();
        q.push('"');
        let t = chars_of(tags[i].as_str());
        let mut k: usize = 0;
        while k < t.len()
            invariant
                k <= t@.len(),
                q@ == seq!['"'] + t@.take(k as int),
            decreases t.len() - k,
        {
            q.push(t[k]);
            assert(t@.take(k + 1) == t@.take(k as int).push(t@[k as int]));
            k = k + 1;
        }
        q.push('"');
        proof { reveal_strlit("\""); }
        assert(t@.take(t@.len() as int) == t@);
        assert(q@ =~= "\""@ + tags@[i as int]@ + "\""@);
        let ghost before = quoted@;
        quoted.push(q);
        assert(string_views(tags@).take(i + 1).drop_last() == string_views(tags@).take(i as int));
        assert(string_views(tags@).take(i + 1).last() == tags@[i as int]@);
        assert(views(quoted@) =~= views(before).push(q@));
        i = i + 1;
    }
    assert(string_views(tags@).take(tags@.len() as int) == string_views(tags@));
    let mut r = String::from_str("config/tags=PackedStringArray(");
    let body = join_chars(&quoted, ", ");
    push_str(&mut r, body.as_str());
    push_str(&mut r, ")");
    r
}

/// The lines of `ls` that are the `[application]` header.
pub open spec fn application_at(ls: Seq<Seq<char>>) -> spec_fn(int) -> bool {
    |i: int| trim(ls[i]) == "[application]"@
}

/// The text of a `project.godot` once its tags are set to `tags`: the
/// first `config/tags=` line replaced, or the line added right after the
/// `[application]` header, or an `[application]` section appended; lines
/// end with `\n`.
pub open spec fn with_tags(content: Seq<char>, tags: Seq<Seq<char>>) -> Seq<char> {
    let ls = lines(content);
    let line = tags_setting(tags);
    let out = match tags_line_index(ls) {
        Some(i) => ls.update(i, line),
        None => match first_where(ls.len() as int, application_at(ls)) {
            Some(a) => ls.insert(a + 1, line),
            None => ls + seq!["[application]"@, line],
        },
    };
    join(out, "\n"@) + "\n"@
}

fn find_application(ls: &Vec<Vec<char>>) -> (r: Option<usize>)
    ensures
        r matches Some(i) ==> i < ls@.len() && first_where(ls@.len() as int, application_at(views(ls@))) == Some(i as int),
        r is None ==> first_where(ls@.len() as int, application_at(views(ls@))) is None,
{
    let ghost vs = views(ls@);
    let ghost pred = application_at(vs);
    let header = chars_of("[application]");
    let mut i: usize = 0;
    while i < ls.len()
        invariant
            i <= ls@.len(),
            vs == views(ls@),
            header@ == "[application]"@,
            pred == application_at(vs),
            forall|j: int| 0 <= j < i ==> !#[trigger] pred(j),
        decreases ls.len() - i,
    {
        assert(vs[i as int] == ls@[i as int]@);
        let t = trimmed(ls[i].as_slice());
        if chars_eq(t.as_slice(), header.as_slice()) {
            proof { lemma_first_where_is(vs.len() as int, pred, i as int); }
            return Some(i);
        }
        i = i + 1;
    }
    proof { lemma_first_where_none(vs.len() as int, pred); }
    None
}

/// Sets the tags of a `project.godot` text.
pub fn write_tags(content: &str, tags: &Vec<String>) -> (r: String)
    ensures
        r@ == with_tags(content@, string_views(tags@)),
{
    let mut ls = lines_of(chars_of(content).as_slice());
    let ghost orig = views(ls@);
    let line = chars_of(tags_setting_line(tags).as_str());
    match find_tags_line(&ls) {
        Some(i) => {
            ls.set(i, line);
            assert(views(ls@) =~= orig.update(i as int, tags_setting(string_views(tags@))));
        },
        None => {
            let n = ls.len();
            match find_application(&ls) {
                Some(a) => {
                    ls.insert(a + 1, line);
                    assert(views(ls@) =~= orig.insert(a + 1, tags_setting(string_views(tags@))));
                },
                None => {
                    ls.push(chars_of("[application]"));
                    ls.push(line);
                    assert(views(ls@) =~= orig + seq!["[application]"@, tags_setting(string_views(tags@))]);
                },
            }
        },
    }
    let mut r = join_chars(&ls, "\n");
    push_str(&mut r, "\n");
    r
}

/// What `gdio tags` prints of the tags: `Tags: a, b` in sorted order, or
/// `No tags`.
pub fn tags_summary(tags: &[String]) -> (r: String)
    ensures
        tags@.len() == 0 ==> r@ == "No tags"@,
        tags@.len() > 0 ==> exists|sorted: Seq<Seq<char>>, perm: Seq<int>| {
            &&& permuted_by(sorted, string_views(tags@), perm)
            &&& (forall|i: int, j: int| 0 <= i < j < sorted.len() ==> !lex_lt(sorted[j], sorted[i]))
            &&& r@ == "Tags: "@ + join(sorted, ", "@)
        },
{
    if tags.len() == 0 {
        return String::from_str("No tags");
    }
    let mut pairs: Vec<(String, bool)> = Vec::new();
    let mut i: usize = 0;
    while i < tags.len()
        invariant
            i <= tags@.len(),
            pairs@.len() == i,
            forall|j: int| 0 <= j < i ==> (#[trigger] pairs@[j]).0 == tags@[j],
        decreases tags.len() - i,
    {
        pairs.push((tags[i].clone(), false));
        i = i + 1;
    }
    let sorted = sort_by_name(pairs.as_slice());
    let mut parts: Vec<Vec<char>> = Vec::new();
    let mut q: usize = 0;
    while q < sorted.len()
        invariant
            q <= sorted@.len(),
            parts@.len() == q,
            forall|j: int| 0 <= j < q ==> (#[trigger] parts@[j])@ == sorted@[j].0@,
        decreases sorted.len() - q,
    {
        parts.push(chars_of(sorted[q].0.as_str()));
        q = q + 1;
    }
    let mut r = String::from_str("Tags: ");
    let body = join_chars(&parts, ", ");
    push_str(&mut r, body.as_str());
    proof {
        let perm = choose|perm: Seq<int>| {
            &&& permuted_by(sorted@, pairs@, perm)
            &&& forall|i: int, j: int| 0 <= i < j < sorted@.len() ==>
                lex_lt(sorted@[i].0@, sorted@[j].0@) || (sorted@[i].0@ == sorted@[j].0@ && perm[i] < perm[j])
        };
        let sv = views(parts@);
        assert forall|i: int| 0 <= i < sv.len() implies sv[i] == string_views(tags@)[#[trigger] perm[i]] by {
            assert(sorted@[i] == pairs@[perm[i]]);
        }
        assert(permuted_by(sv, string_views(tags@), perm));
        assert forall|i: int, j: int| 0 <= i < j < sv.len() implies !lex_lt(sv[j], sv[i]) by {
            assert(sv[i] == sorted@[i].0@ && sv[j] == sorted@[j].0@);
            crate::addon_list::lemma_lex_irreflexive(sv[j]);
            if lex_lt(sv[j], sv[i]) && lex_lt(sv[i], sv[j]) {
                crate::addon_list::lemma_lex_trans(sv[j], sv[i], sv[j]);
            }
        }
    }
    r
}

} // verus!
