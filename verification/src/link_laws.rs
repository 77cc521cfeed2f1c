//! Linking an addon into a project and unlinking it again.
use vstd::prelude::*;
use vstd::utf8::encode_utf8;
use crate::addons::{gitignore_added, gitignore_entry, gitignore_removed, has_line};
use crate::config::GdioAddonEntry;
use crate::laws::lemma_trim_plain;
use crate::line_laws::{
    all_free_of, free_of, lemma_join_split, lemma_lines_clean, lemma_lines_of_joined,
    lemma_split_pieces_free_of_other,
};
use crate::text::{ends_with, join, lemma_split_nonempty, lines, split, trim};

verus! {

/// The UTF-8 encoding of two texts one after the other.
pub(crate) proof fn lemma_encode_concat(a: Seq<char>, b: Seq<char>)
    ensures
        encode_utf8(a + b) == encode_utf8(a) + encode_utf8(b),
    decreases a.len(),
{
    if a.len() == 0 {
        assert(a + b =~= b);
        assert(encode_utf8(a) =~= Seq::<u8>::empty());
        assert(encode_utf8(a) + encode_utf8(b) =~= encode_utf8(b));
    } else {
        assert((a + b)[0] == a[0]);
        assert((a + b).drop_first() =~= a.drop_first() + b);
        lemma_encode_concat(a.drop_first(), b);
        assert(encode_utf8(a + b) =~= encode_utf8(a) + encode_utf8(b));
    }
}

/// A non-empty text encodes to at least one byte.
proof fn lemma_encode_nonempty(a: Seq<char>)
    requires
        a.len() > 0,
    ensures
        encode_utf8(a).len() > 0,
{
}

/// The `.gitignore` entry of an addon folder is one line that trims to
/// itself.
proof fn lemma_entry_plain(folder: Seq<char>)
    requires
        free_of(folder, '\n'),
    ensures
        gitignore_entry(folder).len() > 0,
        free_of(gitignore_entry(folder), '\n'),
        gitignore_entry(folder).last() == '/',
        trim(gitignore_entry(folder)) == gitignore_entry(folder),
{
    reveal_strlit("addons/");
    reveal_strlit("/");
    let e = gitignore_entry(folder);
    assert forall|j: int| 0 <= j < e.len() implies e[j] != '\n' by {
        if j < 7 {
            assert(e[j] == "addons/"@[j]);
        } else if j < 7 + folder.len() {
            assert(e[j] == folder[j - 7]);
        } else {
            assert(e[j] == '/');
        }
    }
    assert(e[0] == 'a' && e.last() == '/');
    lemma_trim_plain(e);
}

/// A text without carriage returns is its lines joined by line breaks,
/// with or without one more at the end.
proof fn lemma_lines_rejoined(content: Seq<char>)
    requires
        free_of(content, '\r'),
    ensures
        lines(content).len() == 0 ==> content.len() == 0,
        lines(content).len() > 0 ==> content == join(lines(content), "\n"@) || content == join(lines(content), "\n"@)
            + "\n"@,
{
    reveal_strlit("\n");
    assert("\n"@ =~= seq!['\n']);
    let p = split(content, '\n');
    let l = lines(content);
    lemma_split_nonempty(content, '\n');
    lemma_split_pieces_free_of_other(content, '\n', '\r');
    lemma_join_split(content, '\n');
    assert forall|i: int| 0 <= i < l.len() implies #[trigger] l[i] == p[i] by {
        assert(free_of(p[i], '\r'));
        if p[i].len() > 0 {
            assert(p[i][p[i].len() - 1] == p[i].last());
        }
    }
    if p.last().len() == 0 {
        assert(l =~= p.drop_last());
        if p.len() >= 2 {
            assert(join(p, "\n"@) == join(p.drop_last(), "\n"@) + "\n"@ + p.last());
            assert(content =~= join(l, "\n"@) + "\n"@);
        } else {
            assert(content == p[0]);
        }
    } else {
        assert(l =~= p);
    }
}

/// A joined text of lines whose last line is not empty does not end with a
/// line break.
proof fn lemma_joined_ends_plain(l: Seq<Seq<char>>)
    requires
        l.len() > 0,
        l.last().len() > 0,
        all_free_of(l, '\n'),
    ensures
        join(l, "\n"@).len() > 0,
        join(l, "\n"@).last() != '\n',
        !ends_with(join(l, "\n"@), "\n"@),
{
    reveal_strlit("\n");
    let j = join(l, "\n"@);
    assert(free_of(l[l.len() - 1], '\n'));
    let x = l.last();
    assert(x[x.len() - 1] == x.last());
    if l.len() == 1 {
        assert(j == x);
    } else {
        assert(j == join(l.drop_last(), "\n"@) + "\n"@ + x);
    }
    assert(j.last() == x.last());
    if ends_with(j, "\n"@) {
        assert(j.skip(j.len() - 1)[0] == j.last());
    }
}

/// Keeping the lines that do not trim to `e`, when none of them does.
proof fn lemma_filter_keeps_all(l: Seq<Seq<char>>, e: Seq<char>)
    requires
        forall|i: int| 0 <= i < l.len() ==> trim(#[trigger] l[i]) != e,
    ensures
        l.filter(|x: Seq<char>| trim(x) != e) == l,
    decreases l.len(),
{
    if l.len() > 0 {
        let init = l.drop_last();
        assert forall|i: int| 0 <= i < init.len() implies trim(#[trigger] init[i]) != e by {
            assert(init[i] == l[i]);
        }
        lemma_filter_keeps_all(init, e);
        init.lemma_filter_push(l.last(), |x: Seq<char>| trim(x) != e);
        assert(trim(l[l.len() - 1]) != e);
        assert(init.push(l.last()) =~= l);
    }
}

/// Law: linking an addon into a project that does not track it yet and
/// unlinking it again leaves the project's `.gdio` entries as they were,
/// and gives a `.gitignore` with the same lines as before: the addon's line
/// is added, then removed, and every other line is kept in order. This
/// holds of a `.gitignore` without carriage returns whose last line is not
/// blank (a trailing blank line is not written back), for a folder name
/// without line breaks, and a text whose bytes a `usize` counts.
pub proof fn lemma_link_then_unlink(
    entries: Map<Seq<char>, GdioAddonEntry>,
    identifier: Seq<char>,
    entry: GdioAddonEntry,
    content: Seq<char>,
    folder: Seq<char>,
)
    requires
        !entries.contains_key(identifier),
        free_of(content, '\r'),
        free_of(folder, '\n'),
        !has_line(content, gitignore_entry(folder)),
        lines(content).len() == 0 || lines(content).last().len() > 0,
        encode_utf8(content).len() + encode_utf8(gitignore_entry(folder)).len() + 2 <= usize::MAX,
    ensures
        entries.insert(identifier, entry).remove(identifier) == entries,
        gitignore_added(content, folder) is Some,
        gitignore_removed(gitignore_added(content, folder)->0, folder) is Some,
        lines(gitignore_removed(gitignore_added(content, folder)->0, folder)->0) == lines(content),
{
    assert(entries.insert(identifier, entry).remove(identifier) =~= entries);
    reveal_strlit("\n");
    reveal_strlit("");
    let nl: Seq<char> = "\n"@;
    assert(nl =~= seq!['\n']);
    let e = gitignore_entry(folder);
    lemma_entry_plain(folder);
    let l = lines(content);
    lemma_lines_clean(content);
    lemma_lines_rejoined(content);
    let t = gitignore_added(content, folder)->0;
    let le = l.push(e);
    if l.len() == 0 {
        assert(t == e + nl);
        assert(join(le, nl) == e);
    } else {
        lemma_joined_ends_plain(l);
        let a = content + (if ends_with(content, nl) { ""@ } else { nl });
        if content == join(l, nl) {
            assert(a =~= join(l, nl) + nl);
        } else {
            assert(content == join(l, nl) + nl);
            assert(content.skip(content.len() - 1) =~= nl);
            assert(a =~= join(l, nl) + nl);
        }
        assert(le.drop_last() =~= l);
        assert(join(le, nl) == join(l, nl) + nl + e);
        assert(t =~= join(le, nl) + nl);
    }
    assert(t =~= join(le, nl) + nl);
    assert(all_free_of(le, '\n')) by {
        assert forall|i: int| 0 <= i < le.len() implies free_of(#[trigger] le[i], '\n') by {
            if i < l.len() {
                assert(le[i] == l[i]);
            }
        }
    }
    assert forall|i: int| 0 <= i < le.len() implies #[trigger] le[i].len() == 0 || le[i].last() != '\r' by {
        if i < l.len() {
            assert(le[i] == l[i]);
            assert(free_of(l[i], '\r'));
            if l[i].len() > 0 {
                assert(l[i][l[i].len() - 1] == l[i].last());
            }
        }
    }
    lemma_lines_of_joined(le);
    assert(lines(t) == le);
    assert forall|i: int| 0 <= i < l.len() implies trim(#[trigger] l[i]) != e by {
        if trim(l[i]) == e {
            assert(has_line(content, e));
        }
    }
    lemma_filter_keeps_all(l, e);
    l.lemma_filter_push(e, |x: Seq<char>| trim(x) != e);
    let kept = join(l, nl);
    assert(lines(t).filter(|x: Seq<char>| trim(x) != e) == l);
    let rest = if l.len() == 0 { t } else { nl + e + nl };
    if l.len() == 0 {
        assert(kept =~= Seq::<char>::empty());
        assert(t =~= kept + rest);
    } else {
        assert(t =~= kept + rest);
    }
    lemma_encode_concat(kept, rest);
    lemma_encode_nonempty(rest);
    lemma_encode_concat(content, if ends_with(content, nl) { ""@ } else { nl });
    lemma_encode_concat(content + (if ends_with(content, nl) { ""@ } else { nl }), e);
    lemma_encode_concat(content + (if ends_with(content, nl) { ""@ } else { nl }) + e, nl);
    assert(encode_utf8(nl).len() == 1) by {
        assert(nl[0] == '\n' && nl.drop_first() =~= Seq::<char>::empty());
        assert(encode_utf8(Seq::<char>::empty()) =~= Seq::<u8>::empty());
    }
    assert(encode_utf8(""@).len() == 0);
    if l.len() == 0 {
        assert(encode_utf8(t).len() == encode_utf8(e).len() + 1) by {
            lemma_encode_concat(e, nl);
        }
    }
    let u = gitignore_removed(t, folder)->0;
    if l.len() == 0 {
        assert(u =~= Seq::<char>::empty());
        assert(split(u, '\n') =~= seq![Seq::<char>::empty()]);
        assert(lines(u).len() == 0);
        assert(lines(u) =~= l);
    } else {
        assert(u == kept + nl);
        lemma_lines_of_joined(l);
    }
}

} // verus!
