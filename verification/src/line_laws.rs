//! How splitting a text at a character relates to joining lines: the facts
//! the laws about edited text files rest on.
use vstd::prelude::*;
use crate::text::{join, lemma_split_nonempty, line_count, line_piece, lines, split, strip_cr};

verus! {

/// No character of `s` is `c`.
pub open spec fn free_of(s: Seq<char>, c: char) -> bool {
    forall|j: int| 0 <= j < s.len() ==> s[j] != c
}

/// No line of `ls` holds `c`.
pub open spec fn all_free_of(ls: Seq<Seq<char>>, c: char) -> bool {
    forall|i: int| 0 <= i < ls.len() ==> free_of(#[trigger] ls[i], c)
}

/// Splitting a concatenation: the last piece of `s` and the first of `t`
/// join.
pub proof fn lemma_split_append(s: Seq<char>, t: Seq<char>, c: char)
    ensures
        split(s + t, c) == split(s, c).drop_last() + seq![split(s, c).last() + split(t, c)[0]] + split(t, c).skip(1),
    decreases t.len(),
{
    lemma_split_nonempty(s, c);
    lemma_split_nonempty(t, c);
    let ss = split(s, c);
    if t.len() == 0 {
        assert(s + t =~= s);
        assert(split(t, c) =~= seq![Seq::<char>::empty()]);
        assert(ss.last() + Seq::<char>::empty() =~= ss.last());
        assert(ss.drop_last() + seq![ss.last()] =~= ss);
        assert(split(t, c).skip(1) =~= Seq::<Seq<char>>::empty());
        assert(ss.drop_last() + seq![ss.last() + split(t, c)[0]] + split(t, c).skip(1) =~= ss);
    } else {
        let t2 = t.drop_last();
        let x = t.last();
        lemma_split_append(s, t2, c);
        lemma_split_nonempty(t2, c);
        assert((s + t).drop_last() =~= s + t2);
        assert((s + t).last() == x);
        assert((s + t).len() > 0);
        let tt = split(t2, c);
        let i0 = split(s + t2, c);
        assert(i0 == ss.drop_last() + seq![ss.last() + tt[0]] + tt.skip(1));
        if x == c {
            assert(split(s + t, c) == i0.push(Seq::<char>::empty()));
            assert(split(t, c) == tt.push(Seq::<char>::empty()));
            assert(split(t, c)[0] == tt[0]);
            assert(split(t, c).skip(1) =~= tt.skip(1).push(Seq::<char>::empty()));
            assert(split(s + t, c) =~= ss.drop_last() + seq![ss.last() + split(t, c)[0]] + split(t, c).skip(1));
        } else {
            assert(split(s + t, c) == i0.update(i0.len() - 1, i0.last().push(x)));
            assert(split(t, c) == tt.update(tt.len() - 1, tt.last().push(x)));
            if tt.len() == 1 {
                assert(split(t, c)[0] == tt[0].push(x));
                assert(split(t, c).skip(1) =~= Seq::<Seq<char>>::empty());
                assert(tt.skip(1) =~= Seq::<Seq<char>>::empty());
                assert((ss.last() + tt[0]).push(x) =~= ss.last() + tt[0].push(x));
                assert(split(s + t, c) =~= ss.drop_last() + seq![ss.last() + split(t, c)[0]] + split(t, c).skip(1));
            } else {
                assert(split(t, c)[0] == tt[0]);
                assert(split(t, c).skip(1) =~= tt.skip(1).update(tt.len() - 2, tt.last().push(x)));
                assert(split(s + t, c) =~= ss.drop_last() + seq![ss.last() + split(t, c)[0]] + split(t, c).skip(1));
            }
        }
    }
}

/// A text without `c` is a single piece.
pub proof fn lemma_split_free(s: Seq<char>, c: char)
    requires
        free_of(s, c),
    ensures
        split(s, c) == seq![s],
    decreases s.len(),
{
    if s.len() == 0 {
        assert(s =~= Seq::<char>::empty());
        assert(split(s, c) =~= seq![s]);
    } else {
        let s2 = s.drop_last();
        assert(free_of(s2, c)) by {
            assert forall|j: int| 0 <= j < s2.len() implies s2[j] != c by {
                assert(s2[j] == s[j]);
            }
        }
        lemma_split_free(s2, c);
        assert(s.last() != c) by {
            assert(s[s.len() - 1] == s.last());
        }
        assert(s2.push(s.last()) =~= s);
        let init = split(s2, c);
        assert(split(s, c) == init.update(init.len() - 1, init.last().push(s.last())));
        assert(init.update(init.len() - 1, init.last().push(s.last())) =~= seq![s]);
    }
}

/// The separator alone splits into two empty pieces.
pub proof fn lemma_split_sep(c: char)
    ensures
        split(seq![c], c) == seq![Seq::<char>::empty(), Seq::<char>::empty()],
{
    assert(seq![c].drop_last() =~= Seq::<char>::empty());
    assert(split(Seq::<char>::empty(), c) =~= seq![Seq::<char>::empty()]);
    assert(split(seq![c], c) =~= seq![Seq::<char>::empty(), Seq::<char>::empty()]);
}

/// Lines joined with `c`, each followed by `c` at the end, split back into
/// the lines and a last empty piece.
pub proof fn lemma_split_joined(ls: Seq<Seq<char>>, c: char)
    requires
        ls.len() >= 1,
        all_free_of(ls, c),
    ensures
        split(join(ls, seq![c]) + seq![c], c) == ls.push(Seq::<char>::empty()),
    decreases ls.len(),
{
    lemma_split_sep(c);
    if ls.len() == 1 {
        assert(join(ls, seq![c]) == ls[0]);
        assert(free_of(ls[0], c));
        lemma_split_free(ls[0], c);
        lemma_split_append(ls[0], seq![c], c);
        assert(seq![ls[0]].drop_last() =~= Seq::<Seq<char>>::empty());
        assert(ls[0] + Seq::<char>::empty() =~= ls[0]);
        assert(split(join(ls, seq![c]) + seq![c], c) =~= ls.push(Seq::<char>::empty()));
    } else {
        let init = ls.drop_last();
        let x = ls.last();
        assert(all_free_of(init, c)) by {
            assert forall|i: int| 0 <= i < init.len() implies free_of(#[trigger] init[i], c) by {
                assert(init[i] == ls[i]);
            }
        }
        assert(free_of(x, c)) by {
            assert(ls[ls.len() - 1] == x);
        }
        lemma_split_joined(init, c);
        assert(join(ls, seq![c]) == join(init, seq![c]) + seq![c] + x);
        let a = join(init, seq![c]) + seq![c];
        let b = x + seq![c];
        assert(join(ls, seq![c]) + seq![c] =~= a + b);
        lemma_split_free(x, c);
        lemma_split_append(x, seq![c], c);
        assert(split(b, c) =~= seq![x, Seq::<char>::empty()]);
        lemma_split_append(a, b, c);
        assert(split(a, c) == init.push(Seq::<char>::empty()));
        assert(split(a, c).drop_last() =~= init);
        assert(split(a, c).last() + split(b, c)[0] =~= x);
        assert(split(b, c).skip(1) =~= seq![Seq::<char>::empty()]);
        assert(split(a + b, c) =~= ls.push(Seq::<char>::empty()));
    }
}

/// Lines without line breaks, none ending in a carriage return, joined
/// with `\n` and ended by one are read back as the same lines.
pub proof fn lemma_lines_of_joined(ls: Seq<Seq<char>>)
    requires
        ls.len() >= 1,
        all_free_of(ls, '\n'),
        forall|i: int| 0 <= i < ls.len() ==> #[trigger] ls[i].len() == 0 || ls[i].last() != '\r',
    ensures
        lines(join(ls, "\n"@) + "\n"@) == ls,
{
    reveal_strlit("\n");
    assert("\n"@ =~= seq!['\n']);
    lemma_split_joined(ls, '\n');
    let p = split(join(ls, "\n"@) + "\n"@, '\n');
    assert(p == ls.push(Seq::<char>::empty()));
    assert(line_count(p) == ls.len());
    assert forall|i: int| 0 <= i < ls.len() implies #[trigger] line_piece(p, i) == ls[i] by {
        assert(p[i] == ls[i]);
        assert(strip_cr(ls[i]) == ls[i]);
    }
    assert(lines(join(ls, "\n"@) + "\n"@) =~= ls);
}

/// The pieces of a split hold no separator.
pub proof fn lemma_split_pieces_free(s: Seq<char>, c: char)
    ensures
        all_free_of(split(s, c), c),
    decreases s.len(),
{
    if s.len() > 0 {
        lemma_split_pieces_free(s.drop_last(), c);
        lemma_split_nonempty(s.drop_last(), c);
        let init = split(s.drop_last(), c);
        if s.last() != c {
            let last = init.last().push(s.last());
            assert(free_of(last, c)) by {
                assert(free_of(init[init.len() - 1], c));
                assert forall|j: int| 0 <= j < last.len() implies last[j] != c by {
                    if j < init.last().len() {
                        assert(last[j] == init.last()[j]);
                    }
                }
            }
            assert forall|i: int| 0 <= i < split(s, c).len() implies free_of(#[trigger] split(s, c)[i], c) by {
                if i < init.len() - 1 {
                    assert(split(s, c)[i] == init[i]);
                }
            }
        } else {
            assert forall|i: int| 0 <= i < split(s, c).len() implies free_of(#[trigger] split(s, c)[i], c) by {
                if i < init.len() {
                    assert(split(s, c)[i] == init[i]);
                }
            }
        }
    } else {
        assert(split(s, c) =~= seq![Seq::<char>::empty()]);
    }
}

/// The lines of a text without carriage returns hold no line break and no
/// carriage return.
pub proof fn lemma_lines_clean(s: Seq<char>)
    requires
        free_of(s, '\r'),
    ensures
        all_free_of(lines(s), '\n'),
        all_free_of(lines(s), '\r'),
{
    lemma_split_pieces_free(s, '\n');
    lemma_split_pieces_free_of_other(s, '\n', '\r');
    let p = split(s, '\n');
    lemma_split_nonempty(s, '\n');
    assert forall|i: int| 0 <= i < lines(s).len() implies free_of(#[trigger] lines(s)[i], '\n') && free_of(lines(s)[i], '\r') by {
        assert(lines(s)[i] == line_piece(p, i));
        assert(free_of(p[i], '\n') && free_of(p[i], '\r'));
        if i < p.len() - 1 && p[i].len() > 0 && p[i].last() == '\r' {
            assert(p[i][p[i].len() - 1] == '\r');
        }
    }
}

/// Splitting at `c` keeps out of the pieces any character `d` the text is
/// free of.
pub proof fn lemma_split_pieces_free_of_other(s: Seq<char>, c: char, d: char)
    requires
        free_of(s, d),
    ensures
        all_free_of(split(s, c), d),
    decreases s.len(),
{
    if s.len() > 0 {
        let s2 = s.drop_last();
        assert(free_of(s2, d)) by {
            assert forall|j: int| 0 <= j < s2.len() implies s2[j] != d by {
                assert(s2[j] == s[j]);
            }
        }
        lemma_split_pieces_free_of_other(s2, c, d);
        lemma_split_nonempty(s2, c);
        let init = split(s2, c);
        assert(s.last() != d) by {
            assert(s[s.len() - 1] == s.last());
        }
        if s.last() != c {
            let last = init.last().push(s.last());
            assert(free_of(last, d)) by {
                assert(free_of(init[init.len() - 1], d));
                assert forall|j: int| 0 <= j < last.len() implies last[j] != d by {
                    if j < init.last().len() {
                        assert(last[j] == init.last()[j]);
                    }
                }
            }
            assert forall|i: int| 0 <= i < split(s, c).len() implies free_of(#[trigger] split(s, c)[i], d) by {
                if i < init.len() - 1 {
                    assert(split(s, c)[i] == init[i]);
                }
            }
        } else {
            assert forall|i: int| 0 <= i < split(s, c).len() implies free_of(#[trigger] split(s, c)[i], d) by {
                if i < init.len() {
                    assert(split(s, c)[i] == init[i]);
                }
            }
        }
    } else {
        assert(split(s, c) =~= seq![Seq::<char>::empty()]);
    }
}

/// Extending the last piece by `x` extends the joined text by `x`.
proof fn lemma_join_extend_last(ls: Seq<Seq<char>>, x: char, c: char)
    requires
        ls.len() >= 1,
    ensures
        join(ls.update(ls.len() - 1, ls.last().push(x)), seq![c]) == join(ls, seq![c]).push(x),
{
    let u = ls.update(ls.len() - 1, ls.last().push(x));
    if ls.len() == 1 {
        assert(u[0] == ls[0].push(x));
    } else {
        assert(u.drop_last() =~= ls.drop_last());
        assert(u.last() == ls.last().push(x));
        assert(join(u, seq![c]) =~= join(ls, seq![c]).push(x));
    }
}

/// Joining the pieces of a text split at `c` with `c` gives the text back.
pub proof fn lemma_join_split(s: Seq<char>, c: char)
    ensures
        join(split(s, c), seq![c]) == s,
    decreases s.len(),
{
    if s.len() == 0 {
        assert(split(s, c) =~= seq![Seq::<char>::empty()]);
        assert(s =~= Seq::<char>::empty());
    } else {
        let init = split(s.drop_last(), c);
        lemma_join_split(s.drop_last(), c);
        lemma_split_nonempty(s.drop_last(), c);
        if s.last() == c {
            let p = init.push(Seq::<char>::empty());
            assert(p.drop_last() =~= init);
            assert(join(p, seq![c]) =~= s.drop_last() + seq![c] + Seq::<char>::empty());
            assert(s =~= s.drop_last() + seq![c]);
        } else {
            lemma_join_extend_last(init, s.last(), c);
            assert(s =~= s.drop_last().push(s.last()));
        }
    }
}

} // verus!
