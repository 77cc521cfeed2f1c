//! Reading back the tags that were written into a `project.godot` text.
use vstd::prelude::*;
use crate::text::{first_where, join, lemma_first_where_facts, lemma_first_where_is, lines, split, trim};
use crate::line_laws::{all_free_of, free_of, lemma_lines_clean, lemma_lines_of_joined, lemma_split_append, lemma_split_free, lemma_split_sep};
use crate::tags::{application_at, declared_tags, is_tags_line, odd_pieces, quoted_items, quoted_tags, tags_line_at, tags_line_index, tags_setting, with_tags};

verus! {

/// A tag that can be written and read back: no double quote, no line break.
pub open spec fn plain_tag(t: Seq<char>) -> bool {
    free_of(t, '"') && free_of(t, '\n') && free_of(t, '\r')
}

proof fn lemma_free_concat(a: Seq<char>, b: Seq<char>, c: char)
    requires
        free_of(a, c),
        free_of(b, c),
    ensures
        free_of(a + b, c),
{
    assert forall|j: int| 0 <= j < (a + b).len() implies (a + b)[j] != c by {
        if j < a.len() {
            assert((a + b)[j] == a[j]);
        } else {
            assert((a + b)[j] == b[j - a.len()]);
        }
    }
}

proof fn lemma_join_free(parts: Seq<Seq<char>>, sep: Seq<char>, c: char)
    requires
        all_free_of(parts, c),
        free_of(sep, c),
    ensures
        free_of(join(parts, sep), c),
    decreases parts.len(),
{
    if parts.len() == 1 {
        assert(free_of(parts[0], c));
    } else if parts.len() > 1 {
        let init = parts.drop_last();
        assert(all_free_of(init, c)) by {
            assert forall|i: int| 0 <= i < init.len() implies free_of(#[trigger] init[i], c) by {
                assert(init[i] == parts[i]);
            }
        }
        lemma_join_free(init, sep, c);
        assert(free_of(parts.last(), c)) by {
            assert(parts[parts.len() - 1] == parts.last());
        }
        lemma_free_concat(join(init, sep), sep, c);
        lemma_free_concat(join(init, sep) + sep, parts.last(), c);
    }
}

proof fn lemma_quoted_len(tags: Seq<Seq<char>>)
    ensures
        quoted_tags(tags).len() == tags.len(),
    decreases tags.len(),
{
    if tags.len() > 0 {
        lemma_quoted_len(tags.drop_last());
    }
}

proof fn lemma_quoted_free(tags: Seq<Seq<char>>, c: char)
    requires
        c != '"',
        forall|i: int| 0 <= i < tags.len() ==> free_of(#[trigger] tags[i], c),
    ensures
        all_free_of(quoted_tags(tags), c),
    decreases tags.len(),
{
    reveal_strlit("\"");
    if tags.len() > 0 {
        let init = tags.drop_last();
        assert forall|i: int| 0 <= i < init.len() implies free_of(#[trigger] init[i], c) by {
            assert(init[i] == tags[i]);
        }
        lemma_quoted_free(init, c);
        lemma_quoted_len(init);
        let t = tags.last();
        assert(free_of(t, c)) by {
            assert(tags[tags.len() - 1] == t);
        }
        assert(free_of("\""@, c));
        lemma_free_concat("\""@, t, c);
        lemma_free_concat("\""@ + t, "\""@, c);
        let q = quoted_tags(tags);
        assert forall|i: int| 0 <= i < q.len() implies free_of(#[trigger] q[i], c) by {
            if i < init.len() {
                assert(q[i] == quoted_tags(init)[i]);
            }
        }
    }
}

/// `u`, a double quote, `t` and a double quote split at double quotes into
/// `u`, `t` and an empty piece.
proof fn lemma_split_quoted(u: Seq<char>, t: Seq<char>)
    requires
        free_of(u, '"'),
        free_of(t, '"'),
    ensures
        split(u + "\""@ + t + "\""@, '"') == seq![u, t, Seq::<char>::empty()],
{
    reveal_strlit("\"");
    let dq = "\""@;
    assert(dq =~= seq!['"']);
    lemma_split_sep('"');
    lemma_split_free(u, '"');
    lemma_split_free(t, '"');
    lemma_split_append(u, dq, '"');
    let a = split(u + dq, '"');
    assert(a =~= seq![u, Seq::<char>::empty()]);
    lemma_split_append(u + dq, t, '"');
    let b = split(u + dq + t, '"');
    assert(b =~= seq![u, t]);
    lemma_split_append(u + dq + t, dq, '"');
    assert(split(u + dq + t + dq, '"') =~= seq![u, t, Seq::<char>::empty()]);
}

/// The text of a tags setting before its closing bracket.
spec fn setting_body(tags: Seq<Seq<char>>) -> Seq<char> {
    "config/tags=PackedStringArray("@ + join(quoted_tags(tags), ", "@)
}

proof fn lemma_literals_free()
    ensures
        free_of("config/tags=PackedStringArray("@, '"'),
        free_of("config/tags=PackedStringArray("@, '\n'),
        free_of("config/tags=PackedStringArray("@, '\r'),
        free_of(", "@, '"'),
        free_of(", "@, '\n'),
        free_of(", "@, '\r'),
        free_of(")"@, '"'),
        free_of(")"@, '\n'),
        free_of(")"@, '\r'),
        free_of("[application]"@, '\n'),
        free_of("[application]"@, '\r'),
{
    reveal_strlit("config/tags=PackedStringArray(");
    reveal_strlit(", ");
    reveal_strlit(")");
    reveal_strlit("[application]");
}

/// The setting's body splits at double quotes into the opening text, then
/// each tag followed by the separator piece after it, ending in an empty
/// piece once there is a tag.
proof fn lemma_body_split(tags: Seq<Seq<char>>)
    requires
        forall|i: int| 0 <= i < tags.len() ==> free_of(#[trigger] tags[i], '"'),
    ensures
        split(setting_body(tags), '"').len() == 2 * tags.len() + 1,
        forall|k: int| 0 <= k < tags.len() ==> split(setting_body(tags), '"')[2 * k + 1] == #[trigger] tags[k],
        split(setting_body(tags), '"').last() == (if tags.len() == 0 { "config/tags=PackedStringArray("@ } else {
            Seq::<char>::empty() }),
    decreases tags.len(),
{
    lemma_literals_free();
    let p = "config/tags=PackedStringArray("@;
    let sep = ", "@;
    if tags.len() == 0 {
        assert(join(quoted_tags(tags), sep) =~= Seq::<char>::empty());
        assert(setting_body(tags) =~= p);
        lemma_split_free(p, '"');
    } else {
        let init = tags.drop_last();
        let t = tags.last();
        assert(free_of(t, '"')) by {
            assert(tags[tags.len() - 1] == t);
        }
        assert forall|i: int| 0 <= i < init.len() implies free_of(#[trigger] init[i], '"') by {
            assert(init[i] == tags[i]);
        }
        lemma_quoted_len(init);
        let q = "\""@ + t + "\""@;
        let qs = quoted_tags(tags);
        assert(qs == quoted_tags(init).push(q));
        assert(qs.drop_last() =~= quoted_tags(init));
        assert(qs.last() == q);
        if init.len() == 0 {
            assert(join(qs, sep) == q);
            assert(setting_body(tags) =~= p + "\""@ + t + "\""@);
            lemma_split_quoted(p, t);
            let ps = split(setting_body(tags), '"');
            assert(ps =~= seq![p, t, Seq::<char>::empty()]);
            assert forall|k: int| 0 <= k < tags.len() implies ps[2 * k + 1] == #[trigger] tags[k] by {
                assert(k == 0);
            }
        } else {
            lemma_body_split(init);
            assert(join(qs, sep) == join(quoted_tags(init), sep) + sep + q);
            let b = setting_body(init);
            assert(setting_body(tags) =~= b + (sep + "\""@ + t + "\""@));
            lemma_split_quoted(sep, t);
            lemma_split_append(b, sep + "\""@ + t + "\""@, '"');
            let pb = split(b, '"');
            let ps = split(setting_body(tags), '"');
            let tail = seq![sep, t, Seq::<char>::empty()];
            assert(ps == pb.drop_last() + seq![pb.last() + tail[0]] + tail.skip(1));
            assert(pb.last() + sep =~= sep);
            assert(ps =~= pb.drop_last() + seq![sep, t, Seq::<char>::empty()]);
            assert forall|k: int| 0 <= k < tags.len() implies ps[2 * k + 1] == #[trigger] tags[k] by {
                if k < init.len() {
                    assert(ps[2 * k + 1] == pb[2 * k + 1]);
                    assert(pb[2 * k + 1] == init[k]);
                    assert(init[k] == tags[k]);
                } else {
                    assert(k == init.len());
                }
            }
        }
    }
}

proof fn lemma_odd_pieces(ps: Seq<Seq<char>>, tags: Seq<Seq<char>>, k: nat)
    requires
        k <= tags.len(),
        ps.len() >= 2 * tags.len() + 1,
        forall|j: int| 0 <= j < tags.len() ==> ps[2 * j + 1] == #[trigger] tags[j],
    ensures
        odd_pieces(ps, k) == tags.take(k as int),
    decreases k,
{
    if k > 0 {
        lemma_odd_pieces(ps, tags, (k - 1) as nat);
        assert(ps[2 * (k - 1) + 1] == tags[k - 1]);
        assert(tags.take(k as int) =~= tags.take(k - 1).push(tags[k - 1]));
    } else {
        assert(tags.take(0) =~= Seq::<Seq<char>>::empty());
    }
}

/// The quoted texts of a tags setting are its tags.
proof fn lemma_setting_items(tags: Seq<Seq<char>>)
    requires
        forall|i: int| 0 <= i < tags.len() ==> free_of(#[trigger] tags[i], '"'),
    ensures
        quoted_items(tags_setting(tags)) == tags,
{
    lemma_literals_free();
    lemma_body_split(tags);
    let b = setting_body(tags);
    assert(tags_setting(tags) =~= b + ")"@);
    lemma_split_free(")"@, '"');
    lemma_split_append(b, ")"@, '"');
    let pb = split(b, '"');
    let ps = split(tags_setting(tags), '"');
    assert(ps =~= pb.drop_last() + seq![pb.last() + ")"@]);
    assert(ps.len() == 2 * tags.len() + 1);
    assert forall|j: int| 0 <= j < tags.len() implies ps[2 * j + 1] == #[trigger] tags[j] by {
        assert(ps[2 * j + 1] == pb[2 * j + 1]);
    }
    assert(ps.len() / 2 == tags.len());
    lemma_odd_pieces(ps, tags, tags.len());
    assert(tags.take(tags.len() as int) =~= tags);
}

/// A tags setting is a line of its own that sets the tags.
proof fn lemma_setting_line(tags: Seq<Seq<char>>)
    requires
        forall|i: int| 0 <= i < tags.len() ==> plain_tag(#[trigger] tags[i]),
    ensures
        free_of(tags_setting(tags), '\n'),
        free_of(tags_setting(tags), '\r'),
        trim(tags_setting(tags)) == tags_setting(tags),
        is_tags_line(tags_setting(tags)),
{
    lemma_literals_free();
    reveal_strlit("config/tags=PackedStringArray(");
    reveal_strlit("config/tags=");
    reveal_strlit(")");
    let p = "config/tags=PackedStringArray("@;
    let s = tags_setting(tags);
    let body = join(quoted_tags(tags), ", "@);
    assert(s == p + body + ")"@);
    assert forall|i: int| 0 <= i < tags.len() implies free_of(#[trigger] tags[i], '\n') by {
        assert(plain_tag(tags[i]));
    }
    assert forall|i: int| 0 <= i < tags.len() implies free_of(#[trigger] tags[i], '\r') by {
        assert(plain_tag(tags[i]));
    }
    lemma_quoted_free(tags, '\n');
    lemma_quoted_free(tags, '\r');
    lemma_join_free(quoted_tags(tags), ", "@, '\n');
    lemma_join_free(quoted_tags(tags), ", "@, '\r');
    lemma_free_concat(p, body, '\n');
    lemma_free_concat(p + body, ")"@, '\n');
    lemma_free_concat(p, body, '\r');
    lemma_free_concat(p + body, ")"@, '\r');
    assert(s[0] == 'c');
    assert(s.last() == ')');
    crate::laws::lemma_trim_plain(s);
    assert(s.take(12) =~= "config/tags="@);
}

/// The first line of `ls` that sets the tags is at `i`.
proof fn lemma_first_tags_line(ls: Seq<Seq<char>>, i: int)
    requires
        0 <= i < ls.len(),
        is_tags_line(ls[i]),
        forall|j: int| 0 <= j < i ==> !is_tags_line(#[trigger] ls[j]),
    ensures
        tags_line_index(ls) == Some(i),
{
    let pred = tags_line_at(ls);
    assert forall|j: int| 0 <= j < i implies !#[trigger] pred(j) by {
        assert(!is_tags_line(ls[j]));
    }
    lemma_first_where_is(ls.len() as int, pred, i);
}

/// Reading back the tags of a `project.godot` text after setting them gives
/// exactly the tags set, for a text without carriage returns and tags
/// without double quotes or line breaks.
pub proof fn lemma_tags_read_back(content: Seq<char>, tags: Seq<Seq<char>>)
    requires
        free_of(content, '\r'),
        forall|i: int| 0 <= i < tags.len() ==> plain_tag(#[trigger] tags[i]),
    ensures
        declared_tags(with_tags(content, tags)) == tags,
{
    lemma_literals_free();
    reveal_strlit("[application]");
    reveal_strlit("config/tags=");
    lemma_setting_line(tags);
    assert forall|i: int| 0 <= i < tags.len() implies free_of(#[trigger] tags[i], '"') by {
        assert(plain_tag(tags[i]));
    }
    lemma_setting_items(tags);
    lemma_lines_clean(content);
    let ls = lines(content);
    let line = tags_setting(tags);
    let app = "[application]"@;
    lemma_first_where_facts(ls.len() as int, tags_line_at(ls));
    lemma_first_where_facts(ls.len() as int, application_at(ls));
    let out = match tags_line_index(ls) {
        Some(i) => ls.update(i, line),
        None => match first_where(ls.len() as int, application_at(ls)) {
            Some(a) => ls.insert(a + 1, line),
            None => ls + seq![app, line],
        },
    };
    assert(with_tags(content, tags) == join(out, "\n"@) + "\n"@);
    let idx: int = match tags_line_index(ls) {
        Some(i) => i,
        None => match first_where(ls.len() as int, application_at(ls)) {
            Some(a) => a + 1,
            None => ls.len() as int + 1,
        },
    };
    assert(0 <= idx < out.len() && out[idx] == line);
    assert(forall|j: int| 0 <= j < out.len() && j != idx ==> (out[j] == app || exists|k: int| 0 <= k < ls.len() && out[j] == #[trigger] ls[k]));
    assert(all_free_of(out, '\n') && all_free_of(out, '\r')) by {
        assert forall|j: int| 0 <= j < out.len() implies free_of(#[trigger] out[j], '\n') && free_of(out[j], '\r') by {
            if j != idx && out[j] != app {
                let k = choose|k: int| 0 <= k < ls.len() && out[j] == #[trigger] ls[k];
                assert(free_of(ls[k], '\n') && free_of(ls[k], '\r'));
            }
        }
    }
    assert forall|j: int| 0 <= j < out.len() implies #[trigger] out[j].len() == 0 || out[j].last() != '\r' by {
        if out[j].len() > 0 {
            assert(free_of(out[j], '\r'));
            assert(out[j][out[j].len() - 1] != '\r');
        }
    }
    lemma_lines_of_joined(out);
    assert(lines(with_tags(content, tags)) == out);
    assert(!is_tags_line(app)) by {
        crate::laws::lemma_trim_plain(app);
        assert(app[0] != "config/tags="@[0]);
        assert(app.take(12)[0] != "config/tags="@[0]);
    }
    assert forall|j: int| 0 <= j < idx implies !is_tags_line(#[trigger] out[j]) by {
        match tags_line_index(ls) {
            Some(i) => {
                assert(out[j] == ls[j]);
                assert(!tags_line_at(ls)(j));
            },
            None => {
                if j < ls.len() {
                    assert(out[j] == ls[j]);
                    assert(!tags_line_at(ls)(j));
                } else {
                    assert(out[j] == app);
                }
            },
        }
    }
    lemma_first_tags_line(out, idx);
    assert(declared_tags(with_tags(content, tags)) == quoted_items(trim(line)));
}

} // verus!
