//! Enabling an addon's plugin: the new `project.godot` text names the
//! plugin, so enabling it again changes nothing.
use vstd::prelude::*;
use crate::text::{contains, join, lemma_first_where_facts, occurs_at, starts_with, trim};
use crate::project::{
    after_array_start, close_pos, closes_at, default_enabled_line, enabled_line, extends_array, godot_lines,
    plugin_enabled, plugin_lines, plugin_path,
};
use crate::link_laws::lemma_encode_concat;
use crate::text::{ends_with, lemma_last_where_is, trim_start};
use vstd::utf8::{encode_utf8, encode_utf8_decode_utf8, is_ascii_chars, is_ascii_chars_encode_utf8};

verus! {

/// `p` between `a` and `b` occurs right after `a`.
pub proof fn lemma_occurs_between(a: Seq<char>, p: Seq<char>, b: Seq<char>)
    ensures
        occurs_at(a + p + b, p, a.len() as int),
        contains(a + p + b, p),
{
    assert((a + p + b).subrange(a.len() as int, (a.len() + p.len()) as int) =~= p);
}

/// An occurrence inside an occurrence.
pub proof fn lemma_occurs_within(s: Seq<char>, t: Seq<char>, p: Seq<char>, i: int, j: int)
    requires
        occurs_at(s, t, i),
        occurs_at(t, p, j),
    ensures
        occurs_at(s, p, i + j),
{
    assert forall|m: int| 0 <= m < p.len() implies s.subrange(i + j, i + j + p.len())[m] == p[m] by {
        assert(s.subrange(i, i + t.len())[j + m] == t[j + m]);
        assert(t.subrange(j, j + p.len())[m] == p[m]);
    }
    assert(s.subrange(i + j, i + j + p.len()) =~= p);
}

/// An occurrence in a prefix is one in the whole.
proof fn lemma_occurs_in_prefix(s: Seq<char>, x: Seq<char>, p: Seq<char>, i: int)
    requires
        occurs_at(s, p, i),
    ensures
        occurs_at(s + x, p, i),
{
    assert((s + x).subrange(i, i + p.len()) =~= s.subrange(i, i + p.len()));
}

/// Each part of a joined text occurs in it.
pub proof fn lemma_part_in_join(ls: Seq<Seq<char>>, sep: Seq<char>, k: int)
    requires
        0 <= k < ls.len(),
    ensures
        exists|o: int| occurs_at(join(ls, sep), ls[k], o),
    decreases ls.len(),
{
    if ls.len() == 1 {
        assert(join(ls, sep) == ls[0]);
        assert(join(ls, sep).subrange(0, ls[0].len() as int) =~= ls[0]);
        assert(occurs_at(join(ls, sep), ls[k], 0));
    } else {
        let init = ls.drop_last();
        assert(join(ls, sep) == join(init, sep) + sep + ls.last());
        if k == ls.len() - 1 {
            lemma_occurs_between(join(init, sep) + sep, ls.last(), Seq::<char>::empty());
            assert(join(init, sep) + sep + ls.last() + Seq::<char>::empty() =~= join(ls, sep));
            assert(occurs_at(join(ls, sep), ls[k], (join(init, sep) + sep).len() as int));
        } else {
            lemma_part_in_join(init, sep, k);
            let o = choose|o: int| occurs_at(join(init, sep), init[k], o);
            assert(init[k] == ls[k]);
            lemma_occurs_in_prefix(join(init, sep), sep + ls.last(), ls[k], o);
            assert(join(init, sep) + (sep + ls.last()) =~= join(ls, sep));
            assert(occurs_at(join(ls, sep), ls[k], o));
        }
    }
}

/// The `enabled=` line written for a plugin names it.
proof fn lemma_enabled_line_names(line: Seq<char>, path: Seq<char>)
    ensures
        contains(enabled_line(line, path), path),
        contains(default_enabled_line(path), path),
{
    lemma_occurs_between("enabled=PackedStringArray(\""@, path, "\")"@);
    match crate::project::close_pos(line) {
        Some(p) => {
            if crate::project::extends_array(line.take(p)) {
                let a = "enabled=PackedStringArray("@ + crate::project::after_array_start(line.take(p)) + ",\""@;
                lemma_occurs_between(a, path, "\")"@);
            }
        },
        None => {},
    }
}

/// The enabled plugin's path stands among the new lines.
proof fn lemma_plugin_lines_name(ls: Seq<Seq<char>>, path: Seq<char>)
    requires
        ls.len() > 0,
    ensures
        exists|k: int| 0 <= k < plugin_lines(ls, path).len() && contains(#[trigger] plugin_lines(ls, path)[k], path),
{
    lemma_enabled_line_names(Seq::empty(), path);
    let out = plugin_lines(ls, path);
    match crate::project::section_index(ls) {
        Some(s) => {
            lemma_first_where_facts(ls.len() as int, |i: int| trim(ls[i]) == "[editor_plugins]"@);
            match crate::project::enabled_index(ls, s) {
                Some(i) => {
                    lemma_first_where_facts(ls.len() as int, |i: int| i > s
                        && (starts_with(trim(ls[i]), "["@) || starts_with(trim(ls[i]), "enabled="@)));
                    lemma_enabled_line_names(ls[i], path);
                    assert(contains(out[i], path));
                },
                None => {
                    assert(contains(out[s + 1], path));
                },
            }
        },
        None => {
            assert(contains(out[out.len() - 1], path));
        },
    }
}

/// The text of `project.godot` after enabling a plugin names the plugin.
pub proof fn lemma_enabled_text_names_plugin(content: Seq<char>, folder: Seq<char>)
    ensures
        plugin_enabled(content, folder) matches Some(t) ==> contains(t, plugin_path(folder)),
{
    let path = plugin_path(folder);
    if !contains(content, path) {
        let ls = godot_lines(content);
        crate::text::lemma_split_nonempty(
            if crate::project::uses_crlf(content) { crate::project::crlf_to_lf(content) } else { content }, '\n');
        lemma_plugin_lines_name(ls, path);
        let out = plugin_lines(ls, path);
        let k = choose|k: int| 0 <= k < out.len() && contains(#[trigger] out[k], path);
        let sep = if crate::project::uses_crlf(content) { "\r\n"@ } else { "\n"@ };
        lemma_part_in_join(out, sep, k);
        let o = choose|o: int| occurs_at(join(out, sep), out[k], o);
        let j = choose|j: int| occurs_at(out[k], path, j);
        lemma_occurs_within(join(out, sep), out[k], path, o, j);
    }
}

/// Enabling a plugin twice is enabling it once: after the first time the
/// text names the plugin, and the second time leaves it as it is.
pub proof fn lemma_enable_plugin_twice(content: Seq<char>, folder: Seq<char>)
    ensures
        plugin_enabled(content, folder) matches Some(t) ==> plugin_enabled(t, folder) is None,
{
    lemma_enabled_text_names_plugin(content, folder);
}

/// A text ending with `PackedStringArray(` holds no array to extend.
proof fn lemma_open_array_not_extended(prefix: Seq<char>)
    requires
        ends_with(prefix, "PackedStringArray("@),
    ensures
        !extends_array(prefix),
{
    reveal_strlit("PackedStringArray(");
    reveal_strlit("\"");
    assert(prefix.skip(prefix.len() - 18)[17] == prefix.last());
    if ends_with(prefix, "\""@) {
        assert(prefix.skip(prefix.len() - 1)[0] == prefix.last());
    }
}

/// Law: an `enabled=` line whose array is empty (its closing `)` comes
/// right after `PackedStringArray(`) becomes the line that lists just the
/// new plugin, never an array with an empty first entry.
pub proof fn lemma_empty_array_gets_path(line: Seq<char>, path: Seq<char>, p: int)
    requires
        close_pos(line) == Some(p),
        ends_with(line.take(p), "PackedStringArray("@),
    ensures
        enabled_line(line, path) == default_enabled_line(path),
{
    lemma_open_array_not_extended(line.take(p));
}

/// The closing `)` of `enabled=PackedStringArray(<items>)` is its last
/// character.
proof fn lemma_close_at_end(items: Seq<char>)
    ensures
        close_pos("enabled=PackedStringArray("@ + items + ")"@) == Some(
            ("enabled=PackedStringArray("@ + items + ")"@).len() - 1,
        ),
{
    reveal_strlit(")");
    let line = "enabled=PackedStringArray("@ + items + ")"@;
    let p = line.len() - 1;
    assert(line[p] == ')');
    assert(line.skip(p + 1) =~= Seq::<char>::empty());
    assert(trim_start(Seq::<char>::empty()) =~= Seq::<char>::empty());
    assert(closes_at(line, p));
    lemma_last_where_is(line.len() as int, |q: int| closes_at(line, q), p);
}

/// `enabled=PackedStringArray(<items>` with `items` ending in `"` holds an
/// array to extend, and what follows its first 26 bytes is `items`.
proof fn lemma_listed_array(items: Seq<char>)
    requires
        items.len() > 0,
        items.last() == '"',
    ensures
        extends_array("enabled=PackedStringArray("@ + items),
        after_array_start("enabled=PackedStringArray("@ + items) == items,
{
    reveal_strlit("enabled=PackedStringArray(");
    reveal_strlit("PackedStringArray(");
    reveal_strlit("\"");
    let start = "enabled=PackedStringArray("@;
    let prefix = start + items;
    assert(prefix.subrange(8, 26) =~= "PackedStringArray("@);
    assert(occurs_at(prefix, "PackedStringArray("@, 8));
    assert(prefix.skip(prefix.len() - 1) =~= "\""@);
    assert(is_ascii_chars(start));
    is_ascii_chars_encode_utf8(start);
    lemma_encode_concat(start, items);
    assert(encode_utf8(prefix).skip(26) =~= encode_utf8(items));
    encode_utf8_decode_utf8(items);
}

/// An `enabled=` line whose array is extended gets the path appended.
proof fn lemma_extended_line(line: Seq<char>, path: Seq<char>, p: int)
    requires
        close_pos(line) == Some(p),
        extends_array(line.take(p)),
    ensures
        enabled_line(line, path) == "enabled=PackedStringArray("@ + after_array_start(line.take(p)) + ",\""@
            + path + "\")"@,
{
}

/// Law: enabling a plugin on an `enabled=` line that lists plugins keeps
/// every entry, in order, and adds the new plugin's path last.
pub proof fn lemma_listed_plugins_kept(items: Seq<char>, path: Seq<char>)
    requires
        items.len() > 0,
        items.last() == '"',
    ensures
        enabled_line("enabled=PackedStringArray("@ + items + ")"@, path)
            == "enabled=PackedStringArray("@ + items + ",\""@ + path + "\")"@,
{
    reveal_strlit(")");
    let start = "enabled=PackedStringArray("@;
    let line = start + items + ")"@;
    let p = line.len() - 1;
    lemma_close_at_end(items);
    assert(close_pos(line) == Some(p));
    let prefix = line.take(p);
    assert(prefix =~= start + items);
    lemma_listed_array(items);
    assert(extends_array(prefix));
    assert(after_array_start(prefix) == items);
    lemma_extended_line(line, path, p);
}

} // verus!
