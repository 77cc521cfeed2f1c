//! Properties that relate several operations of the library.
use vstd::prelude::*;
use crate::text::{contains, ends_with, is_ws, starts_with, trim_start};
use crate::numparse::{all_digits, decimal, digit_value, digits_value, parse_unsigned, unsigned_body};
use crate::version::{compatible, version_numbers};
use crate::config::{editor_key, relative_time, versions_match, Config, EditorInfo, ItchProjectConfig, ProjectInfo};
use crate::editors::has_editor_for;
use crate::text::trim_start_char;

use crate::addons::{bare_key_quoted, key_unquoted, gitignore_added, gitignore_entry, gitignore_removed, has_line};
use crate::line_laws::{all_free_of, free_of, lemma_lines_clean, lemma_lines_of_joined, lemma_split_append, lemma_split_free};
use crate::text::{join, lemma_split_nonempty, line_count, line_piece, lines, split, trim, trim_end};
use crate::builder::{merged_args, overridden};
use crate::sync::after_visit;


verus! {

/// An editor that has been registered is found again under its key, and
/// unregistering that key forgets it as if it had never been registered.
pub proof fn lemma_register_editor_then_lookup(editors: Map<Seq<char>, EditorInfo>, e: EditorInfo)
    ensures
        editors.insert(editor_key(e), e).contains_key(editor_key(e)),
        editors.insert(editor_key(e), e)[editor_key(e)] == e,
        editors.insert(editor_key(e), e).remove(editor_key(e)) == editors.remove(editor_key(e)),
{
    assert(editors.insert(editor_key(e), e).remove(editor_key(e)) =~= editors.remove(editor_key(e)));
}

/// A project registered and then removed by its path leaves the other
/// projects as they were, and, being the most recent project, is no longer
/// the most recent one.
pub proof fn lemma_register_then_remove_project(projects: Map<Seq<char>, ProjectInfo>, p: ProjectInfo)
    ensures
        projects.insert(p.path@, p).remove(p.path@) == projects.remove(p.path@),
        (match Some(p.path) {
            Some(r) => if r@ == p.path@ { None } else { Some(r) },
            None => None::<String>,
        }) is None,
{
    assert(projects.insert(p.path@, p).remove(p.path@) =~= projects.remove(p.path@));
}

/// The itch.io settings set for a project are those read back for it.
pub proof fn lemma_set_then_get_itch_project(projects: Map<Seq<char>, ItchProjectConfig>, path: Seq<char>, c: ItchProjectConfig)
    ensures
        projects.insert(path, c).contains_key(path),
        projects.insert(path, c)[path] == c,
{
}

/// Every version satisfies itself as a minimum and as a maximum.
pub proof fn lemma_compatible_reflexive(v: Seq<char>, is_min: bool)
    ensures
        compatible(v, v, is_min),
{
}

/// Every engine version is at least or at most any constraint; it is both
/// exactly when their major, minor and patch numbers agree.
pub proof fn lemma_compatible_min_max(engine: Seq<char>, constraint: Seq<char>)
    ensures
        compatible(engine, constraint, true) || compatible(engine, constraint, false),
        (compatible(engine, constraint, true) && compatible(engine, constraint, false))
            <==> version_numbers(engine) == version_numbers(constraint),
{
}

proof fn lemma_decimal_digits(n: nat)
    ensures
        all_digits(decimal(n)),
        digits_value(decimal(n)) == n,
        decimal(n).len() > 0,
        decimal(n)[0] != '+',
    decreases n,
{
    if n < 10 {
        assert(decimal(n).drop_last() =~= Seq::<char>::empty());
        assert(digits_value(decimal(n)) == digits_value(decimal(n).drop_last()) * 10 + digit_value(decimal(n).last()));
    }
    if n >= 10 {
        lemma_decimal_digits(n / 10);
        let d = decimal(n / 10);
        let s = decimal(n);
        assert(s.drop_last() == d);
        assert(digit_value(s.last()) == n % 10);
        assert((n / 10) * 10 + n % 10 == n) by (nonlinear_arith);
        assert(digits_value(s) == digits_value(s.drop_last()) * 10 + digit_value(s.last()));
        assert(all_digits(s)) by {
            assert forall|i: int| 0 <= i < s.len() implies crate::text::is_digit(#[trigger] s[i]) by {
                if i < d.len() {
                    assert(s[i] == d[i]);
                }
            }
        }
        assert(s[0] == d[0]);
    }
}

/// A number written in decimal reads back as that number.
pub proof fn lemma_decimal_parses_back(n: nat)
    requires
        n <= u64::MAX,
    ensures
        parse_unsigned(decimal(n), u64::MAX as int) == Some(n as int),
{
    lemma_decimal_digits(n);
    assert(unsigned_body(decimal(n)) == decimal(n));
}

/// A timestamp written as the current time (`chrono_now`) is always read
/// back as a time by `format_relative_time`, never as "never".
pub proof fn lemma_recorded_time_is_read_back(n: nat, now: nat)
    requires
        n <= u64::MAX,
    ensures
        relative_time(decimal(n), now) != "never"@,
{
    lemma_decimal_parses_back(n);
    reveal_strlit("never");
    reveal_strlit("just now");
    if n <= now {
        let t = relative_time(decimal(n), now);
        assert(t != "never"@) by {
            lemma_elapsed_not_never((now - n) as nat);
        }
    } else {
        assert("just now"@.len() != "never"@.len());
    }
}

proof fn lemma_elapsed_not_never(diff: nat)
    ensures
        crate::config::elapsed_text(diff) != "never"@,
{
    reveal_strlit("never");
    reveal_strlit("just now");
    reveal_strlit("1 min ago");
    reveal_strlit(" min ago");
    reveal_strlit("1 h ago");
    reveal_strlit(" h ago");
    reveal_strlit("1 h ");
    reveal_strlit(" h ");
    reveal_strlit("1 week ago");
    reveal_strlit(" weeks ago");
    reveal_strlit("1 week ");
    reveal_strlit(" weeks ");
    reveal_strlit(" d ago");
    reveal_strlit("1 month ago");
    reveal_strlit(" months ago");
    reveal_strlit("1 year ago");
    reveal_strlit(" years ago");
    let t = crate::config::elapsed_text(diff);
    assert(t.last() == 'o' || t.last() == 'w');
    assert("never"@.last() == 'r');
}

/// Arguments given by the user win: no argument kept from the base sets a
/// key that the user's arguments set, and the user's arguments close the list.
pub proof fn lemma_merge_args_extra_wins(base: Seq<Seq<char>>, extra: Seq<Seq<char>>)
    ensures
        merged_args(base, extra).skip(merged_args(base, extra).len() - extra.len()) == extra,
        forall|i: int| 0 <= i < merged_args(base, extra).len() - extra.len()
            ==> !overridden(#[trigger] merged_args(base, extra)[i], extra),
{
    let kept = base.filter(|a: Seq<char>| !overridden(a, extra));
    broadcast use vstd::seq_lib::group_filter_ensures;
    assert(merged_args(base, extra).skip(kept.len() as int) =~= extra);
    assert forall|i: int| 0 <= i < merged_args(base, extra).len() - extra.len()
        implies !overridden(#[trigger] merged_args(base, extra)[i], extra) by {
        assert(merged_args(base, extra)[i] == kept[i]);
    }
}

proof fn lemma_trim_start_split(s: Seq<char>)
    ensures
        trim_start(s).len() <= s.len(),
        trim_start(s) == s.skip(s.len() - trim_start(s).len()),
        forall|j: int| 0 <= j < s.len() - trim_start(s).len() ==> is_ws(#[trigger] s[j]),
        trim_start(s).len() > 0 ==> !is_ws(trim_start(s)[0]),
    decreases s.len(),
{
    if s.len() > 0 && is_ws(s[0]) {
        lemma_trim_start_split(s.drop_first());
        let r = trim_start(s.drop_first());
        assert(s.drop_first().skip(s.drop_first().len() - r.len()) =~= s.skip(s.len() - r.len()));
        assert forall|j: int| 0 <= j < s.len() - trim_start(s).len() implies is_ws(#[trigger] s[j]) by {
            if j > 0 {
                assert(s[j] == s.drop_first()[j - 1]);
            }
        }
    } else {
        assert(s.skip(0) =~= s);
    }
}

proof fn lemma_trim_start_ws_prefix(w: Seq<char>, t: Seq<char>)
    requires
        forall|j: int| 0 <= j < w.len() ==> is_ws(#[trigger] w[j]),
        t.len() > 0,
        !is_ws(t[0]),
    ensures
        trim_start(w + t) == t,
    decreases w.len(),
{
    if w.len() == 0 {
        assert(w + t =~= t);
    } else {
        assert((w + t)[0] == w[0]);
        assert((w + t).drop_first() =~= w.drop_first() + t);
        assert forall|j: int| 0 <= j < w.drop_first().len() implies is_ws(#[trigger] w.drop_first()[j]) by {
            assert(w.drop_first()[j] == w[j + 1]);
        }
        lemma_trim_start_ws_prefix(w.drop_first(), t);
    }
}

/// The bare `[publisher/asset]` headers of a `.gdio` file survive being
/// quoted for the TOML parser and written back: unquoting a quoted header
/// gives the original line.
pub proof fn lemma_gdio_header_round_trip(line: Seq<char>)
    requires
        bare_key_quoted(line) != line,
    ensures
        key_unquoted(bare_key_quoted(line)) == line,
{
    reveal_strlit("[");
    reveal_strlit("]");
    reveal_strlit("[\"");
    reveal_strlit("\"]");
    lemma_trim_start_split(line);
    let t = trim_start(line);
    let k = line.len() - t.len();
    let indent = line.take(k);
    let inner = t.subrange(1, t.len() - 1);
    assert(t.len() >= 2) by {
        if t.len() == 1 {
            assert(t.take(1)[0] == t[0]);
            assert(t.skip(0)[0] == t[0]);
        }
    }
    let tq = "[\""@ + inner + "\"]"@;
    let q = bare_key_quoted(line);
    assert(q == indent + tq) by {
        assert(q =~= indent + tq);
    }
    assert forall|j: int| 0 <= j < indent.len() implies is_ws(#[trigger] indent[j]) by {
        assert(indent[j] == line[j]);
    }
    assert(!is_ws(tq[0]));
    lemma_trim_start_ws_prefix(indent, tq);
    assert(trim_start(q) == tq);
    assert(q.take(q.len() - tq.len()) =~= indent);
    assert(starts_with(tq, "[\""@)) by {
        assert(tq.take(2) =~= "[\""@);
    }
    assert(ends_with(tq, "\"]"@)) by {
        assert(tq.skip(tq.len() - 2) =~= "\"]"@);
    }
    assert(tq.subrange(2, tq.len() - 2) =~= inner);
    assert(t =~= "["@ + inner + "]"@) by {
        assert(t.take(1)[0] == t[0]);
        assert(t.skip(t.len() - 1)[0] == t[t.len() - 1]);
    }
    assert(line =~= indent + t);
    assert(key_unquoted(q) =~= indent + "["@ + inner + "]"@);
}

pub(crate) proof fn lemma_trim_plain(s: Seq<char>)
    requires
        s.len() > 0,
        !is_ws(s[0]),
        !is_ws(s.last()),
    ensures
        trim(s) == s,
{
    assert(trim_start(s) == s);
    assert(trim_end(s) == s);
}

spec fn kept_lines(ls: Seq<Seq<char>>, e: Seq<char>) -> Seq<Seq<char>> {
    ls.filter(|l: Seq<char>| trim(l) != e)
}

proof fn lemma_kept_lines(ls: Seq<Seq<char>>, e: Seq<char>)
    requires
        all_free_of(ls, '\n'),
        all_free_of(ls, '\r'),
    ensures
        all_free_of(kept_lines(ls, e), '\n'),
        all_free_of(kept_lines(ls, e), '\r'),
        forall|i: int| 0 <= i < kept_lines(ls, e).len() ==> trim(#[trigger] kept_lines(ls, e)[i]) != e,
{
    let f = kept_lines(ls, e);
    assert forall|i: int| 0 <= i < f.len() implies free_of(#[trigger] f[i], '\n') && free_of(f[i], '\r') && trim(f[i]) != e by {
        ls.lemma_filter_pred(|l: Seq<char>| trim(l) != e, i);
        assert(f.contains(f[i]));
        ls.lemma_filter_contains_rev(|l: Seq<char>| trim(l) != e, f[i]);
        let j = choose|j: int| 0 <= j < ls.len() && ls[j] == f[i];
        assert(free_of(ls[j], '\n') && free_of(ls[j], '\r'));
    }
}

/// Removing an addon's entry from a `.gitignore` (one without carriage
/// returns) leaves no line that ignores the addon's folder.
pub proof fn lemma_gitignore_remove_unignores(content: Seq<char>, folder: Seq<char>)
    requires
        free_of(content, '\r'),
        gitignore_removed(content, folder) is Some,
    ensures
        !has_line(gitignore_removed(content, folder)->0, gitignore_entry(folder)),
{
    reveal_strlit("\n");
    let e = gitignore_entry(folder);
    let ls = lines(content);
    lemma_lines_clean(content);
    let f = kept_lines(ls, e);
    lemma_kept_lines(ls, e);
    let kept = join(f, "\n"@);
    let t = gitignore_removed(content, folder)->0;
    if kept.len() == 0 {
        assert(t == Seq::<char>::empty());
        assert(split(t, '\n') =~= seq![Seq::<char>::empty()]);
        assert(lines(t).len() == 0);
    } else if ends_with(kept, "\n"@) {
        assert(t == kept);
        assert(f.len() >= 2) by {
            if f.len() == 0 {
                assert(kept.len() == 0);
            }
            if f.len() == 1 {
                assert(kept == f[0]);
                assert(free_of(f[0], '\n'));
                assert("\n"@.len() == 1);
                assert(kept.skip(kept.len() - 1) == "\n"@);
                assert(kept.skip(kept.len() - 1)[0] == kept[kept.len() - 1]);
                assert(kept[kept.len() - 1] == '\n');
            }
        }
        let g = f.drop_last();
        assert(kept == join(g, "\n"@) + "\n"@ + f.last());
        assert(f.last().len() == 0) by {
            if f.last().len() > 0 {
                assert(free_of(f[f.len() - 1], '\n'));
                assert(kept.last() == f.last().last());
                assert(kept.skip(kept.len() - 1) == "\n"@);
                assert(kept.skip(kept.len() - 1)[0] == kept.last());
            }
        }
        assert(kept =~= join(g, "\n"@) + "\n"@);
        assert(all_free_of(g, '\n') && all_free_of(g, '\r')) by {
            assert forall|i: int| 0 <= i < g.len() implies free_of(#[trigger] g[i], '\n') && free_of(g[i], '\r') by {
                assert(g[i] == f[i]);
            }
        }
        assert forall|i: int| 0 <= i < g.len() implies #[trigger] g[i].len() == 0 || g[i].last() != '\r' by {
            assert(g[i] == f[i]);
            if g[i].len() > 0 {
                assert(g[i][g[i].len() - 1] == g[i].last());
            }
        }
        lemma_lines_of_joined(g);
        assert(lines(t) == g);
        assert forall|i: int| 0 <= i < lines(t).len() implies trim(#[trigger] lines(t)[i]) != e by {
            assert(lines(t)[i] == f[i]);
        }
    } else {
        assert(t == kept + "\n"@);
        assert(f.len() >= 1);
        assert forall|i: int| 0 <= i < f.len() implies #[trigger] f[i].len() == 0 || f[i].last() != '\r' by {
            if f[i].len() > 0 {
                assert(f[i][f[i].len() - 1] == f[i].last());
            }
        }
        lemma_lines_of_joined(f);
        assert(lines(t) == f);
    }
}

/// Adding an addon's entry to a `.gitignore` (one without carriage returns,
/// for a folder name without line breaks) leaves a line that ignores the
/// addon's folder.
pub proof fn lemma_gitignore_add_ignores(content: Seq<char>, folder: Seq<char>)
    requires
        free_of(folder, '\n'),
        gitignore_added(content, folder) is Some,
    ensures
        has_line(gitignore_added(content, folder)->0, gitignore_entry(folder)),
{
    reveal_strlit("\n");
    reveal_strlit("");
    reveal_strlit("addons/");
    reveal_strlit("/");
    let e = gitignore_entry(folder);
    let t = gitignore_added(content, folder)->0;
    assert(free_of(e, '\n')) by {
        assert forall|j: int| 0 <= j < e.len() implies e[j] != '\n' by {
            if j < 7 {
                assert(e[j] == "addons/"@[j]);
            } else if j < 7 + folder.len() {
                assert(e[j] == folder[j - 7]);
            } else {
                assert(e[j] == '/');
            }
        }
    }
    assert(e[0] == 'a' && e.last() == '/');
    lemma_trim_plain(e);
    lemma_split_free(e, '\n');
    lemma_split_append(e, "\n"@, '\n');
    assert(split("\n"@, '\n') == seq![Seq::<char>::empty(), Seq::<char>::empty()]) by {
        crate::line_laws::lemma_split_sep('\n');
        assert("\n"@ =~= seq!['\n']);
    }
    let b = e + "\n"@;
    assert(split(b, '\n') =~= seq![e, Seq::<char>::empty()]);
    let a = if content.len() == 0 { Seq::<char>::empty() } else {
        content + (if ends_with(content, "\n"@) { ""@ } else { "\n"@ })
    };
    assert(t =~= a + b);
    lemma_split_append(a, b, '\n');
    lemma_split_nonempty(a, '\n');
    let sa = split(a, '\n');
    assert(sa.last().len() == 0) by {
        if content.len() == 0 {
            assert(a =~= Seq::<char>::empty());
            assert(sa =~= seq![Seq::<char>::empty()]);
        } else {
            assert(a.len() > 0 && a.last() == '\n') by {
                if ends_with(content, "\n"@) {
                    assert(a =~= content);
                    assert(content.skip(content.len() - 1) == "\n"@);
                    assert(content.skip(content.len() - 1)[0] == content.last());
                } else {
                    assert(a.last() == '\n');
                }
            }
            assert(a.drop_last().push(a.last()) =~= a);
            assert(sa == split(a.drop_last(), '\n').push(Seq::<char>::empty()));
        }
    }
    let p = split(t, '\n');
    let k = sa.len() - 1;
    assert(p[k] =~= e);
    assert(p.len() == sa.len() + 1);
    assert(p.last().len() == 0);
    assert(line_count(p) == p.len() - 1);
    assert(line_piece(p, k) == e) by {
        assert(e.last() != '\r');
    }
    assert(lines(t)[k] == e);
    assert(trim(lines(t)[k]) == e);
}

proof fn lemma_trim_start_char_append(a: Seq<char>, b: Seq<char>, c: char)
    requires
        b.len() > 0,
        b[0] != c,
    ensures
        trim_start_char(a + b, c) == trim_start_char(a, c) + b,
    decreases a.len(),
{
    if a.len() == 0 {
        assert(a + b =~= b);
        assert(trim_start_char(a, c) + b =~= b);
    } else if a[0] == c {
        assert((a + b)[0] == c);
        assert((a + b).drop_first() =~= a.drop_first() + b);
        lemma_trim_start_char_append(a.drop_first(), b, c);
    } else {
        assert((a + b)[0] == a[0]);
    }
}

/// An editor downloaded for a version is found for that version from then
/// on (under its key, with `-csharp` for C# builds), so adding the same
/// version again registers nothing.
pub proof fn lemma_downloaded_editor_found(before: Config, after: Config, e: EditorInfo)
    requires
        after.editors@ == before.editors@.insert(editor_key(e), e),
    ensures
        has_editor_for(after, e.version@),
{
    let v = e.version@;
    let k = editor_key(e);
    assert(after.editors@.contains_key(k));
    if e.is_mono {
        reveal_strlit("-csharp");
        lemma_trim_start_char_append(v, "-csharp"@, 'v');
        let s = trim_start_char(k, 'v');
        let r = trim_start_char(v, 'v');
        assert(s == r + "-csharp"@);
        assert(s.take(r.len() as int) =~= r);
        assert(versions_match(k, v));
    } else {
        crate::editors::lemma_matches_itself(v);
    }
}

/// Walking dependencies ends: a name that `visit` has marked is reported as
/// seen by every later visit, which leaves the list unchanged, and the list
/// never holds a name twice, so each addon's dependencies are walked at most
/// once.
pub proof fn lemma_visit_marks_once(visited: Seq<Seq<char>>, name: Seq<char>, other: Seq<char>)
    ensures
        after_visit(visited, name).contains(name),
        after_visit(after_visit(visited, name), name) == after_visit(visited, name),
        visited.contains(other) ==> after_visit(visited, name).contains(other),
        visited.no_duplicates() ==> after_visit(visited, name).no_duplicates(),
{
    if !visited.contains(name) {
        assert(visited.push(name)[visited.len() as int] == name);
        if visited.contains(other) {
            let k = choose|k: int| 0 <= k < visited.len() && visited[k] == other;
            assert(visited.push(name)[k] == other);
        }
    }
}

/// Law: a time between one and four weeks before `now` reads as its whole
/// weeks and then the days left over (fewer than seven): for a timestamp
/// `(7 * w + d)` days (and less than one more day) before `now`, the words
/// name `w` weeks and `d` days.
pub proof fn lemma_weeks_and_days(ts: nat, now: nat, w: nat, d: nat, rest: nat)
    requires
        ts <= u64::MAX,
        1 <= w <= 3,
        d < 7,
        rest < 86400,
        now == ts + (w * 7 + d) * 86400 + rest,
    ensures
        relative_time(decimal(ts), now) == (if d == 0 {
            if w == 1 { "1 week ago"@ } else { decimal(w) + " weeks ago"@ }
        } else if w == 1 {
            "1 week "@ + decimal(d) + " d ago"@
        } else {
            decimal(w) + " weeks "@ + decimal(d) + " d ago"@
        }),
{
    lemma_decimal_parses_back(ts);
    let diff: nat = (now - ts) as nat;
    let days: int = (w * 7 + d) as int;
    assert(diff == days * 86400 + rest);
    let mins: int = days * 1440 + rest / 60;
    assert(rest == (rest / 60) * 60 + rest % 60) by {
        vstd::arithmetic::div_mod::lemma_fundamental_div_mod(rest as int, 60);
    }
    assert(diff == mins * 60 + rest % 60) by (nonlinear_arith)
        requires
            diff == days * 86400 + rest,
            rest == (rest / 60) * 60 + rest % 60,
            mins == days * 1440 + rest / 60,
    ;
    assert(0 <= rest % 60 < 60) by {
        vstd::arithmetic::div_mod::lemma_mod_bound(rest as int, 60);
    }
    vstd::arithmetic::div_mod::lemma_fundamental_div_mod_converse(diff as int, 60, mins, (rest % 60) as int);
    let r2: int = (rest / 60) as int;
    assert(0 <= r2 < 1440);
    let hours: int = days * 24 + r2 / 60;
    assert(r2 == (r2 / 60) * 60 + r2 % 60) by {
        vstd::arithmetic::div_mod::lemma_fundamental_div_mod(r2, 60);
    }
    assert(0 <= r2 % 60 < 60) by {
        vstd::arithmetic::div_mod::lemma_mod_bound(r2, 60);
    }
    assert(mins == hours * 60 + r2 % 60) by (nonlinear_arith)
        requires
            mins == days * 1440 + r2,
            r2 == (r2 / 60) * 60 + r2 % 60,
            hours == days * 24 + r2 / 60,
    ;
    vstd::arithmetic::div_mod::lemma_fundamental_div_mod_converse(mins, 60, hours, r2 % 60);
    let r3: int = r2 / 60;
    assert(0 <= r3 < 24);
    vstd::arithmetic::div_mod::lemma_fundamental_div_mod_converse(hours, 24, days, r3);
    vstd::arithmetic::div_mod::lemma_fundamental_div_mod_converse(days, 7, w as int, d as int);
    vstd::arithmetic::div_mod::lemma_fundamental_div_mod_converse(days, 30, 0, days);
    assert(diff >= 60);
    assert(diff / 60 == mins);
    assert(mins / 60 == hours);
    assert(hours / 24 == days);
    assert(days / 7 == w);
    assert(days % 7 == d);
}

} // verus!
