//! Items of the Godot news feed: tags of an RSS item, shortened summaries and
//! publication dates.
use vstd::prelude::*;
use vstd::slice::slice_to_vec;
use vstd::utf8::{decode_utf8, encode_scalar, encode_utf8, encode_utf8_decode_utf8, is_char_boundary};
use crate::text::{chars_of, find, find_in, is_whitespace, is_ws, last_where, lemma_last_where_is, push_chars, push_str, string_of, string_of_all, trim, trimmed, views};

verus! {

/// Trimmed text between the first `<tag>` of `xml` and the next `</tag>`.
pub open spec fn tag_text(xml: Seq<char>, tag: Seq<char>) -> Option<Seq<char>> {
    let open = "<"@ + tag + ">"@;
    let close = "</"@ + tag + ">"@;
    match find(xml, open) {
        Some(i) => {
            let start = i + open.len();
            match find(xml.skip(start), close) {
                Some(e) => Some(trim(xml.subrange(start, start + e))),
                None => None,
            }
        },
        None => None,
    }
}

/// The trimmed text of the first `<tag>` element of `xml`.
pub fn extract_tag(xml: &str, tag: &str) -> (r: Option<String>)
    ensures
        match tag_text(xml@, tag@) {
            Some(t) => r matches Some(s) && s@ == t,
            None => r is None,
        },
{
    let mut open = String::from_str("<");
    push_str(&mut open, tag);
    push_str(&mut open, ">");
    let mut close = String::from_str("</");
    push_str(&mut close, tag);
    push_str(&mut close, ">");
    let x = chars_of(xml);
    let oc = chars_of(open.as_str());
    let cc = chars_of(close.as_str());
    let i = match find_in(x.as_slice(), oc.as_slice()) {
        Some(i) => i,
        None => {
            return None;
        },
    };
    let n = x.len();
    let start = i + oc.len();
    let rest = &x.as_slice()[start..n];
    assert(rest@ == x@.skip(start as int));
    let e = match find_in(rest, cc.as_slice()) {
        Some(e) => e,
        None => {
            return None;
        },
    };
    let inner = trimmed(&x.as_slice()[start..start + e]);
    Some(string_of_all(inner.as_slice()))
}

/// Number of bytes of the UTF-8 encoding of `s`.
pub open spec fn utf8_len(s: Seq<char>) -> int {
    encode_utf8(s).len() as int
}

proof fn lemma_encode_push(a: Seq<char>, c: char)
    ensures
        encode_utf8(a.push(c)) == encode_utf8(a) + encode_scalar(c as u32),
    decreases a.len(),
{
    if a.len() == 0 {
        assert(a.push(c).drop_first() =~= Seq::<char>::empty());
        assert(encode_utf8(Seq::<char>::empty()) =~= Seq::<u8>::empty());
        assert(encode_utf8(a.push(c)) =~= encode_scalar(c as u32));
    } else {
        lemma_encode_push(a.drop_first(), c);
        assert(a.push(c).drop_first() =~= a.drop_first().push(c));
        assert(a.push(c)[0] == a[0]);
        assert(encode_utf8(a.push(c)) =~= encode_utf8(a) + encode_scalar(c as u32));
    }
}

fn char_utf8_width(c: char) -> (w: usize)
    ensures
        w == encode_scalar(c as u32).len(),
        1 <= w <= 4,
{
    let v = c as u32;
    if v <= 0x7F {
        1
    } else if v <= 0x7FF {
        2
    } else if v <= 0xFFFF {
        assert(!(0xD800 <= v <= 0xDFFF)) by {
            vstd::utf8::char_is_scalar(c);
        }
        3
    } else {
        assert(v <= 0x10FFFF) by {
            vstd::utf8::char_is_scalar(c);
        }
        4
    }
}

proof fn lemma_utf8_take_step(s: Seq<char>, k: int)
    requires
        0 <= k < s.len(),
    ensures
        utf8_len(s.take(k + 1)) == utf8_len(s.take(k)) + encode_scalar(s[k] as u32).len(),
        utf8_len(s.take(k + 1)) > utf8_len(s.take(k)),
{
    assert(s.take(k + 1) == s.take(k).push(s[k]));
    lemma_encode_push(s.take(k), s[k]);
    vstd::utf8::char_is_scalar(s[k]);
}

proof fn lemma_utf8_take_mono(s: Seq<char>, i: int, j: int)
    requires
        0 <= i <= j <= s.len(),
    ensures
        utf8_len(s.take(i)) <= utf8_len(s.take(j)),
        i < j ==> utf8_len(s.take(i)) < utf8_len(s.take(j)),
    decreases j - i,
{
    if i < j {
        lemma_utf8_take_step(s, j - 1);
        lemma_utf8_take_mono(s, i, j - 1);
    }
}

/// Length in bytes of `s`, as `str::len` gives it.
pub open spec fn byte_len(s: Seq<char>) -> usize {
    encode_utf8(s).len() as usize
}

/// Number of leading characters of `s` whose encoding fits in `m` bytes.
pub open spec fn chars_within_bytes(s: Seq<char>, m: int) -> int {
    match last_where(s.len() as int + 1, |k: int| utf8_len(s.take(k)) <= m) {
        Some(k) => k,
        None => 0,
    }
}

/// `s` cut to at most `max_len` bytes: whole when it fits; else its first
/// `max_len` bytes when `max_len` is at most 3; else the characters that fit
/// in `max_len - 3` bytes followed by `...`.
pub open spec fn truncated(s: Seq<char>, max_len: int) -> Seq<char> {
    if byte_len(s) <= max_len {
        s
    } else if max_len <= 3 {
        decode_utf8(encode_utf8(s).take(max_len))
    } else {
        s.take(chars_within_bytes(s, max_len - 3)) + "..."@
    }
}

/// Shortens `s` to at most `max_len` bytes, marking the cut with `...`. For
/// a `max_len` of 3 or less, the cut must fall between characters.
pub fn truncate_str(s: &str, max_len: usize) -> (r: String)
    requires
        byte_len(s@) > max_len && max_len <= 3 ==> is_char_boundary(encode_utf8(s@), max_len as int),
    ensures
        r@ == truncated(s@, max_len as int),
{
    if s.len() <= max_len {
        return String::from_str(s);
    }
    if max_len <= 3 {
        let (head, _) = s.split_at(max_len);
        proof {
            encode_utf8_decode_utf8(head@);
            assert(encode_utf8(head@) =~= encode_utf8(s@).take(max_len as int));
        }
        return String::from_str(head);
    }
    let budget = max_len - 3;
    let c = chars_of(s);
    let n = c.len();
    let ghost pred = |k: int| utf8_len(s@.take(k)) <= budget;
    let mut k: usize = 0;
    let mut w: usize = 0;
    assert(s@.take(0) =~= Seq::<char>::empty());
    while k < n
        invariant
            k <= n == s@.len(),
            c@ == s@,
            w == utf8_len(s@.take(k as int)),
            w <= budget,
            budget == max_len - 3,
            pred == (|k: int| utf8_len(s@.take(k)) <= budget),
        ensures
            k <= n,
            w == utf8_len(s@.take(k as int)),
            w <= budget,
            k < n ==> utf8_len(s@.take(k + 1)) > budget,
        decreases n - k,
    {
        let cw = char_utf8_width(c[k]);
        proof { lemma_utf8_take_step(s@, k as int); }
        if cw > budget - w {
            break;
        }
        w = w + cw;
        k = k + 1;
    }
    proof {
        assert(pred(k as int));
        assert forall|j: int| k < j < n + 1 implies !#[trigger] pred(j) by {
            lemma_utf8_take_step(s@, k as int);
            lemma_utf8_take_mono(s@, k + 1, j);
        }
        lemma_last_where_is(n + 1, pred, k as int);
    }
    let mut r = string_of(c.as_slice(), 0, k);
    assert(c@.subrange(0, k as int) == s@.take(k as int));
    push_str(&mut r, "...");
    r
}

/// `str::split_whitespace` before empty pieces are dropped: the pieces
/// between whitespace characters.
pub open spec fn split_ws(s: Seq<char>) -> Seq<Seq<char>>
    decreases s.len(),
{
    if s.len() == 0 {
        seq![Seq::<char>::empty()]
    } else {
        let init = split_ws(s.drop_last());
        if is_ws(s.last()) {
            init.push(Seq::<char>::empty())
        } else {
            init.update(init.len() - 1, init.last().push(s.last()))
        }
    }
}

proof fn lemma_split_ws_nonempty(s: Seq<char>)
    ensures
        split_ws(s).len() >= 1,
    decreases s.len(),
{
    if s.len() > 0 {
        lemma_split_ws_nonempty(s.drop_last());
    }
}

/// `str::split_whitespace`: the non-empty runs of non-whitespace characters.
pub open spec fn words(s: Seq<char>) -> Seq<Seq<char>> {
    split_ws(s).filter(|w: Seq<char>| w.len() > 0)
}

proof fn lemma_words_step(p: Seq<Seq<char>>, i: int)
    requires
        0 <= i < p.len(),
    ensures
        p.take(i + 1).filter(|w: Seq<char>| w.len() > 0) == if p[i].len() > 0 {
            p.take(i).filter(|w: Seq<char>| w.len() > 0).push(p[i])
        } else {
            p.take(i).filter(|w: Seq<char>| w.len() > 0)
        },
{
    reveal(Seq::filter);
    assert(p.take(i + 1).drop_last() == p.take(i));
    assert(p.take(i + 1).last() == p[i]);
}

fn words_of(s: &[char]) -> (r: Vec<Vec<char>>)
    ensures
        views(r@) == words(s@),
{
    let mut done: Vec<Vec<char>> = Vec::new();
    let mut cur: Vec<char> = Vec::new();
    let mut i: usize = 0;
    assert(s@.take(0) =~= Seq::<char>::empty());
    assert(views(done@).push(cur@) =~= split_ws(s@.take(0)));
    while i < s.len()
        invariant
            i <= s@.len(),
            views(done@).push(cur@) == split_ws(s@.take(i as int)),
        decreases s.len() - i,
    {
        let ghost prev = s@.take(i as int);
        assert(s@.take(i + 1).drop_last() == prev);
        assert(s@.take(i + 1).last() == s@[i as int]);
        proof { lemma_split_ws_nonempty(prev); }
        if is_whitespace(s[i]) {
            let piece = cur;
            done.push(piece);
            cur = Vec::new();
            assert(views(done@).push(cur@) =~= split_ws(s@.take(i + 1)));
        } else {
            cur.push(s[i]);
            assert(views(done@).push(cur@) =~= split_ws(s@.take(i + 1)));
        }
        i = i + 1;
    }
    assert(s@.take(s@.len() as int) == s@);
    done.push(cur);
    assert(views(done@) =~= split_ws(s@));
    let ghost p = split_ws(s@);
    let mut r: Vec<Vec<char>> = Vec::new();
    let mut j: usize = 0;
    proof { reveal(Seq::filter); }
    assert(p.take(0) =~= Seq::<Seq<char>>::empty());
    while j < done.len()
        invariant
            j <= done@.len(),
            views(done@) == p,
            views(r@) == p.take(j as int).filter(|w: Seq<char>| w.len() > 0),
        decreases done.len() - j,
    {
        proof { lemma_words_step(p, j as int); }
        assert(p[j as int] == done@[j as int]@);
        if done[j].len() > 0 {
            let ghost before = r@;
            r.push(slice_to_vec(done[j].as_slice()));
            assert(views(r@) =~= views(before).push(p[j as int]));
        }
        j = j + 1;
    }
    assert(p.take(p.len() as int) == p);
    r
}

/// A feed date such as `Tue, 14 Oct 2025 12:00:00 +0000` as `14 Oct`: its
/// second and third words when it has at least four; otherwise unchanged.
pub open spec fn short_date(raw: Seq<char>) -> Seq<char> {
    let ws = words(raw);
    if ws.len() >= 4 {
        ws[1] + " "@ + ws[2]
    } else {
        raw
    }
}

/// Shortens a feed publication date to day and month.
pub fn format_date(raw: &str) -> (r: String)
    ensures
        r@ == short_date(raw@),
{
    let ws = words_of(chars_of(raw).as_slice());
    if ws.len() >= 4 {
        assert(views(ws@)[1] == ws@[1]@);
        assert(views(ws@)[2] == ws@[2]@);
        let mut r = string_of_all(ws[1].as_slice());
        push_str(&mut r, " ");
        push_chars(&mut r, ws[2].as_slice());
        r
    } else {
        String::from_str(raw)
    }
}

/// `str::split` with a non-empty string pattern: the pieces between its
/// occurrences, found left to right.
pub open spec fn split_pat(s: Seq<char>, p: Seq<char>) -> Seq<Seq<char>>
    decreases s.len(),
{
    if p.len() == 0 {
        seq![s]
    } else {
        match find(s, p) {
            Some(i) => if 0 <= i && i + p.len() <= s.len() {
                seq![s.take(i)] + split_pat(s.skip(i + p.len()), p)
            } else {
                seq![s]
            },
            None => seq![s],
        }
    }
}

/// An item of the news feed.
pub struct NewsItem {
    pub title: String,
    pub link: String,
    pub summary: String,
    pub pub_date: String,
}

/// Text of a tag, or the empty text when the item has none.
pub open spec fn tag_or_empty(item: Seq<char>, tag: Seq<char>) -> Seq<char> {
    match tag_text(item, tag) {
        Some(t) => t,
        None => Seq::empty(),
    }
}

/// The `(title, link, summary, date)` of a feed item, each empty when missing,
/// the date shortened.
pub open spec fn news_item(item: Seq<char>) -> (Seq<char>, Seq<char>, Seq<char>, Seq<char>) {
    (
        tag_or_empty(item, "title"@),
        tag_or_empty(item, "link"@),
        tag_or_empty(item, "summary"@),
        match tag_text(item, "pubDate"@) {
            Some(d) => short_date(d),
            None => Seq::empty(),
        },
    )
}

/// The first `count` items of a feed: the texts after each `<item>`.
pub open spec fn news_items(xml: Seq<char>, count: int) -> Seq<(Seq<char>, Seq<char>, Seq<char>, Seq<char>)> {
    let items = split_pat(xml, "<item>"@).skip(1);
    let n = if count < items.len() { count } else { items.len() as int };
    items.take(n).map_values(|it: Seq<char>| news_item(it))
}

fn tag_or_empty_of(item: &str, tag: &str) -> (r: String)
    ensures
        r@ == tag_or_empty(item@, tag@),
{
    match extract_tag(item, tag) {
        Some(t) => t,
        None => String::new(),
    }
}

fn news_item_of(item: &str) -> (r: NewsItem)
    ensures
        (r.title@, r.link@, r.summary@, r.pub_date@) == news_item(item@),
{
    let title = tag_or_empty_of(item, "title");
    let link = tag_or_empty_of(item, "link");
    let summary = tag_or_empty_of(item, "summary");
    let pub_date = match extract_tag(item, "pubDate") {
        Some(d) => format_date(d.as_str()),
        None => String::new(),
    };
    NewsItem { title, link, summary, pub_date }
}

fn split_pat_of(s: &[char], p: &[char]) -> (r: Vec<Vec<char>>)
    requires
        p@.len() > 0,
    ensures
        views(r@) == split_pat(s@, p@),
        r@.len() >= 1,
{
    let mut r: Vec<Vec<char>> = Vec::new();
    let mut rest: Vec<char> = slice_to_vec(s);
    let ghost orig = s@;
    assert(views(r@) + split_pat(rest@, p@) =~= split_pat(s@, p@));
    loop
        invariant
            p@.len() > 0,
            views(r@) + split_pat(rest@, p@) == split_pat(orig, p@),
            orig == s@,
        decreases rest@.len(),
    {
        match find_in(rest.as_slice(), p) {
            Some(i) => {
                let n = rest.len();
                let piece = slice_to_vec(&rest.as_slice()[0..i]);
                let next = slice_to_vec(&rest.as_slice()[i + p.len()..n]);
                assert(piece@ == rest@.take(i as int));
                assert(next@ == rest@.skip(i + p@.len()));
                let ghost before = r@;
                assert(split_pat(rest@, p@) == seq![rest@.take(i as int)] + split_pat(next@, p@));
                r.push(piece);
                assert(views(r@) =~= views(before).push(piece@));
                assert(views(r@) + split_pat(next@, p@) =~= views(before) + split_pat(rest@, p@));
                rest = next;
            },
            None => {
                let ghost before = r@;
                assert(split_pat(rest@, p@) == seq![rest@]);
                r.push(rest);
                assert(views(r@) =~= views(before).push(split_pat(orig, p@).last()));
                assert(views(r@) =~= split_pat(orig, p@));
                return r;
            },
        }
    }
}

/// Reads the first `count` items of the Godot news feed `xml`.
pub fn parse_news(xml: &str, count: usize) -> (r: Vec<NewsItem>)
    ensures
        r@.map_values(|it: NewsItem| (it.title@, it.link@, it.summary@, it.pub_date@)) == news_items(xml@, count as int),
{
    proof { reveal_strlit("<item>"); }
    let pieces = split_pat_of(chars_of(xml).as_slice(), chars_of("<item>").as_slice());
    let ghost items = views(pieces@).skip(1);
    let total = pieces.len() - 1;
    let n = if count < total { count } else { total };
    let mut r: Vec<NewsItem> = Vec::new();
    let mut i: usize = 0;
    while i < n
        invariant
            i <= n <= total,
            total == pieces@.len() - 1,
            items == views(pieces@).skip(1),
            r@.map_values(|it: NewsItem| (it.title@, it.link@, it.summary@, it.pub_date@))
                =~= items.take(i as int).map_values(|it: Seq<char>| news_item(it)),
        decreases n - i,
    {
        let item = string_of_all(pieces[i + 1].as_slice());
        assert(item@ == items[i as int]);
        let it = news_item_of(item.as_str());
        let ghost before = r@;
        r.push(it);
        assert(r@.map_values(|it: NewsItem| (it.title@, it.link@, it.summary@, it.pub_date@))
            =~= before.map_values(|it: NewsItem| (it.title@, it.link@, it.summary@, it.pub_date@)).push(news_item(items[i as int])));
        assert(items.take(i + 1) =~= items.take(i as int).push(items[i as int]));
        i = i + 1;
    }
    r
}

/// The newest item of the feed: the text from the first `<item>` on (the
/// whole feed when there is none).
pub open spec fn latest_item(xml: Seq<char>) -> (Seq<char>, Seq<char>, Seq<char>, Seq<char>) {
    news_item(match find(xml, "<item>"@) { Some(i) => xml.skip(i), None => xml })
}

/// Reads the newest item of the Godot news feed `xml`.
pub fn latest_news(xml: &str) -> (r: NewsItem)
    ensures
        (r.title@, r.link@, r.summary@, r.pub_date@) == latest_item(xml@),
{
    let x = chars_of(xml);
    let start: usize = match find_in(x.as_slice(), chars_of("<item>").as_slice()) {
        Some(i) => i,
        None => 0,
    };
    let n = x.len();
    let item = string_of(x.as_slice(), start, n);
    assert(x@.subrange(0, n as int) == x@);
    news_item_of(item.as_str())
}

/// When the latest article was last shown, and how often.
pub struct NewsState {
    pub last_shown_url: Option<String>,
    pub last_shown_at: Option<u64>,
    pub shown_count: Option<u32>,
}

/// Seconds during which the same article is not shown again.
pub open spec fn news_quiet_secs() -> int {
    43200int
}

/// The latest article `link` is shown at time `now`: a new article always;
/// the same one when it was last shown 12 hours ago or more and fewer than
/// four times so far.
pub open spec fn news_due(st: NewsState, link: Seq<char>, now: u64) -> bool {
    let same = st.last_shown_url matches Some(u) && u@ == link;
    let recent = st.last_shown_at matches Some(t) && (if now >= t { now - t } else { 0 }) < news_quiet_secs();
    let count: int = match st.shown_count { Some(c) => c as int, None => 0 };
    !same || (!recent && count < 4)
}

/// Decides whether to show the latest article `link` at time `now`, and
/// records the showing: a new article is remembered with a count of one,
/// the same article's count goes up; the time is kept either way.
pub fn news_tick(state: &mut NewsState, link: &str, now: u64) -> (show: bool)
    ensures
        show == news_due(*old(state), link@, now),
        !show ==> *final(state) == *old(state),
        show && (old(state).last_shown_url matches Some(u) && u@ == link@) ==> {
            &&& final(state).last_shown_url == old(state).last_shown_url
            &&& final(state).shown_count == Some((match old(state).shown_count { Some(c) => c as int, None => 0 } + 1) as u32)
            &&& final(state).last_shown_at == Some(now)
        },
        show && !(old(state).last_shown_url matches Some(u) && u@ == link@) ==> {
            &&& final(state).last_shown_url matches Some(u) && u@ == link@
            &&& final(state).shown_count == Some(1u32)
            &&& final(state).last_shown_at == Some(now)
        },
{
    let same = match &state.last_shown_url {
        Some(u) => crate::text::chars_eq(chars_of(u.as_str()).as_slice(), chars_of(link).as_slice()),
        None => false,
    };
    if same {
        let recent = match state.last_shown_at {
            Some(t) => now.saturating_sub(t) < 12 * 60 * 60,
            None => false,
        };
        if recent {
            return false;
        }
        let count: u32 = match state.shown_count {
            Some(c) => c,
            None => 0,
        };
        if count >= 4 {
            return false;
        }
        state.shown_count = Some(count + 1);
    } else {
        state.last_shown_url = Some(link.to_owned());
        state.shown_count = Some(1);
    }
    state.last_shown_at = Some(now);
    true
}

/// Room left for the summary of the latest article on a terminal
/// `term_width` columns wide, after its indentation.
pub fn latest_summary_width(term_width: usize) -> (r: usize)
    ensures
        r == (if term_width >= 10 { term_width - 10 } else { 0 }),
{
    term_width.saturating_sub(10)
}

} // verus!
