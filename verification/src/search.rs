//! The addon search list: fitting texts to terminal columns, and the fuzzy
//! filter typed over the results.
use vstd::prelude::*;
use crate::text::{
    chars_of, first_where, lemma_first_where_is, lemma_first_where_none, lowercase, push_char,
    push_str, string_of, string_of_all, to_lowercase, trim_end_char, trim_end_matching,
};

verus! {

/// Terminal columns `unicode-width` gives a character (`None` for control
/// characters).
pub uninterp spec fn char_columns(c: char) -> Option<usize>;

/// `UnicodeWidthChar::width` (unicode-width); the result is named by `char_columns`.
#[verifier::external_body]
fn char_width(c: char) -> (r: Option<usize>)
    ensures
        r == char_columns(c),
{
    unicode_width::UnicodeWidthChar::width(c)
}

/// Terminal columns `unicode-width` gives a string.
pub uninterp spec fn str_columns(s: Seq<char>) -> usize;

/// `UnicodeWidthStr::width` (unicode-width); the result is named by `str_columns`.
#[verifier::external_body]
fn str_width(s: &str) -> (r: usize)
    ensures
        r == str_columns(s@),
{
    unicode_width::UnicodeWidthStr::width(s)
}

/// Columns of a character, 0 for one without a width.
pub open spec fn col(c: char) -> int {
    match char_columns(c) {
        Some(w) => w as int,
        None => 0,
    }
}

/// Columns of the characters of `s`, added up.
pub open spec fn cols(s: Seq<char>) -> int
    decreases s.len(),
{
    if s.len() == 0 {
        0
    } else {
        cols(s.drop_last()) + col(s.last())
    }
}

/// Index of the first character of `s` past `budget` columns, if any.
pub open spec fn cut_index(s: Seq<char>, budget: int) -> Option<int> {
    first_where(s.len() as int, |i: int| cols(s.take(i + 1)) > budget)
}

/// `s` fitted to `max_width` columns: whole when its characters fit in
/// `max_width - 3` columns, else cut before the first character that does
/// not and marked with `...`; empty for no columns.
pub open spec fn fitted(s: Seq<char>, max_width: int) -> Seq<char> {
    if max_width == 0 {
        Seq::empty()
    } else {
        let budget = if max_width >= 3 { max_width - 3 } else { 0 };
        match cut_index(s, budget) {
            Some(i) => s.take(i) + "..."@,
            None => s,
        }
    }
}

/// Fits `s` to `max_width` terminal columns.
pub fn truncate_to_width(s: &str, max_width: usize) -> (r: String)
    ensures
        r@ == fitted(s@, max_width as int),
{
    if max_width == 0 {
        return String::new();
    }
    let budget: usize = if max_width >= 3 { max_width - 3 } else { 0 };
    let c = chars_of(s);
    let n = c.len();
    let ghost pred = |i: int| cols(s@.take(i + 1)) > budget as int;
    let mut w: usize = 0;
    let mut i: usize = 0;
    assert(s@.take(0) =~= Seq::<char>::empty());
    while i < n
        invariant
            i <= n == s@.len(),
            c@ == s@,
            w == cols(s@.take(i as int)),
            w <= budget,
            max_width > 0,
            budget as int == (if max_width >= 3 { max_width - 3 } else { 0 }),
            pred == (|i: int| cols(s@.take(i + 1)) > budget as int),
            forall|j: int| 0 <= j < i ==> !#[trigger] pred(j),
        decreases n - i,
    {
        let cw: usize = match char_width(c[i]) {
            Some(x) => x,
            None => 0,
        };
        assert(s@.take(i + 1).drop_last() == s@.take(i as int));
        assert(s@.take(i + 1).last() == s@[i as int]);
        if cw > budget - w {
            proof { lemma_first_where_is(n as int, pred, i as int); }
            let mut r = string_of(c.as_slice(), 0, i);
            assert(c@.subrange(0, i as int) == s@.take(i as int));
            push_str(&mut r, "...");
            return r;
        }
        w = w + cw;
        i = i + 1;
    }
    proof { lemma_first_where_none(n as int, pred); }
    String::from_str(s)
}

/// Columns left for the description in a terminal `width` columns wide:
/// after the identifier column (35), a gap (1), the borders and the
/// highlight marker (6).
pub fn desc_width(width: u16) -> (w: usize)
    ensures
        w == (if width >= 42 { width - 42 } else { 0 }),
{
    let wd = width as usize;
    if wd >= 42 { wd - 42 } else { 0 }
}

/// An addon found by a search.
pub struct SearchResult {
    pub identifier: String,
    pub description: String,
    pub store_url: String,
}

/// A search-list line: the identifier fitted to 35 columns and padded to
/// them, a space, the description fitted to `dw` columns.
pub open spec fn item_line(r: SearchResult, dw: int) -> Seq<char> {
    let id = fitted(r.identifier@, 35);
    let pad = if str_columns(id) < 35 { 35 - str_columns(id) } else { 0 };
    id + Seq::new(pad as nat, |i: int| ' ') + " "@ + fitted(r.description@, dw)
}

/// The search-list lines for a terminal `width` columns wide.
pub fn build_items(results: &[SearchResult], width: u16) -> (v: Vec<String>)
    ensures
        v@.len() == results@.len(),
        forall|i: int| 0 <= i < results@.len() ==> (#[trigger] v@[i])@
            == item_line(results@[i], if width >= 42 { width - 42 } else { 0 }),
{
    let dw = desc_width(width);
    let mut v: Vec<String> = Vec::new();
    let mut k: usize = 0;
    while k < results.len()
        invariant
            k <= results@.len(),
            v@.len() == k,
            dw == (if width >= 42 { width - 42 } else { 0 }),
            forall|i: int| 0 <= i < k ==> (#[trigger] v@[i])@ == item_line(results@[i], dw as int),
        decreases results.len() - k,
    {
        let id = truncate_to_width(results[k].identifier.as_str(), 35);
        let desc = truncate_to_width(results[k].description.as_str(), dw);
        let idw = str_width(id.as_str());
        let pad: usize = if idw < 35 { 35 - idw } else { 0 };
        let mut line = id;
        let ghost base = line@;
        let mut p: usize = 0;
        while p < pad
            invariant
                p <= pad,
                line@ == base + Seq::new(p as nat, |i: int| ' '),
            decreases pad - p,
        {
            push_char(&mut line, ' ');
            assert(Seq::new((p + 1) as nat, |i: int| ' ') =~= Seq::new(p as nat, |i: int| ' ').push(' '));
            p = p + 1;
        }
        push_str(&mut line, " ");
        push_str(&mut line, desc.as_str());
        v.push(line);
        k = k + 1;
    }
    v
}

/// Number of characters of `q` matched, in order and each at its first
/// chance, while reading `l`.
pub open spec fn greedy_matched(q: Seq<char>, l: Seq<char>) -> int
    decreases l.len(),
{
    if l.len() == 0 {
        0
    } else {
        let k = greedy_matched(q, l.drop_last());
        if k < q.len() && l.last() == q[k] { k + 1 } else { k }
    }
}

proof fn lemma_greedy_bounded(q: Seq<char>, l: Seq<char>)
    ensures
        0 <= greedy_matched(q, l) <= q.len(),
    decreases l.len(),
{
    if l.len() > 0 {
        lemma_greedy_bounded(q, l.drop_last());
    }
}

/// Whether all of `query_lower` is matched, in order, in `item_lower`
/// (both already lowercase); an empty query matches everything.
pub fn fuzzy_match_lowered(query_lower: &str, item_lower: &str) -> (b: bool)
    ensures
        b == (query_lower@.len() == 0 || greedy_matched(query_lower@, item_lower@) == query_lower@.len()),
{
    let q = chars_of(query_lower);
    if q.len() == 0 {
        return true;
    }
    let l = chars_of(item_lower);
    let mut qi: usize = 0;
    let mut i: usize = 0;
    assert(l@.take(0) =~= Seq::<char>::empty());
    while i < l.len()
        invariant
            i <= l@.len(),
            q@ == query_lower@,
            l@ == item_lower@,
            qi == greedy_matched(q@, l@.take(i as int)),
            qi <= q@.len(),
        decreases l.len() - i,
    {
        assert(l@.take(i + 1).drop_last() == l@.take(i as int));
        assert(l@.take(i + 1).last() == l@[i as int]);
        if qi < q.len() && l[i] == q[qi] {
            qi = qi + 1;
        }
        i = i + 1;
    }
    assert(l@.take(l@.len() as int) == l@);
    qi == q.len()
}

/// The fuzzy filter: the query's characters appear in the item in order,
/// ignoring case.
pub open spec fn fuzzy_matches(query: Seq<char>, item: Seq<char>) -> bool {
    query.len() == 0 || greedy_matched(lowercase(query), lowercase(item)) == lowercase(query).len()
}

/// Whether `item` passes the fuzzy filter `query`.
pub fn fuzzy_match(query: &str, item: &str) -> (b: bool)
    ensures
        b == fuzzy_matches(query@, item@),
{
    if chars_of(query).len() == 0 {
        return true;
    }
    let q = to_lowercase(query);
    let l = to_lowercase(item);
    let b = fuzzy_match_lowered(q.as_str(), l.as_str());
    proof {
        if lowercase(query@).len() == 0 {
            lemma_greedy_bounded(lowercase(query@), lowercase(item@));
        }
    }
    b
}

/// Indices of the items that pass the fuzzy filter, in order.
pub fn matching_indices(filter: &str, items: &[String]) -> (v: Vec<usize>)
    ensures
        v@.map_values(|i: usize| i as int) == Seq::new(items@.len(), |i: int| i).filter(
            |i: int| fuzzy_matches(filter@, items@[i]@)),
{
    let ghost all = Seq::new(items@.len(), |i: int| i);
    let mut v: Vec<usize> = Vec::new();
    let mut k: usize = 0;
    proof { reveal(Seq::filter); }
    assert(all.take(0) =~= Seq::<int>::empty());
    while k < items.len()
        invariant
            k <= items@.len(),
            all == Seq::new(items@.len(), |i: int| i),
            v@.map_values(|i: usize| i as int) == all.take(k as int).filter(
                |i: int| fuzzy_matches(filter@, items@[i]@)),
        decreases items.len() - k,
    {
        proof {
            reveal(Seq::filter);
            assert(all.take(k + 1).drop_last() == all.take(k as int));
            assert(all.take(k + 1).last() == k as int);
        }
        let ghost before = v@;
        if fuzzy_match(filter, items[k].as_str()) {
            v.push(k);
            assert(v@.map_values(|i: usize| i as int) =~= before.map_values(|i: usize| i as int).push(k as int));
        }
        k = k + 1;
    }
    assert(all.take(items@.len() as int) == all);
    v
}


/// The address of a repository's search endpoint, before its query string.
pub open spec fn search_address(store_url: Seq<char>) -> Seq<char> {
    trim_end_char(store_url, '/') + "/api/v1/search/query/"@
}

/// The search endpoint of the repository at `store_url`.
pub fn search_url(store_url: &str) -> (r: String)
    ensures
        r@ == search_address(store_url@),
{
    let base = trim_end_matching(chars_of(store_url).as_slice(), '/');
    let mut r = string_of_all(base.as_slice());
    push_str(&mut r, "/api/v1/search/query/");
    r
}

/// Results asked for in one page, and the cursor's jump on page up or down.
pub const PAGE_SIZE: usize = 15;

/// A string field of a search hit, or `d` where the hit lacks it.
pub open spec fn field_or(o: Option<String>, d: Seq<char>) -> Seq<char> {
    match o {
        Some(s) => s@,
        None => d,
    }
}

/// A search hit from its fields (`None` where a field is absent): the
/// identifier is publisher and slug joined by `/`, `?` standing for either
/// that is missing; an empty or missing description reads
/// `(no description)`.
pub fn hit_result(publisher: Option<String>, slug: Option<String>, description: Option<String>,
    store_url: Option<String>) -> (r: SearchResult)
    ensures
        r.identifier@ == field_or(publisher, "?"@) + "/"@ + field_or(slug, "?"@),
        r.description@ == (if field_or(description, ""@).len() == 0 { "(no description)"@ } else {
            field_or(description, ""@) }),
        r.store_url@ == field_or(store_url, ""@),
{
    let mut identifier = match publisher {
        Some(p) => p,
        None => String::from_str("?"),
    };
    push_str(&mut identifier, "/");
    match slug {
        Some(s) => push_str(&mut identifier, s.as_str()),
        None => push_str(&mut identifier, "?"),
    }
    proof { reveal_strlit(""); }
    let description = match description {
        Some(d) => if d.as_str().unicode_len() == 0 { String::from_str("(no description)") } else { d },
        None => String::from_str("(no description)"),
    };
    let store_url = match store_url {
        Some(u) => u,
        None => String::new(),
    };
    SearchResult { identifier, description, store_url }
}

/// Where one repository stands in paging through a search.
pub struct RepoState {
    pub url: String,
    pub scroll: Option<String>,
    pub exhausted: bool,
}

impl RepoState {
    /// A repository not asked yet.
    pub fn new(url: String) -> (s: RepoState)
        ensures
            s.url == url,
            s.scroll is None,
            !s.exhausted,
    {
        RepoState { url, scroll: None, exhausted: false }
    }

    /// Whether the repository has a further page to give.
    pub open spec fn wants_more(&self) -> bool {
        !self.exhausted && self.scroll is Some
    }

    /// Whether to ask the repository for its next page.
    pub fn can_fetch(&self) -> (b: bool)
        ensures
            b == self.wants_more(),
    {
        !self.exhausted && self.scroll.is_some()
    }

    /// Takes in the answer to a page request: `Some` with the page's hits
    /// and its scroll token, `None` where the request failed. The hits are
    /// appended to `results`; the repository is done once a request fails,
    /// a page comes back empty or without a token.
    pub fn take_page(&mut self, page: Option<(Vec<SearchResult>, Option<String>)>, results: &mut Vec<SearchResult>)
        ensures
            final(self).url == old(self).url,
            match page {
                Some((items, scroll)) => {
                    &&& final(self).scroll == scroll
                    &&& final(self).exhausted == (old(self).exhausted || items@.len() == 0 || scroll is None)
                    &&& final(results)@ == old(results)@ + items@
                },
                None => {
                    &&& final(self).scroll == old(self).scroll
                    &&& final(self).exhausted
                    &&& final(results)@ == old(results)@
                },
            },
    {
        match page {
            Some((items, scroll)) => {
                let mut items = items;
                let done = items.len() == 0 || scroll.is_none();
                self.scroll = scroll;
                if done {
                    self.exhausted = true;
                }
                results.append(&mut items);
            },
            None => {
                self.exhausted = true;
            },
        }
    }
}

/// Whether some repository has a further page.
pub open spec fn more_pages(states: Seq<RepoState>) -> bool {
    exists|i: int| 0 <= i < states.len() && #[trigger] states[i].wants_more()
}

/// Whether scrolling past the end may load more results.
pub fn has_more(states: &[RepoState]) -> (b: bool)
    ensures
        b == more_pages(states@),
{
    let mut i: usize = 0;
    while i < states.len()
        invariant
            i <= states@.len(),
            forall|j: int| 0 <= j < i ==> !(#[trigger] states@[j].wants_more()),
        decreases states.len() - i,
    {
        if states[i].can_fetch() {
            return true;
        }
        i = i + 1;
    }
    false
}

/// What the list does after a key.
#[derive(PartialEq, Eq, Structural, Debug, Clone, Copy)]
pub enum SearchAction {
    Stay,
    Cancel,
    Select(usize),
    FetchMore,
}

/// A key pressed in the search list (`Interrupt` is Ctrl+C).
#[derive(PartialEq, Eq, Structural, Debug, Clone, Copy)]
pub enum SearchKey {
    Escape,
    Interrupt,
    Enter,
    Up,
    Down,
    Home,
    End,
    PageUp,
    PageDown,
    Backspace,
    Char(char),
    Other,
}

/// The last position of a list of `n` lines (0 for an empty one).
pub open spec fn last_line(n: int) -> int {
    if n > 0 { n - 1 } else { 0 }
}

/// A move of the cursor to `target`, or, where that is no move forward, a
/// request for more results when there are any.
pub open spec fn forward(filter: Seq<char>, c: int, target: int, has_more: bool) -> (Seq<char>, int, SearchAction) {
    if target > c {
        (filter, target, SearchAction::Stay)
    } else if has_more {
        (filter, c, SearchAction::FetchMore)
    } else {
        (filter, c, SearchAction::Stay)
    }
}

/// The filter, cursor and action after `key`, for the list's `matched`
/// lines: the cursor is first brought back onto the list; typing edits the
/// filter and returns to the top; Enter picks the result under the cursor.
pub open spec fn search_step(filter: Seq<char>, cursor: int, key: SearchKey, matched: Seq<usize>,
    has_more: bool) -> (Seq<char>, int, SearchAction) {
    let n = matched.len() as int;
    let last = last_line(n);
    let c = if cursor >= n { last } else { cursor };
    match key {
        SearchKey::Escape => (filter, c, SearchAction::Cancel),
        SearchKey::Interrupt => (filter, c, SearchAction::Cancel),
        SearchKey::Enter => if n == 0 {
            (filter, c, SearchAction::Stay)
        } else {
            (filter, c, SearchAction::Select(matched[c]))
        },
        SearchKey::Up => (filter, if c > 0 { c - 1 } else { 0 }, SearchAction::Stay),
        SearchKey::Down => if c + 1 < n {
            (filter, c + 1, SearchAction::Stay)
        } else {
            forward(filter, c, c, has_more)
        },
        SearchKey::Home => (filter, 0, SearchAction::Stay),
        SearchKey::End => forward(filter, c, last, has_more),
        SearchKey::PageUp => (filter, if c >= PAGE_SIZE { c - PAGE_SIZE } else { 0 }, SearchAction::Stay),
        SearchKey::PageDown => forward(filter, c, if c + PAGE_SIZE < last { c + PAGE_SIZE } else { last },
            has_more),
        SearchKey::Backspace => (if filter.len() > 0 { filter.drop_last() } else { filter }, 0,
            SearchAction::Stay),
        SearchKey::Char(ch) => (filter.push(ch), 0, SearchAction::Stay),
        SearchKey::Other => (filter, c, SearchAction::Stay),
    }
}

/// Handles one key of the search list, updating the filter and the cursor.
pub fn search_key(filter: &mut String, cursor: &mut usize, key: SearchKey, matched: &[usize],
    has_more: bool) -> (a: SearchAction)
    ensures
        (final(filter)@, *final(cursor) as int, a) == search_step(old(filter)@, *old(cursor) as int, key,
            matched@, has_more),
{
    let n = matched.len();
    let last: usize = if n > 0 { n - 1 } else { 0 };
    if *cursor >= n {
        *cursor = last;
    }
    let c = *cursor;
    match key {
        SearchKey::Escape => SearchAction::Cancel,
        SearchKey::Interrupt => SearchAction::Cancel,
        SearchKey::Enter => {
            if n == 0 {
                SearchAction::Stay
            } else {
                SearchAction::Select(matched[c])
            }
        },
        SearchKey::Up => {
            if c > 0 {
                *cursor = c - 1;
            }
            SearchAction::Stay
        },
        SearchKey::Down => {
            if c + 1 < n {
                *cursor = c + 1;
                SearchAction::Stay
            } else if has_more {
                SearchAction::FetchMore
            } else {
                SearchAction::Stay
            }
        },
        SearchKey::Home => {
            *cursor = 0;
            SearchAction::Stay
        },
        SearchKey::End => {
            if last > c {
                *cursor = last;
                SearchAction::Stay
            } else if has_more {
                SearchAction::FetchMore
            } else {
                SearchAction::Stay
            }
        },
        SearchKey::PageUp => {
            *cursor = if c >= PAGE_SIZE { c - PAGE_SIZE } else { 0 };
            SearchAction::Stay
        },
        SearchKey::PageDown => {
            let target = if last - c > PAGE_SIZE { c + PAGE_SIZE } else { last };
            if target > c {
                *cursor = target;
                SearchAction::Stay
            } else if has_more {
                SearchAction::FetchMore
            } else {
                SearchAction::Stay
            }
        },
        SearchKey::Backspace => {
            let cs = chars_of(filter.as_str());
            if cs.len() > 0 {
                *filter = string_of(cs.as_slice(), 0, cs.len() - 1);
            }
            *cursor = 0;
            SearchAction::Stay
        },
        SearchKey::Char(ch) => {
            push_char(filter, ch);
            *cursor = 0;
            SearchAction::Stay
        },
        SearchKey::Other => SearchAction::Stay,
    }
}

/// The name of the chosen addon as shown: its identifier, with `/?` added
/// where it holds no `/`.
pub open spec fn selected_name(identifier: Seq<char>) -> Seq<char> {
    if identifier.contains('/') { identifier } else { identifier + "/?"@ }
}

/// `Selected: ` and the chosen addon's name.
pub fn selected_line(identifier: &str) -> (r: String)
    ensures
        r@ == "Selected: "@ + selected_name(identifier@),
{
    let cs = chars_of(identifier);
    let mut r = String::from_str("Selected: ");
    push_str(&mut r, identifier);
    let mut i: usize = 0;
    while i < cs.len()
        invariant
            i <= cs@.len(),
            cs@ == identifier@,
            r@ == "Selected: "@ + identifier@,
            forall|j: int| 0 <= j < i ==> cs@[j] != '/',
        decreases cs.len() - i,
    {
        if cs[i] == '/' {
            return r;
        }
        i = i + 1;
    }
    push_str(&mut r, "/?");
    r
}

/// What to say when a search finds nothing: that no repository answered,
/// or that none had a match.
pub fn no_results_message(query: &str, all_failed: bool) -> (r: String)
    ensures
        r@ == (if all_failed { "Failed to fetch from any repository for '"@ } else {
            "No results found for '"@ }) + query@ + "'."@,
{
    let mut r = if all_failed {
        String::from_str("Failed to fetch from any repository for '")
    } else {
        String::from_str("No results found for '")
    };
    push_str(&mut r, query);
    push_str(&mut r, "'.");
    r
}

} // verus!
