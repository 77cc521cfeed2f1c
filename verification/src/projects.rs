//! The registered projects: in order of recency, and how each is listed
//! (name, editor and when it was last opened, in words).
use vstd::prelude::*;
use crate::text::{chars_of, pad_right, push_padded, push_str, string_of};
use crate::numparse::{parse_unsigned, parse_u64};
use crate::config::{versions_match, Config, ProjectInfo};
use crate::addon_list::{is_name_order, name_order_of};

verus! {

/// What timeago's default English formatter writes for a duration of `secs`
/// seconds (such as `3 hours ago`).
pub uninterp spec fn timeago_words(secs: u64) -> Seq<char>;

/// `timeago::Formatter::new().convert` on a duration of `secs` whole seconds;
/// the text is named by `timeago_words`.
#[verifier::external_body]
fn timeago_convert(secs: u64) -> (r: String)
    ensures
        r@ == timeago_words(secs),
{
    timeago::Formatter::new().convert(std::time::Duration::from_secs(secs))
}

/// How long before `now` the decimal timestamp `timestamp` was: "never" when
/// it is not a number, "just now" when it is in the future, else timeago's words.
pub open spec fn relative_words(timestamp: Seq<char>, now: u64) -> Seq<char> {
    match parse_unsigned(timestamp, u64::MAX as int) {
        None => "never"@,
        Some(ts) => if ts > now { "just now"@ } else { timeago_words((now - ts) as u64) },
    }
}

/// How long before `now` (seconds since the Unix epoch) the decimal
/// timestamp `timestamp` was.
pub fn relative_time_words(timestamp: &str, now: u64) -> (r: String)
    ensures
        r@ == relative_words(timestamp@, now),
{
    match parse_u64(chars_of(timestamp).as_slice()) {
        None => String::from_str("never"),
        Some(ts) => {
            if ts > now {
                String::from_str("just now")
            } else {
                timeago_convert(now - ts)
            }
        },
    }
}

/// How long ago the decimal timestamp `timestamp` was, by the system clock
/// (read as the epoch when it is set before the epoch).
pub fn format_relative_time(timestamp: &str) -> (r: String)
    ensures
        exists|now: u64| r@ == relative_words(timestamp@, now),
{
    let now = match crate::shared::unix_time_secs() {
        Some(n) => n,
        None => 0,
    };
    relative_time_words(timestamp, now)
}

/// A key ordering optional timestamps as the registry compares them: no
/// timestamp first, then timestamps in text order.
pub open spec fn recency_key(t: Option<String>) -> Seq<char> {
    match t {
        Some(s) => seq!['\0'] + s@,
        None => Seq::empty(),
    }
}

/// The recency keys of registry entries.
pub open spec fn recency_keys(es: Seq<(String, ProjectInfo)>) -> Seq<Seq<char>> {
    es.map_values(|p: (String, ProjectInfo)| recency_key(p.1.last_opened))
}

/// The registered projects, most recently opened first (projects never
/// opened last).
pub fn projects_by_recency(config: &Config) -> (v: Vec<ProjectInfo>)
    ensures
        v@.len() == config.projects.entry_seq().len(),
        exists|ord: Seq<usize>| {
            &&& #[trigger] is_name_order(recency_keys(config.projects.entry_seq()), ord)
            &&& forall|i: int| 0 <= i < v@.len() ==> #[trigger] v@[i] == config.projects.entry_seq()[ord[v@.len() - 1 - i] as int].1
        },
{
    let entries = config.projects.entries();
    let n = entries.len();
    let mut keys: Vec<Vec<char>> = Vec::new();
    let mut k: usize = 0;
    while k < n
        invariant
            k <= n == entries@.len(),
            keys@.len() == k,
            forall|j: int| 0 <= j < k ==> (#[trigger] keys@[j])@ == recency_key(entries@[j].1.last_opened),
        decreases n - k,
    {
        let key: Vec<char> = match &entries[k].1.last_opened {
            Some(s) => {
                let mut c: Vec<char> = Vec::new();
                c.push('\0');
                let t = chars_of(s.as_str());
                let mut m: usize = 0;
                while m < t.len()
                    invariant
                        m <= t@.len(),
                        c@ == seq!['\0'] + t@.take(m as int),
                    decreases t.len() - m,
                {
                    c.push(t[m]);
                    assert(t@.take(m + 1) == t@.take(m as int).push(t@[m as int]));
                    m = m + 1;
                }
                assert(t@.take(t@.len() as int) == t@);
                c
            },
            None => Vec::new(),
        };
        keys.push(key);
        k = k + 1;
    }
    let order = name_order_of(&keys);
    assert(keys@.map_values(|v: Vec<char>| v@) =~= recency_keys(entries@));
    let mut v: Vec<ProjectInfo> = Vec::new();
    let mut q: usize = 0;
    while q < n
        invariant
            n == entries@.len() == order@.len(),
            q <= n,
            v@.len() == q,
            forall|a: int| 0 <= a < n ==> #[trigger] order@[a] < n,
            forall|a: int| 0 <= a < q ==> #[trigger] v@[a] == entries@[order@[n - 1 - a] as int].1,
        decreases n - q,
    {
        let idx = order[n - 1 - q];
        v.push(entries[idx].1.clone());
        q = q + 1;
    }
    v
}

/// `s` cut to `n` characters, with `...` when it was longer.
pub open spec fn shortened(s: Seq<char>, n: int) -> Seq<char> {
    if s.len() > n { s.take(n) + "..."@ } else { s }
}

fn shorten(s: &str, n: usize) -> (r: String)
    ensures
        r@ == shortened(s@, n as int),
{
    let c = chars_of(s);
    if c.len() > n {
        let mut r = string_of(c.as_slice(), 0, n);
        push_str(&mut r, "...");
        r
    } else {
        let r = string_of(c.as_slice(), 0, c.len());
        assert(c@.subrange(0, c@.len() as int) == c@);
        r
    }
}

/// A line of `gdio projects`: the name (37 characters at most) padded to
/// 40, the editor's name (17 at most) padded to 20, and when the project
/// was last opened.
pub open spec fn project_line(name: Seq<char>, editor: Seq<char>, when: Seq<char>) -> Seq<char> {
    pad_right(shortened(name, 37), 40) + " "@ + pad_right(shortened(editor, 17), 20) + " "@ + when
}

/// The line listing a project.
pub fn project_list_line(name: &str, editor: &str, when: &str) -> (r: String)
    ensures
        r@ == project_line(name@, editor@, when@),
{
    let mut r = String::new();
    let n = shorten(name, 37);
    push_padded(&mut r, n.as_str(), 40);
    push_str(&mut r, " ");
    let e = shorten(editor, 17);
    push_padded(&mut r, e.as_str(), 20);
    push_str(&mut r, " ");
    push_str(&mut r, when);
    r
}

/// The name of the editor a project is bound to, as its listing shows it:
/// `none` when it is bound to none or to an editor no longer registered.
pub fn project_editor_name(config: &Config, project: &ProjectInfo) -> (r: String)
    ensures
        project.bound_editor is None ==> r@ == "none"@,
        project.bound_editor matches Some(v) ==> {
            &&& config.editors@.contains_key(v@) ==> r@ == config.editors@[v@].name@
            &&& (forall|k: Seq<char>| #[trigger] config.editors@.contains_key(k) ==> !versions_match(k, v@)) ==> r@ == "none"@
            &&& (r@ == "none"@ || exists|k: Seq<char>| #[trigger] config.editors@.contains_key(k)
                    && versions_match(k, v@) && r@ == config.editors@[k].name@)
        },
{
    match &project.bound_editor {
        Some(v) => match config.find_editor_for_version(v.as_str()) {
            Some(e) => {
                proof {
                    if !config.editors@.contains_key(v@) {
                        let k = choose|k: Seq<char>| #[trigger] config.editors@.contains_key(k)
                            && versions_match(k, v@) && *e == config.editors@[k];
                        assert(config.editors@.contains_key(k) && versions_match(k, v@));
                    } else {
                        crate::editors::lemma_matches_itself(v@);
                    }
                }
                e.name.clone()
            },
            None => String::from_str("none"),
        },
        None => String::from_str("none"),
    }
}

/// When a project was last opened, in timeago's words: `never` when it
/// never was.
pub fn project_opened_words(project: &ProjectInfo) -> (r: String)
    ensures
        project.last_opened is None ==> r@ == "never"@,
        project.last_opened matches Some(t) ==> exists|now: u64| r@ == relative_words(t@, now),
{
    match &project.last_opened {
        Some(t) => format_relative_time(t.as_str()),
        None => String::from_str("never"),
    }
}

} // verus!
