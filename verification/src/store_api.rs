//! Talking to addon repositories and to GitHub: the addresses asked, the
//! releases read from a repository's answer, and when a failed download is
//! tried again.
use vstd::prelude::*;
use crate::text::{chars_of, contains, contains_in, push_str, string_of_all, trim_end_char, trim_end_matching};
use crate::releases::Release;

verus! {

/// Address of the releases of `publisher/asset` in the repository `repo_url`.
pub open spec fn releases_address(repo_url: Seq<char>, publisher: Seq<char>, asset: Seq<char>) -> Seq<char> {
    trim_end_char(repo_url, '/') + "/api/v1/releases/"@ + publisher + "/"@ + asset + "/"@
}

/// The address asked for an addon's releases.
pub fn releases_url(repo_url: &str, publisher: &str, asset: &str) -> (r: String)
    ensures
        r@ == releases_address(repo_url@, publisher@, asset@),
{
    let base = trim_end_matching(chars_of(repo_url).as_slice(), '/');
    let mut r = string_of_all(base.as_slice());
    push_str(&mut r, "/api/v1/releases/");
    push_str(&mut r, publisher);
    push_str(&mut r, "/");
    push_str(&mut r, asset);
    push_str(&mut r, "/");
    r
}

/// `s` without one leading `v`.
pub open spec fn without_v(s: Seq<char>) -> Seq<char> {
    if s.len() > 0 && s[0] == 'v' { s.drop_first() } else { s }
}

/// The release described by one entry of a repository's answer, from its
/// fields (`None` for a field that is absent or not of the right type):
/// entries without a download address or version are skipped; the version
/// loses a leading `v`; a release is stable only when it says so.
pub fn release_from_fields(download_url: Option<String>, version: Option<String>, stable: Option<bool>,
    min_godot_version: Option<String>, max_godot_version: Option<String>) -> (r: Option<Release>)
    ensures
        (download_url is None || version is None) ==> r is None,
        download_url matches Some(u) ==> (version matches Some(v) ==> (r matches Some(rel) && {
            &&& rel.download_url == u
            &&& rel.version@ == without_v(v@)
            &&& rel.stable == (stable == Some(true))
            &&& rel.min_godot_version == min_godot_version
            &&& rel.max_godot_version == max_godot_version
        })),
{
    let u = match download_url {
        Some(u) => u,
        None => {
            return None;
        },
    };
    let v = match version {
        Some(v) => v,
        None => {
            return None;
        },
    };
    let c = chars_of(v.as_str());
    let version = if c.len() > 0 && c[0] == 'v' {
        let n = c.len();
        let s = string_of_all(&c.as_slice()[1..n]);
        assert(c@.subrange(1, n as int) == c@.drop_first());
        s
    } else {
        v
    };
    let stable = match stable {
        Some(b) => b,
        None => false,
    };
    Some(Release { download_url: u, version, stable, min_godot_version, max_godot_version })
}

/// An error of a repository that means the addon does not exist there.
pub fn is_missing_addon_error(message: &str) -> (b: bool)
    ensures
        b == contains(message@, "does not exist"@),
{
    contains_in(chars_of(message).as_slice(), chars_of("does not exist").as_slice())
}

/// A download error worth trying again: its description mentions the
/// connection, a timeout, TLS, a closed connection, chunked transfer or
/// decoding the body.
pub open spec fn transient(chain: Seq<char>) -> bool {
    contains(chain, "connection"@) || contains(chain, "timeout"@) || contains(chain, "TLS"@) || contains(chain, "tls"@)
        || contains(chain, "close_notify"@) || contains(chain, "chunked"@) || contains(chain, "decoding response body"@)
}

/// Whether a download error (its full description) is worth trying again.
pub fn is_transient_error(chain: &str) -> (b: bool)
    ensures
        b == transient(chain@),
{
    let c = chars_of(chain);
    contains_in(c.as_slice(), chars_of("connection").as_slice())
        || contains_in(c.as_slice(), chars_of("timeout").as_slice())
        || contains_in(c.as_slice(), chars_of("TLS").as_slice())
        || contains_in(c.as_slice(), chars_of("tls").as_slice())
        || contains_in(c.as_slice(), chars_of("close_notify").as_slice())
        || contains_in(c.as_slice(), chars_of("chunked").as_slice())
        || contains_in(c.as_slice(), chars_of("decoding response body").as_slice())
}

/// Downloads are tried this many times: a first attempt and up to three
/// retries.
pub const MAX_DOWNLOAD_ATTEMPTS: u32 = 4;

/// `2` to the power `n`.
pub open spec fn two_to(n: nat) -> nat
    decreases n,
{
    if n == 0 { 1 } else { 2 * two_to((n - 1) as nat) }
}

/// After failed attempt number `attempt` (from 1): the seconds to wait
/// before trying again, `2^attempt`, when attempts are left and the error
/// is transient; `None` when the error is final.
pub fn retry_delay(attempt: u32, transient: bool) -> (r: Option<u64>)
    ensures
        r == (if attempt < MAX_DOWNLOAD_ATTEMPTS && transient { Some(two_to(attempt as nat) as u64) } else { None::<u64> }),
{
    if attempt < MAX_DOWNLOAD_ATTEMPTS && transient {
        proof { reveal_with_fuel(two_to, 4); }
        let d: u64 = if attempt == 0 { 1 } else if attempt == 1 { 2 } else if attempt == 2 { 4 } else { 8 };
        Some(d)
    } else {
        None
    }
}

/// GitHub's list of the engine's published builds.
pub open spec fn builds_api() -> Seq<char> {
    "https://api.github.com/repos/godotengine/godot-builds/releases"@
}

/// Address of the engine release tagged `tag`.
pub fn release_tag_url(tag: &str) -> (r: String)
    ensures
        r@ == builds_api() + "/tags/"@ + tag@,
{
    let mut r = String::from_str("https://api.github.com/repos/godotengine/godot-builds/releases");
    push_str(&mut r, "/tags/");
    push_str(&mut r, tag);
    r
}

/// Address of the latest hundred engine releases.
pub fn release_list_url() -> (r: String)
    ensures
        r@ == builds_api() + "?per_page=100"@,
{
    let mut r = String::from_str("https://api.github.com/repos/godotengine/godot-builds/releases");
    push_str(&mut r, "?per_page=100");
    r
}

} // verus!
