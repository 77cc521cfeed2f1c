//! Applying Godot Secure (`gdio build secure`): the AES-256 key, the
//! script to run and the answers it is given.
use vstd::prelude::*;
use crate::text::{chars_of, contains, contains_in, ends_with, first_where, has_suffix, lemma_first_where_is,
    lemma_first_where_none, push_char, push_str};
use crate::platform::string_views;

verus! {

/// A lowercase hexadecimal digit.
pub open spec fn hex_digit(d: int) -> char {
    if d < 10 { ((('0' as int) + d) as char) } else { ((('a' as int) + d - 10) as char) }
}

/// `bytes` written as lowercase hexadecimal, two digits per byte.
pub open spec fn hex(bytes: Seq<u8>) -> Seq<char>
    decreases bytes.len(),
{
    if bytes.len() == 0 {
        Seq::empty()
    } else {
        hex(bytes.drop_last()) + seq![hex_digit(bytes.last() as int / 16), hex_digit(bytes.last() as int % 16)]
    }
}

fn hex_char(d: u8) -> (c: char)
    requires
        d < 16,
    ensures
        c == hex_digit(d as int),
{
    if d < 10 { (48u8 + d) as char } else { (87u8 + d) as char }
}

/// Lowercase hexadecimal text of `bytes`.
pub fn hex_string(bytes: &[u8]) -> (r: String)
    ensures
        r@ == hex(bytes@),
{
    let mut r = String::new();
    let mut i: usize = 0;
    assert(bytes@.take(0) =~= Seq::<u8>::empty());
    while i < bytes.len()
        invariant
            i <= bytes@.len(),
            r@ == hex(bytes@.take(i as int)),
        decreases bytes.len() - i,
    {
        assert(bytes@.take(i + 1).drop_last() == bytes@.take(i as int));
        assert(bytes@.take(i + 1).last() == bytes@[i as int]);
        let b = bytes[i];
        push_char(&mut r, hex_char(b / 16));
        push_char(&mut r, hex_char(b % 16));
        i = i + 1;
    }
    assert(bytes@.take(bytes@.len() as int) == bytes@);
    r
}

/// `getrandom::getrandom` filling `n` bytes; `None` when the system source
/// fails. The bytes are random: only their number is stated.
#[verifier::external_body]
fn random_bytes(n: usize) -> (r: Option<Vec<u8>>)
    ensures
        r matches Some(v) ==> v@.len() == n,
{
    let mut bytes = vec![0u8; n];
    match getrandom::getrandom(&mut bytes) {
        Ok(()) => Some(bytes),
        Err(_) => None,
    }
}

/// Bytes in an AES-256 key.
pub const KEY_BYTES: usize = 32;

/// The key made of the random bytes the system source gave (`None` where
/// it gave none): their 32 bytes as 64 hexadecimal digits.
pub fn key_from_bytes(bytes: Option<Vec<u8>>) -> (r: Option<String>)
    ensures
        match bytes {
            Some(b) => r matches Some(k) && k@ == hex(b@),
            None => r is None,
        },
{
    match bytes {
        Some(b) => Some(hex_string(b.as_slice())),
        None => None,
    }
}

/// A fresh random AES-256 key as 64 hexadecimal digits; `None` when no
/// random bytes could be had.
pub fn generate_key() -> (r: Option<String>)
    ensures
        r matches Some(k) ==> exists|b: Seq<u8>| b.len() == 32 && k@ == hex(b),
{
    let bytes = random_bytes(KEY_BYTES);
    let ghost got = bytes;
    let r = key_from_bytes(bytes);
    proof {
        if let Some(b) = got {
            assert(b@.len() == 32 && r->0@ == hex(b@));
        }
    }
    r
}

/// An ASCII hexadecimal digit.
pub open spec fn is_hex(c: char) -> bool {
    ('0' <= c && c <= '9') || ('a' <= c && c <= 'f') || ('A' <= c && c <= 'F')
}

/// An AES-256 key: exactly 64 hexadecimal digits.
pub open spec fn valid_key(key: Seq<char>) -> bool {
    key.len() == 64 && forall|i: int| 0 <= i < key.len() ==> is_hex(#[trigger] key[i])
}

/// Whether `key` is a usable AES-256 key.
pub fn is_valid_key(key: &str) -> (b: bool)
    ensures
        b == valid_key(key@),
{
    let k = chars_of(key);
    if k.len() != 64 {
        return false;
    }
    let mut i: usize = 0;
    while i < k.len()
        invariant
            i <= k@.len(),
            k@ == key@,
            forall|j: int| 0 <= j < i ==> is_hex(#[trigger] k@[j]),
        decreases k.len() - i,
    {
        let c = k[i];
        if !(('0' <= c && c <= '9') || ('a' <= c && c <= 'f') || ('A' <= c && c <= 'F')) {
            return false;
        }
        i = i + 1;
    }
    true
}

/// A release asset that is the AES-256 universal Godot Secure script.
pub open spec fn is_secure_script(name: Seq<char>) -> bool {
    contains(name, "Godot.Secure.AES-256.Universal"@) && ends_with(name, ".py"@)
}

/// Index of the first Godot Secure script among release asset names.
pub open spec fn secure_script_index(names: Seq<Seq<char>>) -> Option<int> {
    first_where(names.len() as int, |i: int| is_secure_script(names[i]))
}

/// Finds the Godot Secure script among the assets of its latest release.
pub fn find_secure_script(names: &[String]) -> (r: Option<usize>)
    ensures
        r matches Some(i) ==> secure_script_index(string_views(names@)) == Some(i as int),
        r is None ==> secure_script_index(string_views(names@)) is None,
{
    let ghost ns = string_views(names@);
    let ghost pred = |i: int| is_secure_script(ns[i]);
    let marker = chars_of("Godot.Secure.AES-256.Universal");
    let ext = chars_of(".py");
    let mut i: usize = 0;
    while i < names.len()
        invariant
            i <= names@.len(),
            ns == string_views(names@),
            marker@ == "Godot.Secure.AES-256.Universal"@,
            ext@ == ".py"@,
            pred == (|i: int| is_secure_script(ns[i])),
            forall|j: int| 0 <= j < i ==> !#[trigger] pred(j),
        decreases names.len() - i,
    {
        assert(ns[i as int] == names@[i as int]@);
        let n = chars_of(names[i].as_str());
        if contains_in(n.as_slice(), marker.as_slice()) && has_suffix(n.as_slice(), ext.as_slice()) {
            proof { lemma_first_where_is(ns.len() as int, pred, i as int); }
            return Some(i);
        }
        i = i + 1;
    }
    proof { lemma_first_where_none(ns.len() as int, pred); }
    None
}

/// The answers typed into the Godot Secure script: yes, no, yes, the key,
/// and Enter for its last prompts.
pub fn secure_script_input(key: &str) -> (r: String)
    ensures
        r@ == "y\nn\ny\n"@ + key@ + "\n\n\n"@,
{
    let mut r = String::from_str("y\nn\ny\n");
    push_str(&mut r, key);
    push_str(&mut r, "\n\n\n");
    r
}

/// The Python interpreter the script is run with.
pub fn python_command(windows: bool) -> (r: &'static str)
    ensures
        r@ == (if windows { "python"@ } else { "python3"@ }),
{
    if windows { "python" } else { "python3" }
}

/// Engine sources saved before the script runs, to check afterwards that
/// it changed them.
pub fn baseline_files() -> (v: Vec<&'static str>)
    ensures
        v@.len() == 3,
        v@[0]@ == "core/io/file_access_pack.h"@,
        v@[1]@ == "core/io/file_access_encrypted.h"@,
        v@[2]@ == "core/io/file_access_encrypted.cpp"@,
{
    let mut v: Vec<&'static str> = Vec::new();
    v.push("core/io/file_access_pack.h");
    v.push("core/io/file_access_encrypted.h");
    v.push("core/io/file_access_encrypted.cpp");
    v
}

} // verus!
