//! Installing and removing export templates: which platforms to fetch,
//! which mirror to use, which byte range of the archive holds a template
//! file, and how to unpack it.
use vstd::prelude::*;
use vstd::slice::slice_to_vec;
use crate::text::{
    chars_of, chars_eq, contains, contains_in, first_where, has_prefix, lemma_first_where_is,
    lemma_first_where_none, push_str, split, split_chars, starts_with, views,
};
use crate::numparse::{decimal, parse_unsigned, parse_u32, parse_u64, push_decimal};
use crate::platform::{string_views, template_files, platform_template_files, str_views};
use crate::zipdir::ZipEntry;

verus! {

/// The platforms selected by the flags, in the order windows, linux, web,
/// macos, ios, android; all six when none is selected.
pub open spec fn requested(windows: bool, linux: bool, web: bool, macos: bool, ios: bool, android: bool) -> Seq<Seq<char>> {
    if !(windows || linux || web || macos || ios || android) {
        seq!["windows"@, "linux"@, "web"@, "macos"@, "ios"@, "android"@]
    } else {
        (if windows { seq!["windows"@] } else { Seq::empty() })
            + (if linux { seq!["linux"@] } else { Seq::empty() })
            + (if web { seq!["web"@] } else { Seq::empty() })
            + (if macos { seq!["macos"@] } else { Seq::empty() })
            + (if ios { seq!["ios"@] } else { Seq::empty() })
            + (if android { seq!["android"@] } else { Seq::empty() })
    }
}

fn push_when(v: &mut Vec<String>, flag: bool, name: &str)
    ensures
        string_views(final(v)@) == string_views(old(v)@) + (if flag { seq![name@] } else { Seq::empty() }),
{
    let ghost before = v@;
    if flag {
        v.push(String::from_str(name));
        assert(string_views(v@) =~= string_views(before) + seq![name@]);
    } else {
        assert(string_views(v@) =~= string_views(before) + Seq::<Seq<char>>::empty());
    }
}

/// The platforms whose templates `gdio templates add` installs.
pub fn requested_platforms(windows: bool, linux: bool, web: bool, macos: bool, ios: bool, android: bool) -> (v: Vec<String>)
    ensures
        string_views(v@) == requested(windows, linux, web, macos, ios, android),
{
    let none = !(windows || linux || web || macos || ios || android);
    let mut v: Vec<String> = Vec::new();
    assert(string_views(v@) =~= Seq::<Seq<char>>::empty());
    push_when(&mut v, windows || none, "windows");
    push_when(&mut v, linux || none, "linux");
    push_when(&mut v, web || none, "web");
    push_when(&mut v, macos || none, "macos");
    push_when(&mut v, ios || none, "ios");
    push_when(&mut v, android || none, "android");
    assert(string_views(v@) =~= requested(windows, linux, web, macos, ios, android));
    v
}

/// A Godot version before 4, whose templates come as one `.tpz` archive:
/// its first `.`-separated part is a number below 4.
pub open spec fn legacy_version(base: Seq<char>) -> bool {
    parse_unsigned(split(base, '.')[0], u32::MAX as int) matches Some(m) && m < 4
}

/// Whether templates of `base_version` are installed from a full `.tpz` archive.
pub fn is_legacy_version(base_version: &str) -> (b: bool)
    ensures
        b == legacy_version(base_version@),
{
    let parts = split_chars(chars_of(base_version).as_slice(), '.');
    assert(views(parts@)[0] == parts@[0]@);
    match parse_u32(parts[0].as_slice()) {
        Some(m) => m < 4,
        None => false,
    }
}

/// Directory name Godot gives the templates of a version: `<base>.<flavor>`.
pub fn template_dir_name(base_version: &str, flavor: &str) -> (r: String)
    ensures
        r@ == base_version@ + "."@ + flavor@,
{
    let mut r = String::from_str(base_version);
    push_str(&mut r, ".");
    push_str(&mut r, flavor);
    r
}

/// Some template file of `platform` is installed.
pub open spec fn platform_installed(platform: Seq<char>, installed: Seq<Seq<char>>) -> bool {
    exists|i: int| 0 <= i < template_files(platform).len() && installed.contains(#[trigger] template_files(platform)[i])
}

/// The requested platforms none of whose template files is installed, in order.
pub open spec fn missing_platforms(platforms: Seq<Seq<char>>, installed: Seq<Seq<char>>) -> Seq<Seq<char>> {
    platforms.filter(|p: Seq<char>| !platform_installed(p, installed))
}

fn contains_name(installed: &[String], name: &str) -> (b: bool)
    ensures
        b == string_views(installed@).contains(name@),
{
    let c = chars_of(name);
    let mut i: usize = 0;
    while i < installed.len()
        invariant
            i <= installed@.len(),
            c@ == name@,
            forall|j: int| 0 <= j < i ==> installed@[j]@ != name@,
        decreases installed.len() - i,
    {
        if chars_eq(chars_of(installed[i].as_str()).as_slice(), c.as_slice()) {
            assert(string_views(installed@)[i as int] == name@);
            return true;
        }
        i = i + 1;
    }
    assert forall|j: int| 0 <= j < string_views(installed@).len() implies string_views(installed@)[j] != name@ by {
        assert(string_views(installed@)[j] == installed@[j]@);
    }
    false
}

fn has_installed_file(platform: &str, installed: &[String]) -> (b: bool)
    ensures
        b == platform_installed(platform@, string_views(installed@)),
{
    let files = platform_template_files(platform);
    let mut i: usize = 0;
    while i < files.len()
        invariant
            i <= files@.len(),
            str_views(files@) == template_files(platform@),
            forall|j: int| 0 <= j < i ==> !string_views(installed@).contains(#[trigger] template_files(platform@)[j]),
        decreases files.len() - i,
    {
        assert(str_views(files@)[i as int] == files@[i as int]@);
        if contains_name(installed, files[i]) {
            return true;
        }
        i = i + 1;
    }
    false
}

proof fn lemma_missing_step(ps: Seq<Seq<char>>, inst: Seq<Seq<char>>, i: int)
    requires
        0 <= i < ps.len(),
    ensures
        missing_platforms(ps.take(i + 1), inst) == if !platform_installed(ps[i], inst) {
            missing_platforms(ps.take(i), inst).push(ps[i])
        } else {
            missing_platforms(ps.take(i), inst)
        },
{
    reveal(Seq::filter);
    assert(ps.take(i + 1).drop_last() == ps.take(i));
    assert(ps.take(i + 1).last() == ps[i]);
}

/// The requested platforms whose templates still have to be downloaded,
/// given the files installed in the version's template directory.
pub fn platforms_to_download(platforms: &[String], installed: &[String]) -> (v: Vec<String>)
    ensures
        string_views(v@) == missing_platforms(string_views(platforms@), string_views(installed@)),
{
    let ghost ps = string_views(platforms@);
    let ghost inst = string_views(installed@);
    let mut v: Vec<String> = Vec::new();
    let mut i: usize = 0;
    proof { reveal(Seq::filter); }
    assert(ps.take(0) =~= Seq::<Seq<char>>::empty());
    while i < platforms.len()
        invariant
            i <= platforms@.len(),
            ps == string_views(platforms@),
            inst == string_views(installed@),
            string_views(v@) == missing_platforms(ps.take(i as int), inst),
        decreases platforms.len() - i,
    {
        proof { lemma_missing_step(ps, inst, i as int); }
        assert(ps[i as int] == platforms@[i as int]@);
        if !has_installed_file(platforms[i].as_str(), installed) {
            let ghost before = v@;
            v.push(platforms[i].clone());
            assert(string_views(v@) =~= string_views(before).push(ps[i as int]));
        }
        i = i + 1;
    }
    assert(ps.take(ps.len() as int) == ps);
    v
}

/// Download address of the full template archive of a pre-4 version.
pub fn legacy_tpz_url(base_version: &str, flavor: &str) -> (r: String)
    ensures
        r@ == "https://downloads.godotengine.org/?version="@ + base_version@ + "&flavor="@ + flavor@
            + "&slug=export_templates.tpz&platform=templates"@,
{
    let mut r = String::from_str("https://downloads.godotengine.org/?version=");
    push_str(&mut r, base_version);
    push_str(&mut r, "&flavor=");
    push_str(&mut r, flavor);
    push_str(&mut r, "&slug=export_templates.tpz&platform=templates");
    r
}

/// Address of the list of download mirrors of a version.
pub fn mirror_list_url(base_version: &str, flavor: &str) -> (r: String)
    ensures
        r@ == "https://godotengine.org/mirrorlist/"@ + base_version@ + "."@ + flavor@ + ".json"@,
{
    let mut r = String::from_str("https://godotengine.org/mirrorlist/");
    push_str(&mut r, base_version);
    push_str(&mut r, ".");
    push_str(&mut r, flavor);
    push_str(&mut r, ".json");
    r
}

/// The mirror is a plain file directory, not the download script.
pub open spec fn plain_mirror(url: Option<String>) -> bool {
    url matches Some(u) && !contains(u@, "downloads.godotengine.org/?version="@)
}

/// The mirror used: the first with a plain directory address, else the
/// first mirror's address, if it has one.
pub open spec fn chosen_mirror(urls: Seq<Option<String>>) -> Option<Seq<char>> {
    match first_where(urls.len() as int, |i: int| plain_mirror(urls[i])) {
        Some(i) => Some(urls[i]->0@),
        None => if urls.len() > 0 && urls[0] is Some { Some(urls[0]->0@) } else { None },
    }
}

/// Chooses the mirror to download templates from, given the `url` of each
/// mirror of the list (`None` where a mirror has none).
pub fn choose_mirror(urls: &[Option<String>]) -> (r: Option<String>)
    ensures
        match chosen_mirror(urls@) {
            Some(u) => r matches Some(s) && s@ == u,
            None => r is None,
        },
{
    let ghost pred = |i: int| plain_mirror(urls@[i]);
    let marker = chars_of("downloads.godotengine.org/?version=");
    let mut i: usize = 0;
    while i < urls.len()
        invariant
            i <= urls@.len(),
            marker@ == "downloads.godotengine.org/?version="@,
            pred == (|i: int| plain_mirror(urls@[i])),
            forall|j: int| 0 <= j < i ==> !#[trigger] pred(j),
        decreases urls.len() - i,
    {
        if let Some(u) = &urls[i] {
            if !contains_in(chars_of(u.as_str()).as_slice(), marker.as_slice()) {
                proof { lemma_first_where_is(urls@.len() as int, pred, i as int); }
                return Some(u.clone());
            }
        }
        i = i + 1;
    }
    proof { lemma_first_where_none(urls@.len() as int, pred); }
    if urls.len() > 0 {
        if let Some(u) = &urls[0] {
            return Some(u.clone());
        }
    }
    None
}

/// The files whose names start with `prefix` belong to the platform (`""`
/// for an unknown platform, which matches nothing).
pub open spec fn removal_prefix(platform: Seq<char>) -> Option<Seq<char>> {
    if platform == "windows"@ {
        Some("windows_"@)
    } else if platform == "linux"@ {
        Some("linux_"@)
    } else if platform == "macos"@ {
        Some("macos"@)
    } else if platform == "web"@ {
        Some("web_"@)
    } else if platform == "ios"@ {
        Some("ios"@)
    } else if platform == "android"@ {
        Some("android"@)
    } else {
        None
    }
}

/// A template file named `name` belongs to one of `platforms`.
pub open spec fn removed_by(name: Seq<char>, platforms: Seq<Seq<char>>) -> bool {
    exists|i: int| 0 <= i < platforms.len() && (removal_prefix(#[trigger] platforms[i]) matches Some(p) && starts_with(name, p))
}

fn prefix_of(platform: &str) -> (r: Option<&'static str>)
    ensures
        match removal_prefix(platform@) {
            Some(p) => r matches Some(s) && s@ == p,
            None => r is None,
        },
{
    let p = chars_of(platform);
    if chars_eq(p.as_slice(), chars_of("windows").as_slice()) {
        Some("windows_")
    } else if chars_eq(p.as_slice(), chars_of("linux").as_slice()) {
        Some("linux_")
    } else if chars_eq(p.as_slice(), chars_of("macos").as_slice()) {
        Some("macos")
    } else if chars_eq(p.as_slice(), chars_of("web").as_slice()) {
        Some("web_")
    } else if chars_eq(p.as_slice(), chars_of("ios").as_slice()) {
        Some("ios")
    } else if chars_eq(p.as_slice(), chars_of("android").as_slice()) {
        Some("android")
    } else {
        None
    }
}

/// Whether the file `name` of a template directory is removed when the
/// templates of `platforms` are.
pub fn should_remove(name: &str, platforms: &[String]) -> (b: bool)
    ensures
        b == removed_by(name@, string_views(platforms@)),
{
    let n = chars_of(name);
    let mut i: usize = 0;
    while i < platforms.len()
        invariant
            i <= platforms@.len(),
            n@ == name@,
            forall|j: int| 0 <= j < i ==> !(removal_prefix(#[trigger] string_views(platforms@)[j]) matches Some(p)
                && starts_with(name@, p)),
        decreases platforms.len() - i,
    {
        assert(string_views(platforms@)[i as int] == platforms@[i as int]@);
        if let Some(p) = prefix_of(platforms[i].as_str()) {
            if has_prefix(n.as_slice(), chars_of(p).as_slice()) {
                return true;
            }
        }
        i = i + 1;
    }
    false
}

/// The total size given by an HTTP `Content-Range` header value such as
/// `bytes 0-0/1234`: the text after its first `/`, read as a number.
pub open spec fn range_total(header: Seq<char>) -> Option<int> {
    let parts = split(header, '/');
    if parts.len() >= 2 { parse_unsigned(parts[1], u64::MAX as int) } else { None }
}

/// Reads the total size from a `Content-Range` header value.
pub fn content_range_total(header: &str) -> (r: Option<u64>)
    ensures
        match range_total(header@) {
            Some(t) => r == Some(t as u64),
            None => r is None,
        },
{
    let parts = split_chars(chars_of(header).as_slice(), '/');
    if parts.len() >= 2 {
        assert(views(parts@)[1] == parts@[1]@);
        parse_u64(parts[1].as_slice())
    } else {
        None
    }
}

/// First byte of the last 64 KiB of an archive of `file_size` bytes.
pub fn tail_start(file_size: u64) -> (r: u64)
    ensures
        r == (if file_size >= 0x10000 { file_size - 0x10000 } else { 0 }),
{
    file_size.saturating_sub(0x10000)
}

/// Index of the archive member holding the template file `filename`
/// (stored as `templates/<filename>`).
pub open spec fn member_index(entries: Seq<ZipEntry>, filename: Seq<char>) -> Option<int> {
    first_where(entries.len() as int, |i: int| entries[i].filename@ == "templates/"@ + filename)
}

/// Finds the archive member of a template file.
pub fn find_template_member(entries: &[ZipEntry], filename: &str) -> (r: Option<usize>)
    ensures
        r matches Some(i) ==> member_index(entries@, filename@) == Some(i as int),
        r is None ==> member_index(entries@, filename@) is None,
{
    let mut target = String::from_str("templates/");
    push_str(&mut target, filename);
    let t = chars_of(target.as_str());
    let ghost pred = |i: int| entries@[i].filename@ == "templates/"@ + filename@;
    let mut i: usize = 0;
    while i < entries.len()
        invariant
            i <= entries@.len(),
            t@ == "templates/"@ + filename@,
            pred == (|i: int| entries@[i].filename@ == "templates/"@ + filename@),
            forall|j: int| 0 <= j < i ==> !#[trigger] pred(j),
        decreases entries.len() - i,
    {
        if chars_eq(chars_of(entries[i].filename.as_str()).as_slice(), t.as_slice()) {
            proof { lemma_first_where_is(entries@.len() as int, pred, i as int); }
            return Some(i);
        }
        i = i + 1;
    }
    proof { lemma_first_where_none(entries@.len() as int, pred); }
    None
}

/// Bytes of the archive to download for a member: from its local header to
/// its data's end plus 256 bytes of slack for a ZIP64 extra field, capped at
/// the archive's last byte; `None` when that range is empty.
pub open spec fn member_bytes(offset: int, header: int, compressed: int, file_size: int) -> Option<(int, int)> {
    let last = if file_size >= 1 { file_size - 1 } else { 0 };
    let end = if offset + header + compressed + 256 < last { offset + header + compressed + 256 } else { last };
    if offset > end { None } else { Some((offset, end)) }
}

/// The byte range (first, last) to download for an archive member.
pub fn member_range(entry: &ZipEntry, file_size: u64) -> (r: Option<(u64, u64)>)
    ensures
        match member_bytes(entry.offset as int, entry.local_header_size as int, entry.compressed_size as int, file_size as int) {
            Some((a, b)) => r == Some((a as u64, b as u64)),
            None => r is None,
        },
{
    let last: u64 = file_size.saturating_sub(1);
    let want: u128 = entry.offset as u128 + entry.local_header_size as u128 + entry.compressed_size as u128 + 256;
    let end: u64 = if want < last as u128 { want as u64 } else { last };
    if entry.offset > end {
        None
    } else {
        Some((entry.offset, end))
    }
}

/// Why a downloaded archive member could not be read.
#[derive(Debug, PartialEq, Eq, Structural)]
pub enum MemberError {
    /// Fewer bytes than a local file header.
    FragmentTooSmall,
    /// A compression method other than stored (0) or deflate (8).
    Unsupported(u16),
    /// Deflate data that does not decode.
    Corrupt,
}

/// Where the data of a member starts in its downloaded bytes: after the
/// 30-byte local header, its name and its extra field (lengths at bytes
/// 26 and 28).
pub open spec fn data_start(fragment: Seq<u8>) -> Option<int> {
    if fragment.len() < 30 {
        None
    } else {
        Some(30 + (fragment[26] as int + fragment[27] as int * 256) + (fragment[28] as int + fragment[29] as int * 256))
    }
}

/// Offset of a member's data within its downloaded bytes.
pub fn local_data_start(fragment: &[u8]) -> (r: Result<usize, MemberError>)
    ensures
        match data_start(fragment@) {
            Some(s) => r == Ok::<usize, MemberError>(s as usize),
            None => r == Err::<usize, MemberError>(MemberError::FragmentTooSmall),
        },
{
    if fragment.len() < 30 {
        return Err(MemberError::FragmentTooSmall);
    }
    let name_len = fragment[26] as usize + fragment[27] as usize * 256;
    let extra_len = fragment[28] as usize + fragment[29] as usize * 256;
    Ok(30 + name_len + extra_len)
}

/// What raw DEFLATE data decodes to (`None` when it is malformed), as
/// flate2's `DeflateDecoder` reads it.
pub uninterp spec fn inflated(data: Seq<u8>) -> Option<Seq<u8>>;

/// `flate2::read::DeflateDecoder` read to the end; the result is named by `inflated`.
#[verifier::external_body]
fn inflate_raw(data: &[u8]) -> (r: Option<Vec<u8>>)
    ensures
        match inflated(data@) {
            Some(b) => r matches Some(v) && v@ == b,
            None => r is None,
        },
{
    let mut out = Vec::new();
    match std::io::Read::read_to_end(&mut flate2::read::DeflateDecoder::new(data), &mut out) {
        Ok(_) => Some(out),
        Err(_) => None,
    }
}

/// The contents of an archive member from its compressed data: stored data
/// as is, deflate data decoded.
pub fn decompress_member(method: u16, data: &[u8]) -> (r: Result<Vec<u8>, MemberError>)
    ensures
        method == 0 ==> (r matches Ok(v) && v@ == data@),
        method == 8 ==> match inflated(data@) {
            Some(b) => r matches Ok(v) && v@ == b,
            None => r == Err::<Vec<u8>, MemberError>(MemberError::Corrupt),
        },
        method != 0 && method != 8 ==> r == Err::<Vec<u8>, MemberError>(MemberError::Unsupported(method)),
{
    if method == 0 {
        Ok(slice_to_vec(data))
    } else if method == 8 {
        match inflate_raw(data) {
            Some(v) => Ok(v),
            None => Err(MemberError::Corrupt),
        }
    } else {
        Err(MemberError::Unsupported(method))
    }
}

/// The HTTP `Range` header value asking for bytes `start` to `end`.
pub fn range_header(start: u64, end: u64) -> (r: String)
    ensures
        r@ == "bytes="@ + decimal(start as nat) + "-"@ + decimal(end as nat),
{
    let mut r = String::from_str("bytes=");
    push_decimal(&mut r, start);
    push_str(&mut r, "-");
    push_decimal(&mut r, end);
    r
}

/// Number of bytes from `start` to `end` included (the largest number when
/// `end` is before `start`).
pub fn range_length(start: u64, end: u64) -> (r: u64)
    ensures
        r == (if end >= start { if end - start + 1 <= u64::MAX { (end - start + 1) as u64 } else { u64::MAX } } else { u64::MAX }),
{
    match end.checked_sub(start) {
        Some(d) => d.saturating_add(1),
        None => u64::MAX,
    }
}

/// A template file of the variant asked for: without `release` in its
/// name when only debug templates are asked for, without `debug` when only
/// release templates are, any file otherwise.
pub open spec fn of_variant(name: Seq<char>, debug: bool, release: bool) -> bool {
    if debug && !release {
        !contains(name, "release"@)
    } else if release && !debug {
        !contains(name, "debug"@)
    } else {
        true
    }
}

/// The download tasks (platform, file) of one platform's files of the
/// variant asked for, in order.
pub open spec fn platform_tasks(platform: Seq<char>, files: Seq<Seq<char>>, debug: bool, release: bool) -> Seq<(Seq<char>, Seq<char>)>
    decreases files.len(),
{
    if files.len() == 0 {
        Seq::empty()
    } else {
        let r = platform_tasks(platform, files.drop_last(), debug, release);
        if of_variant(files.last(), debug, release) { r.push((platform, files.last())) } else { r }
    }
}

/// The download tasks of the platforms, platform after platform.
pub open spec fn template_tasks(platforms: Seq<Seq<char>>, debug: bool, release: bool) -> Seq<(Seq<char>, Seq<char>)>
    decreases platforms.len(),
{
    if platforms.len() == 0 {
        Seq::empty()
    } else {
        template_tasks(platforms.drop_last(), debug, release)
            + platform_tasks(platforms.last(), template_files(platforms.last()), debug, release)
    }
}

/// The template files to fetch for `platforms` (each with its platform), of
/// the variant asked for by `--debug` / `--release`.
pub fn template_download_tasks(platforms: &[String], debug: bool, release: bool) -> (v: Vec<(String, String)>)
    ensures
        crate::exclude::pair_views(v@) == template_tasks(string_views(platforms@), debug, release),
{
    let ghost ps = string_views(platforms@);
    let mut v: Vec<(String, String)> = Vec::new();
    let rel = chars_of("release");
    let dbg = chars_of("debug");
    let mut i: usize = 0;
    assert(ps.take(0) =~= Seq::<Seq<char>>::empty());
    assert(crate::exclude::pair_views(v@) =~= Seq::<(Seq<char>, Seq<char>)>::empty());
    while i < platforms.len()
        invariant
            i <= platforms@.len(),
            ps == string_views(platforms@),
            rel@ == "release"@,
            dbg@ == "debug"@,
            crate::exclude::pair_views(v@) == template_tasks(ps.take(i as int), debug, release),
        decreases platforms.len() - i,
    {
        assert(ps.take(i + 1).drop_last() == ps.take(i as int));
        assert(ps.take(i + 1).last() == platforms@[i as int]@);
        let files = platform_template_files(platforms[i].as_str());
        let ghost fs = str_views(files@);
        let ghost start = crate::exclude::pair_views(v@);
        let mut k: usize = 0;
        assert(fs.take(0) =~= Seq::<Seq<char>>::empty());
        assert(start + platform_tasks(platforms@[i as int]@, fs.take(0), debug, release) =~= start);
        while k < files.len()
            invariant
                k <= files@.len(),
                i < platforms@.len(),
                fs == str_views(files@),
                rel@ == "release"@,
                dbg@ == "debug"@,
                crate::exclude::pair_views(v@) == start + platform_tasks(platforms@[i as int]@, fs.take(k as int), debug, release),
            decreases files.len() - k,
        {
            assert(fs.take(k + 1).drop_last() == fs.take(k as int));
            assert(fs.take(k + 1).last() == files@[k as int]@);
            let name = chars_of(files[k]);
            let keep = if debug && !release {
                !contains_in(name.as_slice(), rel.as_slice())
            } else if release && !debug {
                !contains_in(name.as_slice(), dbg.as_slice())
            } else {
                true
            };
            if keep {
                let ghost before = v@;
                v.push((platforms[i].clone(), String::from_str(files[k])));
                assert(crate::exclude::pair_views(v@) =~= crate::exclude::pair_views(before).push((platforms@[i as int]@, files@[k as int]@)));
            }
            k = k + 1;
        }
        assert(fs.take(fs.len() as int) == fs);
        assert(crate::exclude::pair_views(v@) =~= template_tasks(ps.take(i + 1), debug, release));
        i = i + 1;
    }
    assert(ps.take(ps.len() as int) == ps);
    v
}

} // verus!
