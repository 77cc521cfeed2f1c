//! Reading the central directory at the end of a ZIP archive, so that single
//! members of a remote archive can be fetched by byte range.
use vstd::prelude::*;
use crate::text::{last_where, lemma_last_where_is, lossy_utf8, utf8_lossy};

verus! {

/// Little-endian value of `d[o..o+2]`.
pub open spec fn le16(d: Seq<u8>, o: int) -> int {
    d[o] as int + d[o + 1] as int * 0x100
}

/// Little-endian value of `d[o..o+4]`.
pub open spec fn le32(d: Seq<u8>, o: int) -> int {
    le16(d, o) + le16(d, o + 2) * 0x10000
}

/// Little-endian value of `d[o..o+8]`.
pub open spec fn le64(d: Seq<u8>, o: int) -> int {
    le32(d, o) + le32(d, o + 4) * 0x1_0000_0000
}

/// `u16::from_le_bytes` of `data[offset..offset+2]`.
pub fn decode_u16(data: &[u8], offset: usize) -> (r: u16)
    requires
        offset + 2 <= data@.len(),
    ensures
        r as int == le16(data@, offset as int),
{
    (data[offset] as u16) + (data[offset + 1] as u16) * 256
}

/// `u32::from_le_bytes` of `data[offset..offset+4]`.
pub fn decode_u32(data: &[u8], offset: usize) -> (r: u32)
    requires
        offset + 4 <= data@.len(),
    ensures
        r as int == le32(data@, offset as int),
{
    let n = data.len();
    let lo = decode_u16(data, offset) as u32;
    let hi = decode_u16(data, offset + 2) as u32;
    lo + hi * 65536
}

/// `u64::from_le_bytes` of `data[offset..offset+8]`, or 0 when the bytes
/// run past the end of `data`.
pub fn decode_u64(data: &[u8], offset: usize) -> (r: u64)
    ensures
        r as int == (if offset + 8 <= data@.len() { le64(data@, offset as int) } else { 0 }),
{
    if offset > data.len() || data.len() - offset < 8 {
        return 0;
    }
    let lo = decode_u32(data, offset) as u64;
    let hi = decode_u32(data, offset + 4) as u64;
    lo + hi * 0x1_0000_0000
}

/// Marker for a 32-bit field whose value lives in the ZIP64 extra field.
pub open spec fn overflowed(v: u64) -> bool {
    v == 0xFFFF_FFFF
}

/// Sizes updated from the ZIP64 extended-information field (id 1) found
/// among the extra fields `d[pos..]`: the compressed size first, then the
/// local header offset, each only where its 32-bit value overflowed.
pub open spec fn zip64_extra(d: Seq<u8>, pos: int, comp: u64, off: u64) -> (u64, u64)
    decreases d.len() - pos,
{
    if pos >= 0 && pos + 4 <= d.len() {
        let id = le16(d, pos);
        let size = le16(d, pos + 2);
        let p = pos + 4;
        if p + size > d.len() {
            (comp, off)
        } else if id == 1 {
            let comp2: u64 = if overflowed(comp) && 8 <= size { le64(d, p) as u64 } else { comp };
            let fp = if overflowed(comp) && 8 <= size { p + 8 } else { p };
            let off2: u64 = if overflowed(off) && fp + 8 <= p + size { le64(d, fp) as u64 } else { off };
            (comp2, off2)
        } else {
            zip64_extra(d, p + size, comp, off)
        }
    } else {
        (comp, off)
    }
}

/// Reads the ZIP64 extended-information extra field of `data`, replacing
/// `comp_size` and `local_offset` where they hold the 32-bit overflow marker.
pub fn parse_zip64_extra(data: &[u8], comp_size: &mut u64, local_offset: &mut u64)
    ensures
        (*final(comp_size), *final(local_offset)) == zip64_extra(data@, 0, *old(comp_size), *old(local_offset)),
{
    let n = data.len();
    let mut pos: usize = 0;
    while pos <= n && n - pos >= 4
        invariant
            n == data@.len(),
            pos <= n,
            zip64_extra(data@, pos as int, *comp_size, *local_offset)
                == zip64_extra(data@, 0, *old(comp_size), *old(local_offset)),
        decreases n - pos,
    {
        let header_id = decode_u16(data, pos);
        let data_size = decode_u16(data, pos + 2) as usize;
        pos = pos + 4;
        if data_size > n - pos {
            return;
        }
        if header_id == 1 {
            let mut field_pos = pos;
            if *comp_size == 0xFFFF_FFFF && data_size >= 8 {
                *comp_size = decode_u64(data, field_pos);
                field_pos = field_pos + 8;
            }
            if *local_offset == 0xFFFF_FFFF && field_pos - pos + 8 <= data_size {
                *local_offset = decode_u64(data, field_pos);
            }
            return;
        }
        pos = pos + data_size;
    }
}


/// One member of a ZIP archive, as listed in its central directory.
#[derive(Clone, Debug)]
pub struct ZipEntry {
    pub filename: String,
    pub offset: u64,
    pub compressed_size: u64,
    pub method: u16,
    pub local_header_size: u32,
}

impl View for ZipEntry {
    type V = (Seq<char>, u64, u64, u16, u32);

    open spec fn view(&self) -> Self::V {
        (self.filename@, self.offset, self.compressed_size, self.method, self.local_header_size)
    }
}

/// Why a ZIP central directory could not be read.
#[derive(Clone, Copy, Debug, PartialEq, Eq)]
pub enum ZipError {
    /// No end-of-central-directory record in the data.
    EocdNotFound,
}

/// End-of-central-directory signature `PK\x05\x06`.
pub open spec fn eocd_sig() -> Seq<u8> {
    seq![0x50u8, 0x4bu8, 0x05u8, 0x06u8]
}

/// Central-directory file header signature `PK\x01\x02`.
pub open spec fn cd_sig() -> Seq<u8> {
    seq![0x50u8, 0x4bu8, 0x01u8, 0x02u8]
}

/// ZIP64 end-of-central-directory locator signature `PK\x06\x07`.
pub open spec fn zip64_locator_sig() -> Seq<u8> {
    seq![0x50u8, 0x4bu8, 0x06u8, 0x07u8]
}

/// ZIP64 end-of-central-directory record signature `PK\x06\x06`.
pub open spec fn zip64_eocd_sig() -> Seq<u8> {
    seq![0x50u8, 0x4bu8, 0x06u8, 0x06u8]
}

/// The four bytes at `p` are `sig`.
pub open spec fn sig_at(d: Seq<u8>, p: int, sig: Seq<u8>) -> bool {
    0 <= p && p + 4 <= d.len() && d.subrange(p, p + 4) == sig
}

/// Position of the last end-of-central-directory signature.
pub open spec fn eocd_pos(d: Seq<u8>) -> Option<int> {
    last_where(d.len() as int, |p: int| sig_at(d, p, eocd_sig()))
}

/// `a - b`, or 0 when `b` is larger.
pub open spec fn sat_sub(a: int, b: int) -> int {
    if a > b { a - b } else { 0 }
}

/// Entry count and central-directory offset (relative to the whole file)
/// read from the end records; `d` holds the last `d.len()` bytes of a file
/// of `file_size` bytes.
pub open spec fn cd_location(d: Seq<u8>, eocd: int, file_size: int) -> (int, int) {
    let total0 = le16(d, eocd + 10);
    let cd0 = le32(d, eocd + 16);
    if (total0 == 0xFFFF || cd0 == 0xFFFF_FFFF) && eocd >= 20 && sig_at(d, eocd - 20, zip64_locator_sig()) {
        let zpos = sat_sub(le64(d, eocd - 12), file_size - d.len());
        if zpos + 56 <= d.len() && sig_at(d, zpos, zip64_eocd_sig()) {
            (le64(d, zpos + 24), le64(d, zpos + 48))
        } else {
            (total0, cd0)
        }
    } else {
        (total0, cd0)
    }
}

/// Length of the central-directory record at `pos`.
#[verifier::opaque]
pub open spec fn record_len(d: Seq<u8>, pos: int) -> int {
    46 + le16(d, pos + 28) + le16(d, pos + 30) + le16(d, pos + 32)
}

/// A complete central-directory record starts at `pos`.
#[verifier::opaque]
pub open spec fn record_ok(d: Seq<u8>, pos: int) -> bool {
    pos + 46 <= d.len() && sig_at(d, pos, cd_sig()) && pos + record_len(d, pos) <= d.len()
}

/// The entry described by the record at `pos`.
#[verifier::opaque]
pub open spec fn entry_at(d: Seq<u8>, pos: int) -> (Seq<char>, u64, u64, u16, u32) {
    let nl = le16(d, pos + 28);
    let el = le16(d, pos + 30);
    let comp0 = le32(d, pos + 20) as u64;
    let off0 = le32(d, pos + 42) as u64;
    let sizes = if overflowed(comp0) || overflowed(off0) {
        zip64_extra(d.subrange(pos + 46 + nl, pos + 46 + nl + el), 0, comp0, off0)
    } else {
        (comp0, off0)
    };
    (utf8_lossy(d.subrange(pos + 46, pos + 46 + nl)), sizes.1, sizes.0, le16(d, pos + 10) as u16, (30 + nl) as u32)
}

/// The entries of up to `count` consecutive records from `pos`, stopping at
/// the first incomplete record or wrong signature.
pub open spec fn cd_entries(d: Seq<u8>, pos: int, count: nat) -> Seq<(Seq<char>, u64, u64, u16, u32)>
    decreases count,
{
    if count > 0 && pos >= 0 && record_ok(d, pos) {
        seq![entry_at(d, pos)] + cd_entries(d, pos + record_len(d, pos), (count - 1) as nat)
    } else {
        Seq::empty()
    }
}

/// The entries listed in the central directory of a ZIP file, from the tail
/// `d` of that file of `file_size` bytes.
pub open spec fn zip_listing(d: Seq<u8>, file_size: int) -> Option<Seq<(Seq<char>, u64, u64, u16, u32)>> {
    match eocd_pos(d) {
        None => None,
        Some(e) => {
            let (total, cd) = cd_location(d, e, file_size);
            Some(cd_entries(d, sat_sub(cd, file_size - d.len()), total as nat))
        },
    }
}

/// The views of a vector of entries.
pub open spec fn entry_views(v: Seq<ZipEntry>) -> Seq<(Seq<char>, u64, u64, u16, u32)> {
    v.map_values(|e: ZipEntry| e@)
}

fn sig_matches(data: &[u8], p: usize, a: u8, b: u8, c: u8, e: u8) -> (r: bool)
    ensures
        r == sig_at(data@, p as int, seq![a, b, c, e]),
{
    if p > data.len() || data.len() - p < 4 {
        return false;
    }
    let r = data[p] == a && data[p + 1] == b && data[p + 2] == c && data[p + 3] == e;
    assert(r == (data@.subrange(p as int, p + 4) =~= seq![a, b, c, e]));
    r
}

/// Position of the last end-of-central-directory signature in `data`.
fn find_eocd(data: &[u8]) -> (r: Option<usize>)
    ensures
        r matches Some(p) ==> eocd_pos(data@) == Some(p as int),
        r is None ==> eocd_pos(data@) is None,
{
    let n = data.len();
    let ghost pred = |p: int| sig_at(data@, p, eocd_sig());
    let mut i: usize = n;
    while i > 0
        invariant
            i <= n == data@.len(),
            pred == (|p: int| sig_at(data@, p, eocd_sig())),
            forall|j: int| i <= j < n ==> !#[trigger] pred(j),
        decreases i,
    {
        let p = i - 1;
        if sig_matches(data, p, 0x50, 0x4b, 0x05, 0x06) {
            proof { lemma_last_where_is(n as int, pred, p as int); }
            return Some(p);
        }
        i = p;
    }
    None
}

/// Entry count and central-directory offset from the end records.
fn read_cd_location(data: &[u8], eocd: usize, file_size: u64) -> (r: (u64, u64))
    requires
        eocd + 20 <= data@.len(),
        file_size >= data@.len(),
    ensures
        (r.0 as int, r.1 as int) == cd_location(data@, eocd as int, file_size as int),
{
    let n = data.len();
    let buffer_start: u64 = file_size - n as u64;
    let mut cd_start: u64 = decode_u32(data, eocd + 16) as u64;
    let mut total: u64 = decode_u16(data, eocd + 10) as u64;
    if total == 0xFFFF || cd_start == 0xFFFF_FFFF {
        if eocd >= 20 {
            let loc = eocd - 20;
            if sig_matches(data, loc, 0x50, 0x4b, 0x06, 0x07) {
                let zoff = decode_u64(data, loc + 8);
                let zpos: u64 = if zoff > buffer_start { zoff - buffer_start } else { 0 };
                if zpos <= n as u64 && n as u64 - zpos >= 56 {
                    let zp = zpos as usize;
                    if sig_matches(data, zp, 0x50, 0x4b, 0x06, 0x06) {
                        total = decode_u64(data, zp + 24);
                        cd_start = decode_u64(data, zp + 48);
                    }
                }
            }
        }
    }
    (total, cd_start)
}

/// The central-directory record at `pos`, with its length, if it is complete.
fn read_record(data: &[u8], pos: usize) -> (r: Option<(ZipEntry, usize)>)
    requires
        pos <= data@.len(),
    ensures
        r is None ==> !record_ok(data@, pos as int),
        r matches Some(x) ==> record_ok(data@, pos as int) && x.0@ == entry_at(data@, pos as int)
            && x.1 as int == record_len(data@, pos as int) && pos + x.1 <= data@.len(),
{
    reveal(record_ok);
    reveal(record_len);
    reveal(entry_at);
    let n = data.len();
    if n - pos < 46 {
        return None;
    }
    if !sig_matches(data, pos, 0x50, 0x4b, 0x01, 0x02) {
        return None;
    }
    let method = decode_u16(data, pos + 10);
    let mut comp_size: u64 = decode_u32(data, pos + 20) as u64;
    let name_len = decode_u16(data, pos + 28) as usize;
    let extra_len = decode_u16(data, pos + 30) as usize;
    let comm_len = decode_u16(data, pos + 32) as usize;
    let mut local_offset: u64 = decode_u32(data, pos + 42) as u64;
    let full = 46 + name_len + extra_len + comm_len;
    if n - pos < full {
        return None;
    }
    let name_bytes = &data[pos + 46..pos + 46 + name_len];
    let filename = lossy_utf8(name_bytes);
    if comp_size == 0xFFFF_FFFF || local_offset == 0xFFFF_FFFF {
        let extra_start = pos + 46 + name_len;
        let extra_end = extra_start + extra_len;
        parse_zip64_extra(&data[extra_start..extra_end], &mut comp_size, &mut local_offset);
    }
    let local_header_size: u32 = 30 + name_len as u32;
    let entry = ZipEntry { filename, offset: local_offset, compressed_size: comp_size, method, local_header_size };
    Some((entry, full))
}

proof fn lemma_cd_step(d: Seq<u8>, pos: int, rest: nat)
    requires
        rest > 0,
        pos >= 0,
        record_ok(d, pos),
    ensures
        cd_entries(d, pos, rest) == seq![entry_at(d, pos)] + cd_entries(d, pos + record_len(d, pos), (rest - 1) as nat),
{
}

proof fn lemma_cd_stop(d: Seq<u8>, pos: int, rest: nat)
    requires
        rest == 0 || !record_ok(d, pos),
    ensures
        cd_entries(d, pos, rest) == Seq::<(Seq<char>, u64, u64, u16, u32)>::empty(),
{
}

/// Entries of up to `total` records from `start`.
fn collect_entries(data: &[u8], start: usize, total: u64) -> (v: Vec<ZipEntry>)
    requires
        start <= data@.len(),
    ensures
        entry_views(v@) == cd_entries(data@, start as int, total as nat),
{
    let n = data.len();
    let ghost target = cd_entries(data@, start as int, total as nat);
    let mut entries: Vec<ZipEntry> = Vec::new();
    let mut pos: usize = start;
    let mut k: u64 = 0;
    assert(entry_views(entries@) + target =~= target);
    while k < total
        invariant
            n == data@.len(),
            pos <= n,
            k <= total,
            target == cd_entries(data@, start as int, total as nat),
            entry_views(entries@) + cd_entries(data@, pos as int, (total - k) as nat) == target,
        decreases total - k,
    {
        let ghost rest = (total - k) as nat;
        let ghost done = entry_views(entries@);
        match read_record(data, pos) {
            None => {
                proof { lemma_cd_stop(data@, pos as int, rest); }
                assert(done + Seq::<(Seq<char>, u64, u64, u16, u32)>::empty() =~= done);
                return entries;
            },
            Some((entry, full)) => {
                let ghost ev = entry@;
                proof { lemma_cd_step(data@, pos as int, rest); }
                let ghost tail = cd_entries(data@, pos + full, (rest - 1) as nat);
                entries.push(entry);
                assert(entry_views(entries@) =~= done.push(ev));
                assert(done.push(ev) + tail =~= done + (seq![ev] + tail));
                pos = pos + full;
                k = k + 1;
            },
        }
    }
    proof { lemma_cd_stop(data@, pos as int, 0); }
    assert(entry_views(entries@) + Seq::<(Seq<char>, u64, u64, u16, u32)>::empty() =~= entry_views(entries@));
    entries
}

/// Lists the members of a ZIP archive from the tail `data` of the archive
/// (`file_size` bytes long in all): finds the last end-of-central-directory
/// record (and its ZIP64 form), then reads the central-directory records
/// held in `data`, stopping at the first one that is cut off or malformed.
pub fn find_zip_entries(data: &[u8], file_size: u64) -> (r: Result<Vec<ZipEntry>, ZipError>)
    requires
        file_size >= data@.len(),
        eocd_pos(data@) matches Some(e) ==> e + 20 <= data@.len(),
    ensures
        match zip_listing(data@, file_size as int) {
            None => r == Err::<Vec<ZipEntry>, ZipError>(ZipError::EocdNotFound),
            Some(es) => r matches Ok(v) && entry_views(v@) == es,
        },
{
    let n = data.len();
    let eocd = match find_eocd(data) {
        Some(p) => p,
        None => return Err(ZipError::EocdNotFound),
    };
    let (total, cd_start) = read_cd_location(data, eocd, file_size);
    let buffer_start: u64 = file_size - n as u64;
    let start: u64 = if cd_start > buffer_start { cd_start - buffer_start } else { 0 };
    if start > n as u64 {
        proof { lemma_cd_stop_far(data@, start as int, total as nat); }
        return Ok(Vec::new());
    }
    Ok(collect_entries(data, start as usize, total))
}

proof fn lemma_cd_stop_far(d: Seq<u8>, pos: int, rest: nat)
    requires
        pos > d.len(),
    ensures
        cd_entries(d, pos, rest) == Seq::<(Seq<char>, u64, u64, u16, u32)>::empty(),
{
    reveal(record_ok);
}

} // verus!
