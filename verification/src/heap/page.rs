//! Heap page layout: page header, line pointers, and access to the tuples
//! they point at.

use vstd::prelude::*;
use vstd::slice::slice_subrange;

use bytes::Bytes;

use crate::codec::le::{le16, le32, read_u16, read_u32};
use crate::file::error::{PgError, Result};
use crate::heap::tuple::{spec_parse_tuple, HeapTupleData};
use crate::render::{decimal_text, push_decimal};

verus! {

/// Size of a heap page.
pub const PAGE_BUFFER_SIZE: usize = 8192;
/// Pages per 1 GiB segment file.
pub const PAGES_PER_SEGMENT: usize = 131072;

// ── The page buffer: a `bytes::Bytes` ───────────────────────────────────

#[verifier::external_type_specification]
#[verifier::external_body]
pub struct ExBytes(Bytes);

/// The bytes a `bytes::Bytes` buffer holds.
pub uninterp spec fn bytes_contents(b: Bytes) -> Seq<u8>;

/// Calls `Bytes::deref`: the buffer's bytes as a slice.
#[verifier::external_body]
pub(crate) fn bytes_as_slice(b: &Bytes) -> (r: &[u8])
    ensures
        r@ == bytes_contents(*b),
{
    b
}

/// Calls `Bytes::copy_from_slice`: a new buffer holding a copy of `data`.
#[verifier::external_body]
pub(crate) fn bytes_copy_from_slice(data: &[u8]) -> (r: Bytes)
    ensures
        bytes_contents(r) == data@,
{
    Bytes::copy_from_slice(data)
}

/// Calls `Bytes::slice`: a buffer sharing the bytes `start..end` of `b`
/// (which panics unless `start <= end <= b.len()`).
#[verifier::external_body]
pub(crate) fn bytes_slice(b: &Bytes, start: usize, end: usize) -> (r: Bytes)
    requires
        start <= end <= bytes_contents(*b).len(),
    ensures
        bytes_contents(r) == bytes_contents(*b).subrange(start as int, end as int),
{
    b.slice(start..end)
}

/// Calls `Bytes::clone`: another handle on the same bytes.
#[verifier::external_body]
fn bytes_clone(b: &Bytes) -> (r: Bytes)
    ensures
        bytes_contents(r) == bytes_contents(*b),
{
    b.clone()
}

// ── Page structures ──────────────────────────────────────────────────────

/// PostgreSQL LSN stored as two 32-bit values (`PageXLogRecPtr`).
#[derive(Debug, Clone, Copy)]
pub struct PageXLogRecPtr {
    pub xlogid: u32,
    pub xrecoff: u32,
}

/// Line pointer (`ItemIdData`, 4 bytes): `lp_off` (15 bits) | `lp_flags`
/// (2 bits) | `lp_len` (15 bits), from the least significant bit up.
#[derive(Debug, Clone, Copy)]
pub struct ItemIdData(pub u32);

impl ItemIdData {
    /// Offset of the tuple from the start of the page: bits 0..15.
    pub open spec fn spec_lp_off(self) -> u16 {
        (self.0 % 32768) as u16
    }

    /// State of the line pointer: bits 15..17.
    pub open spec fn spec_lp_flags(self) -> u8 {
        ((self.0 / 32768) % 4) as u8
    }

    /// Byte length of the tuple: bits 17..32.
    pub open spec fn spec_lp_len(self) -> u16 {
        (self.0 / 131072) as u16
    }

    /// Offset to tuple from start of page.
    pub fn lp_off(&self) -> (r: u16)
        ensures
            r == self.spec_lp_off(),
    {
        let w = self.0;
        assert(w & 0x7FFFu32 == w % 32768) by (bit_vector);
        (self.0 & 0x7FFF) as u16
    }

    /// State of line pointer.
    pub fn lp_flags(&self) -> (r: u8)
        ensures
            r == self.spec_lp_flags(),
    {
        let w = self.0;
        assert((w >> 15u32) & 0x03u32 == (w / 32768) % 4) by (bit_vector);
        ((self.0 >> 15) & 0x03) as u8
    }

    /// Byte length of tuple.
    pub fn lp_len(&self) -> (r: u16)
        ensures
            r == self.spec_lp_len(),
    {
        let w = self.0;
        assert((w >> 17u32) & 0x7FFFu32 == w / 131072) by (bit_vector);
        ((self.0 >> 17) & 0x7FFF) as u16
    }
}

/// The name of a line pointer state.
pub open spec fn lp_flags_name(f: u8) -> Seq<char> {
    if f == 0 {
        "UNUSED"@
    } else if f == 1 {
        "NORMAL"@
    } else if f == 2 {
        "REDIRECT"@
    } else if f == 3 {
        "DEAD"@
    } else {
        "UNKNOWN"@
    }
}

/// The one-line description of a line pointer.
pub open spec fn item_id_text(lp: ItemIdData) -> Seq<char> {
    "ItemId(off="@ + decimal_text(lp.spec_lp_off() as nat) + ", flags="@ + lp_flags_name(
        lp.spec_lp_flags(),
    ) + ", len="@ + decimal_text(lp.spec_lp_len() as nat) + ")"@
}

impl ItemIdData {
    /// The line pointer as `ItemId(off=.., flags=.., len=..)`, its state
    /// named (`UNUSED`, `NORMAL`, `REDIRECT` or `DEAD`).
    pub fn to_string(&self) -> (r: String)
        ensures
            r@ == item_id_text(*self),
    {
        let f = self.lp_flags();
        let name = if f == 0 {
            "UNUSED"
        } else if f == 1 {
            "NORMAL"
        } else if f == 2 {
            "REDIRECT"
        } else if f == 3 {
            "DEAD"
        } else {
            "UNKNOWN"
        };
        let mut s = String::new();
        s.append("ItemId(off=");
        push_decimal(&mut s, self.lp_off() as u64);
        s.append(", flags=");
        s.append(name);
        s.append(", len=");
        push_decimal(&mut s, self.lp_len() as u64);
        s.append(")");
        assert(s@ =~= item_id_text(*self));
        s
    }
}

/// The three fields of a line pointer make up its whole word.
pub proof fn lemma_item_id_fields(lp: ItemIdData)
    ensures
        lp.spec_lp_off() + lp.spec_lp_flags() * 32768 + lp.spec_lp_len() * 131072 == lp.0,
        lp.spec_lp_off() < 32768,
        lp.spec_lp_flags() < 4,
        lp.spec_lp_len() < 32768,
{
}

/// Page header, fixed portion (`PageHeaderData`, 24 bytes). The line
/// pointer array follows it at offset 24.
#[derive(Debug, Clone, Copy)]
pub struct PageHeaderData {
    pub pd_lsn: PageXLogRecPtr,
    pub pd_checksum: u16,
    pub pd_flags: u16,
    pub pd_lower: u16,
    pub pd_upper: u16,
    pub pd_special: u16,
    pub pd_pagesize_version: u16,
    pub pd_prune_xid: u32,
}

/// Number of line pointers on a page whose `pd_lower` is `pd_lower`: the
/// pointers fill the space from byte 24 up to `pd_lower`, 4 bytes each.
pub open spec fn spec_num_line_pointers(pd_lower: u16) -> int {
    if pd_lower >= 24 { (pd_lower - 24) / 4 } else { 0 }
}

/// The page header stored in the first 24 bytes of `page`.
pub open spec fn spec_page_header(page: Seq<u8>) -> PageHeaderData {
    PageHeaderData {
        pd_lsn: PageXLogRecPtr { xlogid: le32(page, 0) as u32, xrecoff: le32(page, 4) as u32 },
        pd_checksum: le16(page, 8) as u16,
        pd_flags: le16(page, 10) as u16,
        pd_lower: le16(page, 12) as u16,
        pd_upper: le16(page, 14) as u16,
        pd_special: le16(page, 16) as u16,
        pd_pagesize_version: le16(page, 18) as u16,
        pd_prune_xid: le32(page, 20) as u32,
    }
}

impl PageHeaderData {
    /// The page size (the high byte of `pd_pagesize_version`).
    pub fn page_size(&self) -> (r: u16)
        ensures
            r == self.pd_pagesize_version & 0xFF00,
    {
        self.pd_pagesize_version & 0xFF00
    }

    /// The page layout version (the low byte of `pd_pagesize_version`).
    pub fn page_version(&self) -> (r: u16)
        ensures
            r == self.pd_pagesize_version & 0x00FF,
    {
        self.pd_pagesize_version & 0x00FF
    }

    /// Number of line pointers on this page.
    pub fn num_line_pointers(&self) -> (r: usize)
        ensures
            r == spec_num_line_pointers(self.pd_lower),
    {
        // pd_lower points to the end of the line pointer array; the header is
        // 24 bytes, each line pointer is 4 bytes
        (self.pd_lower as usize).saturating_sub(24) / 4
    }

    /// Parse a `PageHeaderData` from the first 24 bytes of a raw page
    /// buffer; a shorter buffer gives `PageBufferTooShort`.
    pub fn parse(page_buffer: &[u8]) -> (r: Result<Self>)
        ensures
            page_buffer@.len() < 24 ==> r == Err::<PageHeaderData, PgError>(
                PgError::PageBufferTooShort { actual: page_buffer@.len() as usize, expected: 24 },
            ),
            page_buffer@.len() >= 24 ==> r == Ok::<PageHeaderData, PgError>(spec_page_header(page_buffer@)),
    {
        if page_buffer.len() < 24 {
            return Err(PgError::PageBufferTooShort { actual: page_buffer.len(), expected: 24 });
        }
        let xlogid = read_u32(page_buffer, 0);
        let xrecoff = read_u32(page_buffer, 4);
        let pd_checksum = read_u16(page_buffer, 8);
        let pd_flags = read_u16(page_buffer, 10);
        let pd_lower = read_u16(page_buffer, 12);
        let pd_upper = read_u16(page_buffer, 14);
        let pd_special = read_u16(page_buffer, 16);
        let word = read_u16(page_buffer, 18);
        let pagesize = word & 0xFF00;
        let version = word & 0x00FF;
        let pd_prune_xid = read_u32(page_buffer, 20);
        assert((word & 0xFF00u16) | (word & 0x00FFu16) == word) by (bit_vector);
        Ok(PageHeaderData {
            pd_lsn: PageXLogRecPtr { xlogid, xrecoff },
            pd_checksum,
            pd_flags,
            pd_lower,
            pd_upper,
            pd_special,
            pd_pagesize_version: pagesize | version,
            pd_prune_xid,
        })
    }
}

/// The page size and layout version are the two halves of
/// `pd_pagesize_version`.
pub proof fn lemma_page_size_version(v: u16)
    ensures
        (v & 0xFF00) | (v & 0x00FF) == v,
        (v & 0xFF00) & (v & 0x00FF) == 0,
{
    assert((v & 0xFF00u16) | (v & 0x00FFu16) == v) by (bit_vector);
    assert((v & 0xFF00u16) & (v & 0x00FFu16) == 0) by (bit_vector);
}

pub const LP_UNUSED: u8 = 0;
pub const LP_NORMAL: u8 = 1;
pub const LP_REDIRECT: u8 = 2;
pub const LP_DEAD: u8 = 3;

/// The line pointer at `index` of the array that starts at byte 24.
pub open spec fn spec_line_pointer(page: Seq<u8>, index: int) -> ItemIdData {
    ItemIdData(le32(page, 24 + index * 4) as u32)
}

/// Read the line pointer at `index` from a page buffer.
pub fn read_line_pointer(page: &[u8], index: usize) -> (r: ItemIdData)
    requires
        24 + index * 4 + 4 <= page@.len(),
    ensures
        r == spec_line_pointer(page@, index as int),
{
    let n = page.len();
    assert(24 + index * 4 + 4 <= n);
    let off = 24 + index * 4;
    ItemIdData(read_u32(page, off))
}

/// A parsed heap page: its header, its line pointers, and the raw page
/// bytes the tuples are read from.
#[derive(Debug)]
pub struct HeapPageData {
    pub header: PageHeaderData,
    pub lp_num: usize,
    pub lp_items: Vec<ItemIdData>,
    pub page_data: Bytes,
}

impl Clone for HeapPageData {
    fn clone(&self) -> (r: Self)
        ensures
            r.header == self.header,
            r.lp_num == self.lp_num,
            r.lp_items@ == self.lp_items@,
            bytes_contents(r.page_data) == bytes_contents(self.page_data),
    {
        HeapPageData {
            header: self.header,
            lp_num: self.lp_num,
            lp_items: self.lp_items.clone(),
            page_data: bytes_clone(&self.page_data),
        }
    }
}

/// A page buffer that `parse_bytes` can read without indexing past its end:
/// either too short to be a page, or long enough for every line pointer its
/// header announces.
pub open spec fn page_parse_ok(page: Seq<u8>) -> bool {
    page.len() >= 8192 ==> 24 + 4 * spec_num_line_pointers(spec_page_header(page).pd_lower) <= page.len()
}

/// What [`HeapPageData::parse_bytes`] reads from a page buffer: a buffer
/// shorter than a page is an error; otherwise the header and its line
/// pointers.
pub open spec fn spec_page_parsed(page: Seq<u8>, p: HeapPageData) -> bool {
    let header = spec_page_header(page);
    &&& p.header == header
    &&& p.lp_num == spec_num_line_pointers(header.pd_lower)
    &&& p.lp_items@.len() == p.lp_num
    &&& forall|i: int| 0 <= i < p.lp_num ==> #[trigger] p.lp_items@[i] == spec_line_pointer(page, i)
    &&& bytes_contents(p.page_data) == page
}

/// The line pointers that the header of `page` announces.
pub open spec fn page_line_pointers(page: Seq<u8>) -> Seq<ItemIdData> {
    Seq::new(spec_num_line_pointers(spec_page_header(page).pd_lower) as nat, |i: int| spec_line_pointer(page, i))
}

/// The raw bytes of the tuple that the line pointer `lp` points at, if the
/// pointer is normal and the bytes lie within the page.
pub open spec fn spec_tuple_bytes(page: Seq<u8>, lp: ItemIdData) -> Option<Seq<u8>> {
    let start = lp.spec_lp_off() as int;
    let end = start + lp.spec_lp_len();
    if end <= page.len() {
        Some(page.subrange(start, end))
    } else {
        None
    }
}

/// Line pointer `lp` leads to a tuple: it is normal, its bytes lie within
/// the page, and they parse as a tuple.
pub open spec fn tuple_readable(page: Seq<u8>, lp: ItemIdData) -> bool {
    &&& lp.spec_lp_flags() == LP_NORMAL
    &&& spec_tuple_bytes(page, lp) matches Some(raw)
    &&& spec_parse_tuple(raw) is Ok
}

impl HeapPageData {
    /// Parse a full heap page from an owned byte array (copied into a
    /// `Bytes`).
    pub fn parse(page_buffer: [u8; PAGE_BUFFER_SIZE]) -> (r: Result<Self>)
        requires
            page_parse_ok(page_buffer@),
        ensures
            r matches Ok(p) && spec_page_parsed(page_buffer@, p),
    {
        Self::parse_bytes(bytes_copy_from_slice(page_buffer.as_slice()))
    }

    /// Whether parsing `page_buffer` as a page is defined ([`page_parse_ok`]):
    /// a buffer too short to be a page, or one long enough for every line
    /// pointer its header announces.
    pub fn parse_defined(page_buffer: &[u8]) -> (r: bool)
        ensures
            r == page_parse_ok(page_buffer@),
    {
        if page_buffer.len() < PAGE_BUFFER_SIZE {
            return true;
        }
        let header = match PageHeaderData::parse(page_buffer) {
            Ok(h) => h,
            Err(_) => return true,
        };
        let n = header.num_line_pointers();
        24 + 4 * n <= page_buffer.len()
    }

    /// Parse a full heap page from a `Bytes` buffer, which is kept for later
    /// tuple access. A buffer shorter than a page gives `PageBufferTooShort`.
    pub fn parse_bytes(page_buffer: Bytes) -> (r: Result<Self>)
        requires
            page_parse_ok(bytes_contents(page_buffer)),
        ensures
            bytes_contents(page_buffer).len() < PAGE_BUFFER_SIZE ==> r == Err::<HeapPageData, PgError>(
                PgError::PageBufferTooShort {
                    actual: bytes_contents(page_buffer).len() as usize,
                    expected: PAGE_BUFFER_SIZE,
                },
            ),
            bytes_contents(page_buffer).len() >= PAGE_BUFFER_SIZE ==> (r matches Ok(p) && spec_page_parsed(
                bytes_contents(page_buffer),
                p,
            )),
    {
        let buf = bytes_as_slice(&page_buffer);
        if buf.len() < PAGE_BUFFER_SIZE {
            return Err(PgError::PageBufferTooShort { actual: buf.len(), expected: PAGE_BUFFER_SIZE });
        }
        let header = match PageHeaderData::parse(buf) {
            Ok(h) => h,
            Err(e) => return Err(e),
        };
        let lp_num = header.num_line_pointers();
        let mut lp_items: Vec<ItemIdData> = Vec::with_capacity(lp_num);
        let mut lp_index: usize = 0;
        while lp_index < lp_num
            invariant
                buf@ == bytes_contents(page_buffer),
                header == spec_page_header(buf@),
                lp_num == spec_num_line_pointers(header.pd_lower),
                24 + 4 * lp_num <= buf@.len(),
                lp_index <= lp_num,
                lp_items@.len() == lp_index,
                forall|i: int| 0 <= i < lp_index ==> #[trigger] lp_items@[i] == spec_line_pointer(buf@, i),
            decreases lp_num - lp_index,
        {
            lp_items.push(read_line_pointer(buf, lp_index));
            lp_index = lp_index + 1;
        }
        Ok(HeapPageData { header, lp_num, lp_items, page_data: page_buffer })
    }

    /// Parse the tuple that line pointer `ip_posid` points at.
    ///
    /// A position past the line pointers, or a pointer to bytes outside the
    /// page, gives `Generic`; an unused, redirect or dead pointer gives
    /// `DeadTupleLinePointer`; otherwise the tuple bytes are parsed.
    pub fn get_row_data(&self, ip_posid: u16) -> (r: Result<HeapTupleData>)
        ensures
            ip_posid < self.lp_items@.len() ==> (r is Ok <==> tuple_readable(
                bytes_contents(self.page_data),
                self.lp_items@[ip_posid as int],
            )),
            ip_posid >= self.lp_items@.len() ==> r == Err::<HeapTupleData, PgError>(PgError::Generic),
            ip_posid < self.lp_items@.len() ==> {
                let lp = self.lp_items@[ip_posid as int];
                if lp.spec_lp_flags() != LP_NORMAL {
                    r == Err::<HeapTupleData, PgError>(PgError::DeadTupleLinePointer { ip_posid: ip_posid as usize })
                } else {
                    match spec_tuple_bytes(bytes_contents(self.page_data), lp) {
                        None => r == Err::<HeapTupleData, PgError>(PgError::Generic),
                        Some(raw) => match (r, spec_parse_tuple(raw)) {
                            (Ok(t), Ok((h, bitmap, data))) => t.header == h && t.null_bitmap@ == bitmap && t.data@ == data,
                            (Err(e), Err(se)) => e == se,
                            _ => false,
                        },
                    }
                }
            },
    {
        if ip_posid as usize >= self.lp_items.len() {
            return Err(PgError::Generic);
        }
        let lp = &self.lp_items[ip_posid as usize];
        let flags = lp.lp_flags();
        if flags == LP_DEAD {
            return Err(PgError::DeadTupleLinePointer { ip_posid: ip_posid as usize });
        }
        if flags == LP_UNUSED {
            return Err(PgError::DeadTupleLinePointer { ip_posid: ip_posid as usize });
        }
        if flags == LP_REDIRECT {
            return Err(PgError::DeadTupleLinePointer { ip_posid: ip_posid as usize });
        }
        let start = lp.lp_off() as usize;
        let end = start + lp.lp_len() as usize;
        let page = bytes_as_slice(&self.page_data);
        if end > page.len() {
            return Err(PgError::Generic);
        }
        HeapTupleData::parse_and_build(slice_subrange(page, start, end))
    }
}

} // verus!
