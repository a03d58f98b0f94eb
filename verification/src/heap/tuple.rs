//! Heap tuple layout: tuple header, null bitmap and attribute data.

use vstd::prelude::*;
use vstd::slice::{slice_subrange, slice_to_vec};

use crate::codec::datum::{datum_result_matches, decode_datum_ok, spec_decode_datum, spec_skip_datum};
use crate::codec::le::{le16, le32, read_u16, read_u32};
use crate::codec::datum::{DecodeErrorView, PgDatumView};
use crate::codec::{decode_datum, skip_datum, PgDatum, PgTypeId, PgTypeLen};
use crate::file::error::{PgError, Result};
use crate::messages::{decode_error_text, index_label, index_text};
use crate::render::{
    decimal_text, hex4_text, join_names, push_decimal, push_decimal_width3, push_hex4, push_joined,
    right_aligned,
};
use crate::types::{first_named, str_eq, PgColumn, PgSchema};

verus! {

/// Alignment class of a PostgreSQL type (`pg_type.typalign`).
#[derive(Debug, Clone, Copy, PartialEq, Eq, Structural)]
pub enum PgAlign {
    /// 'c' — 1 byte
    Char,
    /// 's' — 2 bytes
    Short,
    /// 'i' — 4 bytes
    Int,
    /// 'd' — 8 bytes
    Double,
}

/// Block identifier: the two halves of a 32-bit block number
/// (`BlockIdData`).
#[derive(Debug, Clone, Copy)]
pub struct BlockIdData {
    pub bi_hi: u16,
    pub bi_lo: u16,
}

impl BlockIdData {
    /// The 32-bit block number `bi_hi * 2^16 + bi_lo`.
    pub open spec fn spec_block_number(self) -> u32 {
        (self.bi_hi * 65536 + self.bi_lo) as u32
    }

    /// The 32-bit block number.
    pub fn block_number(&self) -> (r: u32)
        ensures
            r == self.spec_block_number(),
    {
        u32::from(*self)
    }
}

impl From<u32> for BlockIdData {
    fn from(n: u32) -> (r: Self) {
        assert(n >> 16u32 == n / 65536) by (bit_vector);
        assert(n as u16 == n % 65536) by (bit_vector);
        BlockIdData { bi_hi: (n >> 16) as u16, bi_lo: n as u16 }
    }
}

impl vstd::std_specs::convert::FromSpecImpl<u32> for BlockIdData {
    open spec fn obeys_from_spec() -> bool {
        true
    }

    open spec fn from_spec(n: u32) -> BlockIdData {
        BlockIdData { bi_hi: (n / 65536) as u16, bi_lo: (n % 65536) as u16 }
    }
}

impl From<BlockIdData> for u32 {
    fn from(b: BlockIdData) -> (r: u32) {
        let hi = b.bi_hi as u32;
        let lo = b.bi_lo as u32;
        assert(hi < 65536 && lo < 65536 ==> (hi << 16u32) | lo == hi * 65536 + lo) by (bit_vector);
        (hi << 16) | lo
    }
}

impl vstd::std_specs::convert::FromSpecImpl<BlockIdData> for u32 {
    open spec fn obeys_from_spec() -> bool {
        true
    }

    open spec fn from_spec(b: BlockIdData) -> u32 {
        b.spec_block_number()
    }
}

/// Splitting a block number into halves and joining them gives it back,
/// and so does joining halves and splitting the result.
pub proof fn lemma_block_id_round_trip(n: u32, b: BlockIdData)
    ensures
        <BlockIdData as vstd::std_specs::convert::FromSpec<u32>>::from_spec(n).spec_block_number() == n,
        <BlockIdData as vstd::std_specs::convert::FromSpec<u32>>::from_spec(b.spec_block_number()) == b,
{
}

/// Tuple identifier (TID): block and offset within the page
/// (`ItemPointerData`, 6 bytes).
#[derive(Debug, Clone, Copy)]
pub struct ItemPointerData {
    pub ip_blkid: BlockIdData,
    pub ip_posid: u16,
}

/// Heap tuple header: the fixed 23-byte part (`HeapTupleHeaderData`). The
/// null bitmap (`t_bits`) follows it; the attribute data starts at `t_hoff`.
#[derive(Debug, Clone, Copy)]
pub struct HeapTupleHeaderData {
    pub t_xmin: u32,
    pub t_xmax: u32,
    /// Union of `t_cid` (CommandId) and `t_xvac` (TransactionId).
    pub t_field3: u32,
    pub t_ctid: ItemPointerData,
    pub t_infomask2: u16,
    pub t_infomask: u16,
    pub t_hoff: u8,
}

impl HeapTupleHeaderData {
    /// Whether `flag` (an [`InfoMask`] bit or a composite mask such as
    /// `InfoMask::XMIN_FROZEN`) is set in `t_infomask`: every one of its
    /// bits is set.
    pub fn has_flag(&self, flag: u16) -> (r: bool)
        ensures
            r == (self.t_infomask & flag == flag),
    {
        self.t_infomask & flag == flag
    }
}

/// Size of the fixed part of a heap tuple header.
pub const SIZEOF_HEAP_TUPLE_HEADER: usize = 23;

/// Mask of the attribute count in `t_infomask2`.
pub const HEAP_NATTS_MASK: u16 = 0x07FF;
/// Tuple was updated and key columns were modified, or tuple was deleted.
pub const HEAP_KEYS_UPDATED: u16 = 0x2000;
/// Tuple was HOT-updated (successor is on the same page).
pub const HEAP_HOT_UPDATED: u16 = 0x4000;
/// This tuple is a heap-only tuple (HOT chain member, no index entry).
pub const HEAP_ONLY_TUPLE: u16 = 0x8000;

/// Bit flags of `HeapTupleHeaderData::t_infomask` (PostgreSQL's `HEAP_*`).
#[derive(Debug, Clone, Copy, PartialEq, Eq, Structural)]
pub enum InfoMask {
    HasNull,
    HasVarWidth,
    HasExternal,
    HasOidOld,
    XmaxKeyshrLock,
    ComboCid,
    XmaxExclLock,
    XmaxLockOnly,
    XminCommitted,
    XminInvalid,
    XmaxCommitted,
    XmaxInvalid,
    XmaxIsMulti,
    Updated,
    MovedOff,
    MovedIn,
}

impl InfoMask {
    /// xmax is a shared locker (EXCL | KEYSHR).
    pub const XMAX_SHR_LOCK: u16 = 0x0050;
    /// All lock-type bits.
    pub const LOCK_MASK: u16 = 0x0050;
    /// Both COMMITTED and INVALID set: frozen xmin.
    pub const XMIN_FROZEN: u16 = 0x0300;
    /// Either MOVED_OFF or MOVED_IN (pre-9.0 legacy).
    pub const MOVED: u16 = 0xC000;
    /// All transaction-visibility bits.
    pub const XACT_MASK: u16 = 0xFFF0;

    /// The flag's bit in `t_infomask`.
    pub open spec fn spec_bit(self) -> u16 {
        match self {
            InfoMask::HasNull => 0x0001,
            InfoMask::HasVarWidth => 0x0002,
            InfoMask::HasExternal => 0x0004,
            InfoMask::HasOidOld => 0x0008,
            InfoMask::XmaxKeyshrLock => 0x0010,
            InfoMask::ComboCid => 0x0020,
            InfoMask::XmaxExclLock => 0x0040,
            InfoMask::XmaxLockOnly => 0x0080,
            InfoMask::XminCommitted => 0x0100,
            InfoMask::XminInvalid => 0x0200,
            InfoMask::XmaxCommitted => 0x0400,
            InfoMask::XmaxInvalid => 0x0800,
            InfoMask::XmaxIsMulti => 0x1000,
            InfoMask::Updated => 0x2000,
            InfoMask::MovedOff => 0x4000,
            InfoMask::MovedIn => 0x8000,
        }
    }

    /// The flag's short name.
    pub open spec fn spec_short_name(self) -> Seq<char> {
        match self {
            InfoMask::HasNull => "HASNULL"@,
            InfoMask::HasVarWidth => "HASVARWIDTH"@,
            InfoMask::HasExternal => "HASEXTERNAL"@,
            InfoMask::HasOidOld => "HASOID_OLD"@,
            InfoMask::XmaxKeyshrLock => "XMAX_KEYSHR_LOCK"@,
            InfoMask::ComboCid => "COMBOCID"@,
            InfoMask::XmaxExclLock => "XMAX_EXCL_LOCK"@,
            InfoMask::XmaxLockOnly => "XMAX_LOCK_ONLY"@,
            InfoMask::XminCommitted => "XMIN_COMMITTED"@,
            InfoMask::XminInvalid => "XMIN_INVALID"@,
            InfoMask::XmaxCommitted => "XMAX_COMMITTED"@,
            InfoMask::XmaxInvalid => "XMAX_INVALID"@,
            InfoMask::XmaxIsMulti => "XMAX_IS_MULTI"@,
            InfoMask::Updated => "UPDATED"@,
            InfoMask::MovedOff => "MOVED_OFF"@,
            InfoMask::MovedIn => "MOVED_IN"@,
        }
    }

    /// Short flag name (e.g. `"HASNULL"`).
    pub fn short_name(self) -> (r: &'static str)
        ensures
            r@ == self.spec_short_name(),
    {
        match self {
            InfoMask::HasNull => "HASNULL",
            InfoMask::HasVarWidth => "HASVARWIDTH",
            InfoMask::HasExternal => "HASEXTERNAL",
            InfoMask::HasOidOld => "HASOID_OLD",
            InfoMask::XmaxKeyshrLock => "XMAX_KEYSHR_LOCK",
            InfoMask::ComboCid => "COMBOCID",
            InfoMask::XmaxExclLock => "XMAX_EXCL_LOCK",
            InfoMask::XmaxLockOnly => "XMAX_LOCK_ONLY",
            InfoMask::XminCommitted => "XMIN_COMMITTED",
            InfoMask::XminInvalid => "XMIN_INVALID",
            InfoMask::XmaxCommitted => "XMAX_COMMITTED",
            InfoMask::XmaxInvalid => "XMAX_INVALID",
            InfoMask::XmaxIsMulti => "XMAX_IS_MULTI",
            InfoMask::Updated => "UPDATED",
            InfoMask::MovedOff => "MOVED_OFF",
            InfoMask::MovedIn => "MOVED_IN",
        }
    }
}

/// Distinct flags have distinct short names (and so distinct qualified
/// names).
pub proof fn lemma_short_names_distinct(m1: InfoMask, m2: InfoMask)
    ensures
        m1.spec_short_name() == m2.spec_short_name() ==> m1 == m2,
{
    reveal_strlit("HASNULL");
    reveal_strlit("HASVARWIDTH");
    reveal_strlit("HASEXTERNAL");
    reveal_strlit("HASOID_OLD");
    reveal_strlit("XMAX_KEYSHR_LOCK");
    reveal_strlit("COMBOCID");
    reveal_strlit("XMAX_EXCL_LOCK");
    reveal_strlit("XMAX_LOCK_ONLY");
    reveal_strlit("XMIN_COMMITTED");
    reveal_strlit("XMIN_INVALID");
    reveal_strlit("XMAX_COMMITTED");
    reveal_strlit("XMAX_INVALID");
    reveal_strlit("XMAX_IS_MULTI");
    reveal_strlit("UPDATED");
    reveal_strlit("MOVED_OFF");
    reveal_strlit("MOVED_IN");
    let a = m1.spec_short_name();
    let b = m2.spec_short_name();
    if a == b {
        assert(a.len() == b.len());
        assert(a[0] == b[0]);
        assert(a[3] == b[3]);
        assert(a[5] == b[5]);
    }
}

impl From<InfoMask> for u16 {
    fn from(m: InfoMask) -> (r: u16) {
        match m {
            InfoMask::HasNull => 0x0001,
            InfoMask::HasVarWidth => 0x0002,
            InfoMask::HasExternal => 0x0004,
            InfoMask::HasOidOld => 0x0008,
            InfoMask::XmaxKeyshrLock => 0x0010,
            InfoMask::ComboCid => 0x0020,
            InfoMask::XmaxExclLock => 0x0040,
            InfoMask::XmaxLockOnly => 0x0080,
            InfoMask::XminCommitted => 0x0100,
            InfoMask::XminInvalid => 0x0200,
            InfoMask::XmaxCommitted => 0x0400,
            InfoMask::XmaxInvalid => 0x0800,
            InfoMask::XmaxIsMulti => 0x1000,
            InfoMask::Updated => 0x2000,
            InfoMask::MovedOff => 0x4000,
            InfoMask::MovedIn => 0x8000,
        }
    }
}

impl vstd::std_specs::convert::FromSpecImpl<InfoMask> for u16 {
    open spec fn obeys_from_spec() -> bool {
        true
    }

    open spec fn from_spec(m: InfoMask) -> u16 {
        m.spec_bit()
    }
}

/// The fixed header of the tuple whose raw bytes are `raw`.
pub open spec fn spec_tuple_header(raw: Seq<u8>) -> HeapTupleHeaderData {
    HeapTupleHeaderData {
        t_xmin: le32(raw, 0) as u32,
        t_xmax: le32(raw, 4) as u32,
        t_field3: le32(raw, 8) as u32,
        t_ctid: ItemPointerData {
            ip_blkid: BlockIdData { bi_hi: le16(raw, 12) as u16, bi_lo: le16(raw, 14) as u16 },
            ip_posid: le16(raw, 16) as u16,
        },
        t_infomask2: le16(raw, 18) as u16,
        t_infomask: le16(raw, 20) as u16,
        t_hoff: raw[22],
    }
}

/// Number of attributes recorded in `t_infomask2`.
pub open spec fn spec_natts(infomask2: u16) -> int {
    (infomask2 % 2048) as int
}

/// Number of bytes of a null bitmap covering `natts` attributes.
pub open spec fn bitmap_bytes(natts: int) -> int {
    (natts + 7) / 8
}

/// The parts of a heap tuple that [`HeapTupleData::parse_and_build`] reads
/// from `raw`: header, null bitmap and attribute data.
pub open spec fn spec_parse_tuple(raw: Seq<u8>) -> Result<(HeapTupleHeaderData, Seq<u8>, Seq<u8>), PgError> {
    if raw.len() < 23 {
        Err(PgError::TupleBufferTooShort { actual: raw.len() as usize, expected: 23 })
    } else {
        let header = spec_tuple_header(raw);
        let t_hoff = header.t_hoff as int;
        if t_hoff < 23 || t_hoff > raw.len() {
            Err(PgError::InvalidTupleHoff { t_hoff: header.t_hoff, min: 23, buf_len: raw.len() as usize })
        } else if header.t_infomask % 2 == 1 {
            let bitmap_end = 23 + bitmap_bytes(spec_natts(header.t_infomask2));
            if bitmap_end > t_hoff {
                Err(PgError::NullBitmapOverflow { bitmap_end: bitmap_end as usize, t_hoff: t_hoff as usize })
            } else {
                Ok((header, raw.subrange(23, bitmap_end), raw.subrange(t_hoff, raw.len() as int)))
            }
        } else {
            Ok((header, Seq::empty(), raw.subrange(t_hoff, raw.len() as int)))
        }
    }
}

/// The low 11 bits of `t_infomask2` (bytes 18..20, little-endian), read
/// from the raw bytes: the flag bits 11..15 (the top five bits of byte 19)
/// are not part of them.
proof fn lemma_natts_bytes(raw: Seq<u8>)
    requires
        raw.len() >= 23,
    ensures
        (le16(raw, 18) as u16) % 2048 == raw[18] as int + 256 * ((raw[19] & 7u8) as int),
{
    let b19 = raw[19];
    assert(b19 & 7u8 == b19 % 8) by (bit_vector);
    let h = le16(raw, 18);
    assert(h == raw[18] + 256 * raw[19]);
    assert(0 <= h < 65536);
    assert((raw[18] + 256 * raw[19]) % 2048 == raw[18] + 256 * (raw[19] % 8)) by (nonlinear_arith)
        requires
            0 <= raw[18] < 256,
            0 <= raw[19] < 256,
    ;
}

/// A tuple with the `HASNULL` flag parses to a null bitmap of exactly
/// `ceil(natts / 8)` bytes right after the 23-byte header, where `natts` is
/// the low 11 bits of `t_infomask2`, and to the attribute data from
/// `t_hoff` on; it is refused exactly when that bitmap runs past `t_hoff`.
/// The flag bits of `t_infomask2` play no part.
pub proof fn lemma_null_bitmap_covers_attributes(raw: Seq<u8>)
    requires
        raw.len() >= 23,
        23 <= raw[22] <= raw.len(),
        raw[20] % 2 == 1,
    ensures
        ({
            let n = (raw[18] as int + 256 * ((raw[19] & 7u8) as int) + 7) / 8;
            if 23 + n <= raw[22] {
                spec_parse_tuple(raw) matches Ok((_, bitmap, data)) && bitmap == raw.subrange(23, 23 + n) && data
                    == raw.subrange(raw[22] as int, raw.len() as int)
            } else {
                spec_parse_tuple(raw) is Err
            }
        }),
{
    lemma_natts_bytes(raw);
    assert(le16(raw, 20) % 2 == raw[20] % 2);
}

/// Two tuples whose bytes differ only in the flag bits of `t_infomask2`
/// (bits 11..15) parse alike: both are refused, or both give the same null
/// bitmap and attribute data.
pub proof fn lemma_infomask2_flags_do_not_change_layout(raw: Seq<u8>, other: Seq<u8>)
    requires
        raw.len() >= 23,
        other.len() == raw.len(),
        forall|i: int| 0 <= i < raw.len() && i != 19 ==> other[i] == raw[i],
        other[19] & 7u8 == raw[19] & 7u8,
    ensures
        spec_parse_tuple(raw) is Ok <==> spec_parse_tuple(other) is Ok,
        spec_parse_tuple(raw) matches Ok((_, b1, d1)) ==> (spec_parse_tuple(other) matches Ok((_, b2, d2)) && b1 == b2
            && d1 == d2),
{
    lemma_natts_bytes(raw);
    lemma_natts_bytes(other);
    assert(other[18] == raw[18] && other[20] == raw[20] && other[21] == raw[21] && other[22] == raw[22]);
    if let Ok((_, b1, d1)) = spec_parse_tuple(raw) {
        if let Ok((_, b2, d2)) = spec_parse_tuple(other) {
            assert(b1 =~= b2);
            assert(d1 =~= d2);
        }
    }
}

/// Column `i` is NULL according to `bitmap`: its bit (LSB first within each
/// byte) is 0. Columns past the end of the bitmap are not NULL.
pub open spec fn bitmap_says_null(bitmap: Seq<u8>, i: int) -> bool {
    i / 8 < bitmap.len() && (bitmap[i / 8] & (1u8 << ((i % 8) as u8))) == 0
}

/// A heap tuple: its header, null bitmap and attribute data.
#[derive(Debug)]
pub struct HeapTupleData {
    /// Postgres tuple header.
    pub header: HeapTupleHeaderData,
    /// Raw bytes of the null bitmap (`t_bits`): exactly the bytes covering
    /// the header's attribute count, and empty unless the header has the
    /// `HasNull` flag. Bit i (LSB first within each byte) is 1 when attribute
    /// i is NOT NULL.
    pub null_bitmap: Vec<u8>,
    /// Attribute data bytes, starting at `t_hoff`.
    pub data: Vec<u8>,
}

impl Clone for HeapTupleData {
    fn clone(&self) -> (r: Self)
        ensures
            r.header == self.header,
            r.null_bitmap@ == self.null_bitmap@,
            r.data@ == self.data@,
    {
        HeapTupleData {
            header: self.header,
            null_bitmap: self.null_bitmap.clone(),
            data: self.data.clone(),
        }
    }
}

/// How a column is looked up.
#[derive(Debug)]
pub enum ColumnSearchArg {
    ColumnIndex(usize),
    ColumnName(String),
}

/// The schema position that `target` designates, if any: the index itself,
/// or the first column with the name.
pub open spec fn spec_resolve_column(columns: Seq<PgColumn>, target: ColumnSearchArg) -> Option<int> {
    match target {
        ColumnSearchArg::ColumnIndex(i) => if i < columns.len() { Some(i as int) } else { None },
        ColumnSearchArg::ColumnName(name) => if exists|i: int| first_named(columns, name@, i) {
            Some(choose|i: int| first_named(columns, name@, i))
        } else {
            None
        },
    }
}

impl HeapTupleData {
    /// Parse raw tuple bytes from a heap page (`page[lp_off .. lp_off +
    /// lp_len]`) into a [`HeapTupleData`].
    ///
    /// Fails if the buffer is shorter than the 23-byte header, if `t_hoff`
    /// lies outside `[23, raw.len()]`, or if the null bitmap runs past
    /// `t_hoff`.
    pub fn parse_and_build(raw: &[u8]) -> (r: Result<Self>)
        ensures
            match (r, spec_parse_tuple(raw@)) {
                (Ok(t), Ok((h, bitmap, data))) => t.header == h && t.null_bitmap@ == bitmap && t.data@ == data,
                (Err(e), Err(se)) => e == se,
                _ => false,
            },
    {
        if raw.len() < SIZEOF_HEAP_TUPLE_HEADER {
            return Err(PgError::TupleBufferTooShort { actual: raw.len(), expected: SIZEOF_HEAP_TUPLE_HEADER });
        }
        let t_xmin = read_u32(raw, 0);
        let t_xmax = read_u32(raw, 4);
        let t_field3 = read_u32(raw, 8);

        // t_ctid: BlockIdData (4 bytes) + ip_posid (2 bytes)
        let bi_hi = read_u16(raw, 12);
        let bi_lo = read_u16(raw, 14);
        let ip_posid = read_u16(raw, 16);

        let t_infomask2 = read_u16(raw, 18);
        let t_infomask = read_u16(raw, 20);
        let t_hoff = raw[22];

        let t_hoff_usize = t_hoff as usize;
        if t_hoff_usize < SIZEOF_HEAP_TUPLE_HEADER || t_hoff_usize > raw.len() {
            return Err(PgError::InvalidTupleHoff { t_hoff, min: SIZEOF_HEAP_TUPLE_HEADER, buf_len: raw.len() });
        }

        let header = HeapTupleHeaderData {
            t_xmin,
            t_xmax,
            t_field3,
            t_ctid: ItemPointerData { ip_blkid: BlockIdData { bi_hi, bi_lo }, ip_posid },
            t_infomask2,
            t_infomask,
            t_hoff,
        };

        // Null bitmap: exactly ceil(natts / 8) bytes starting at byte 23;
        // the rest of raw[23..t_hoff] is alignment padding.
        assert((t_infomask & 1u16 == 1u16) == (t_infomask % 2 == 1)) by (bit_vector);
        let null_bitmap = if header.has_flag(1) {
            let natts = (header.t_infomask2 & HEAP_NATTS_MASK) as usize;
            assert(t_infomask2 & 0x07FFu16 == t_infomask2 % 2048) by (bit_vector);
            let bitmap_bytes = (natts + 7) / 8;
            let bitmap_end = SIZEOF_HEAP_TUPLE_HEADER + bitmap_bytes;
            if bitmap_end > t_hoff_usize {
                return Err(PgError::NullBitmapOverflow { bitmap_end, t_hoff: t_hoff_usize });
            }
            slice_to_vec(slice_subrange(raw, SIZEOF_HEAP_TUPLE_HEADER, bitmap_end))
        } else {
            Vec::new()
        };

        // Attribute data begins at t_hoff (past the header and null bitmap).
        let data = slice_to_vec(slice_subrange(raw, t_hoff_usize, raw.len()));
        Ok(HeapTupleData { header, null_bitmap, data })
    }

    /// Whether column `col_index` is NULL: its bitmap bit is 0. A column past
    /// the end of the bitmap (or any column when there is no bitmap) is not
    /// NULL.
    pub fn is_null(&self, col_index: usize) -> (r: bool)
        ensures
            r == bitmap_says_null(self.null_bitmap@, col_index as int),
    {
        if col_index / 8 < self.null_bitmap.len() {
            let b = self.null_bitmap[col_index / 8];
            b & (1u8 << ((col_index % 8) as u8)) == 0
        } else {
            false
        }
    }

    /// Decode the column designated by `target`, whose value starts at
    /// `column_offset` in the attribute data.
    ///
    /// Returns `(datum, bytes_consumed)`. A column looked up by a name or an
    /// index the schema does not have gives `ColumnNotFound`; a NULL column gives
    /// `NullColumnValue`; a decoding failure gives `DecodeError` with the
    /// decoder's message.
    pub fn get_column(&self, target_column: ColumnSearchArg, schema: &PgSchema, column_offset: usize) -> (r: Result<(PgDatum, usize)>)
        requires
            spec_resolve_column(schema@, target_column) matches Some(i) ==> decode_datum_ok(
                schema@[i].type_id,
                self.data@,
                column_offset as int,
            ),
        ensures
            match spec_resolve_column(schema@, target_column) {
                None => match target_column {
                    ColumnSearchArg::ColumnName(name) => r == Err::<(PgDatum, usize), PgError>(
                        PgError::ColumnNotFound { column: name },
                    ),
                    ColumnSearchArg::ColumnIndex(i) => r matches Err(e) && e matches PgError::ColumnNotFound { column }
                        && column@ == index_text(i as nat),
                },
                Some(i) => if bitmap_says_null(self.null_bitmap@, i) {
                    r == Err::<(PgDatum, usize), PgError>(PgError::NullColumnValue { id: i as usize })
                } else {
                    match (r, spec_decode_datum(schema@[i].type_id, self.data@, column_offset as int)) {
                        (Ok((d, n)), Ok((sd, sn))) => d@ == sd && n == sn,
                        (Err(e), Err(de)) => e matches PgError::DecodeError(m) && m@ == decode_error_text(de),
                        _ => false,
                    }
                },
            },
    {
        let column_index = match &target_column {
            ColumnSearchArg::ColumnIndex(idx) => {
                if *idx >= schema.num_columns() {
                    return Err(PgError::ColumnNotFound { column: index_label(*idx) });
                }
                *idx
            },
            ColumnSearchArg::ColumnName(name) => match schema.position_of(name.as_str()) {
                Some(i) => {
                    proof {
                        lemma_first_named_unique(schema@, name@, i as int);
                    }
                    i
                },
                None => {
                    proof {
                        assert(!exists|i: int| first_named(schema@, name@, i));
                    }
                    return Err(PgError::ColumnNotFound { column: name.clone() });
                },
            },
        };
        let col = &schema.columns()[column_index];

        // Null bitmap: bit = 0 means NULL.
        if self.is_null(column_index) {
            return Err(PgError::NullColumnValue { id: column_index });
        }

        match decode_datum(col.type_id, self.data.as_slice(), column_offset) {
            Ok(res) => Ok(res),
            Err(e) => Err(PgError::DecodeError(e.message())),
        }
    }

    /// The byte size of column `col_index` at `column_offset`, without
    /// decoding its value.
    ///
    /// An index past the schema gives `ColumnNotFound`, a NULL column gives
    /// `NullColumnValue`, and a malformed varlena header gives `DecodeError`.
    pub fn skip_column(&self, col_index: usize, schema: &PgSchema, column_offset: usize) -> (r: Result<usize>)
        requires
            self.data@.len() <= isize::MAX,
        ensures
            if col_index >= schema@.len() {
                r matches Err(e) && e matches PgError::ColumnNotFound { column }
                    && column@ == index_text(col_index as nat)
            } else if bitmap_says_null(self.null_bitmap@, col_index as int) {
                r == Err::<usize, PgError>(PgError::NullColumnValue { id: col_index })
            } else {
                match (r, spec_skip_datum(schema@[col_index as int].type_id.spec_type_len(), self.data@, column_offset as int)) {
                    (Ok(n), Ok(sn)) => n == sn,
                    (Err(e), Err(de)) => e matches PgError::DecodeError(m) && m@ == decode_error_text(de),
                    _ => false,
                }
            },
    {
        let col = match schema.column(col_index) {
            Some(c) => c,
            None => return Err(PgError::ColumnNotFound { column: index_label(col_index) }),
        };

        // Null bitmap: bit = 0 means NULL.
        if self.is_null(col_index) {
            return Err(PgError::NullColumnValue { id: col_index });
        }

        match skip_datum(col.type_id.type_len(), self.data.as_slice(), column_offset) {
            Ok(n) => Ok(n),
            Err(e) => Err(PgError::DecodeError(e.message())),
        }
    }
}

/// The first column with a given name is unique.
pub proof fn lemma_first_named_unique(columns: Seq<PgColumn>, name: Seq<char>, i: int)
    requires
        first_named(columns, name, i),
    ensures
        (choose|j: int| first_named(columns, name, j)) == i,
{
    let j = choose|j: int| first_named(columns, name, j);
    assert(first_named(columns, name, j));
    if j < i {
        assert(columns[j].name@ != name);
    } else if i < j {
        assert(columns[i].name@ != name);
    }
}

/// The `t_infomask2` flag names that are set in `m`, in bit order.
pub open spec fn infomask2_flag_names(m: u16) -> Seq<Seq<char>> {
    let a: Seq<Seq<char>> = if m & HEAP_KEYS_UPDATED != 0 {
        Seq::<Seq<char>>::empty().push("KEYS_UPDATED"@)
    } else {
        Seq::empty()
    };
    let b = if m & HEAP_HOT_UPDATED != 0 { a.push("HOT_UPDATED"@) } else { a };
    if m & HEAP_ONLY_TUPLE != 0 { b.push("ONLY_TUPLE"@) } else { b }
}

/// The `i`-th `t_infomask` flag in bit order (`HasNull` first).
pub open spec fn spec_info_mask_at(i: int) -> InfoMask {
    if i == 0 { InfoMask::HasNull }
    else if i == 1 { InfoMask::HasVarWidth }
    else if i == 2 { InfoMask::HasExternal }
    else if i == 3 { InfoMask::HasOidOld }
    else if i == 4 { InfoMask::XmaxKeyshrLock }
    else if i == 5 { InfoMask::ComboCid }
    else if i == 6 { InfoMask::XmaxExclLock }
    else if i == 7 { InfoMask::XmaxLockOnly }
    else if i == 8 { InfoMask::XminCommitted }
    else if i == 9 { InfoMask::XminInvalid }
    else if i == 10 { InfoMask::XmaxCommitted }
    else if i == 11 { InfoMask::XmaxInvalid }
    else if i == 12 { InfoMask::XmaxIsMulti }
    else if i == 13 { InfoMask::Updated }
    else if i == 14 { InfoMask::MovedOff }
    else { InfoMask::MovedIn }
}

/// The short names of the first `k` `t_infomask` flags (in bit order) that
/// are set in `m`.
pub open spec fn infomask_flag_names(m: u16, k: nat) -> Seq<Seq<char>>
    decreases k,
{
    if k == 0 {
        Seq::empty()
    } else {
        let prev = infomask_flag_names(m, (k - 1) as nat);
        let f = spec_info_mask_at(k - 1);
        if m & f.spec_bit() != 0 { prev.push(f.spec_short_name()) } else { prev }
    }
}

/// The `infomask2` line of a header description.
pub open spec fn infomask2_line(m: u16) -> Seq<char> {
    let names = infomask2_flag_names(m);
    let natts = decimal_text((m & HEAP_NATTS_MASK) as nat);
    if names.len() == 0 {
        "  infomask2: 0x"@ + hex4_text(m) + "  (natts="@ + natts + ")\n"@
    } else {
        "  infomask2: 0x"@ + hex4_text(m) + "  [ "@ + join_names(names) + " ]  (natts="@ + natts
            + ")\n"@
    }
}

/// The `infomask` line of a header description.
pub open spec fn infomask_line(m: u16) -> Seq<char> {
    let names = infomask_flag_names(m, 16);
    if names.len() == 0 {
        "  infomask:  0x"@ + hex4_text(m) + "  (none)\n"@
    } else {
        "  infomask:  0x"@ + hex4_text(m) + "  [ "@ + join_names(names) + " ]\n"@
    }
}

/// The multi-line description of a tuple header.
pub open spec fn header_text(h: HeapTupleHeaderData) -> Seq<char> {
    "HeapTupleHeader {\n  xmin:      "@ + decimal_text(h.t_xmin as nat)
        + "\n  xmax:      "@ + decimal_text(h.t_xmax as nat)
        + "\n  field3:    "@ + decimal_text(h.t_field3 as nat)
        + "  (cid/xvac)\n  ctid:      ("@ + decimal_text(h.t_ctid.ip_blkid.spec_block_number() as nat)
        + ", "@ + decimal_text(h.t_ctid.ip_posid as nat)
        + ")\n  natts:     "@ + decimal_text((h.t_infomask2 & HEAP_NATTS_MASK) as nat)
        + "\n  t_hoff:    "@ + decimal_text(h.t_hoff as nat)
        + "\n"@ + infomask2_line(h.t_infomask2) + infomask_line(h.t_infomask)
        + (if h.t_infomask & InfoMask::XMIN_FROZEN == InfoMask::XMIN_FROZEN {
            "  [xmin is frozen]\n"@
        } else {
            Seq::empty()
        }) + "}"@
}

/// The line describing attribute `i` of a null bitmap.
pub open spec fn attr_line(bitmap: Seq<u8>, i: nat) -> Seq<char> {
    "    attr["@ + right_aligned(decimal_text(i), 3) + "]: "@
        + (if bitmap_says_null(bitmap, i as int) { "NULL    "@ } else { "NOT NULL"@ }) + "\n"@
}

/// The lines describing the first `k` attributes of a null bitmap.
pub open spec fn attr_lines(bitmap: Seq<u8>, k: nat) -> Seq<char>
    decreases k,
{
    if k == 0 {
        Seq::empty()
    } else {
        attr_lines(bitmap, (k - 1) as nat) + attr_line(bitmap, (k - 1) as nat)
    }
}

/// The description of a tuple: its header, then its null bitmap.
pub open spec fn tuple_text(h: HeapTupleHeaderData, bitmap: Seq<u8>) -> Seq<char> {
    let natts = (h.t_infomask2 & HEAP_NATTS_MASK) as nat;
    header_text(h) + if h.t_infomask & 0x0001u16 == 0x0001u16 {
        "\n  t_bits ("@ + decimal_text(natts) + " attrs):\n"@ + attr_lines(bitmap, natts)
    } else {
        "\n  t_bits: (no null bitmap \u{2014} all "@ + decimal_text(natts) + " attrs NOT NULL)"@
    }
}

/// The `i`-th `t_infomask` flag in bit order.
fn info_mask_at(i: usize) -> (r: InfoMask)
    requires
        i < 16,
    ensures
        r == spec_info_mask_at(i as int),
{
    match i {
        0 => InfoMask::HasNull,
        1 => InfoMask::HasVarWidth,
        2 => InfoMask::HasExternal,
        3 => InfoMask::HasOidOld,
        4 => InfoMask::XmaxKeyshrLock,
        5 => InfoMask::ComboCid,
        6 => InfoMask::XmaxExclLock,
        7 => InfoMask::XmaxLockOnly,
        8 => InfoMask::XminCommitted,
        9 => InfoMask::XminInvalid,
        10 => InfoMask::XmaxCommitted,
        11 => InfoMask::XmaxInvalid,
        12 => InfoMask::XmaxIsMulti,
        13 => InfoMask::Updated,
        14 => InfoMask::MovedOff,
        _ => InfoMask::MovedIn,
    }
}

/// Appends the `infomask2` line of a header description.
fn push_infomask2_line(s: &mut String, m: u16)
    ensures
        final(s)@ == old(s)@ + infomask2_line(m),
{
    let mut joined = String::new();
    let ghost mut names: Seq<Seq<char>> = Seq::empty();
    let mut any = false;
    if m & HEAP_KEYS_UPDATED != 0 {
        push_joined(&mut joined, Ghost(names), !any, "KEYS_UPDATED");
        proof { names = names.push("KEYS_UPDATED"@); }
        any = true;
    }
    if m & HEAP_HOT_UPDATED != 0 {
        push_joined(&mut joined, Ghost(names), !any, "HOT_UPDATED");
        proof { names = names.push("HOT_UPDATED"@); }
        any = true;
    }
    if m & HEAP_ONLY_TUPLE != 0 {
        push_joined(&mut joined, Ghost(names), !any, "ONLY_TUPLE");
        proof { names = names.push("ONLY_TUPLE"@); }
        any = true;
    }
    assert(names == infomask2_flag_names(m));
    let ghost start = s@;
    s.append("  infomask2: 0x");
    push_hex4(s, m);
    if any {
        s.append("  [ ");
        s.append(joined.as_str());
        s.append(" ]  (natts=");
    } else {
        s.append("  (natts=");
    }
    push_decimal(s, (m & HEAP_NATTS_MASK) as u64);
    s.append(")\n");
    assert(s@ =~= start + infomask2_line(m));
}

/// Appends the `infomask` line of a header description.
fn push_infomask_line(s: &mut String, m: u16)
    ensures
        final(s)@ == old(s)@ + infomask_line(m),
{
    let mut joined = String::new();
    let ghost mut names: Seq<Seq<char>> = Seq::empty();
    let mut any = false;
    let mut i: usize = 0;
    while i < 16
        invariant
            i <= 16,
            names == infomask_flag_names(m, i as nat),
            joined@ == join_names(names),
            any == (names.len() > 0),
        decreases 16 - i,
    {
        let f = info_mask_at(i);
        if m & u16::from(f) != 0 {
            let name = f.short_name();
            push_joined(&mut joined, Ghost(names), !any, name);
            proof { names = names.push(name@); }
            any = true;
        }
        i = i + 1;
    }
    let ghost start = s@;
    s.append("  infomask:  0x");
    push_hex4(s, m);
    if any {
        s.append("  [ ");
        s.append(joined.as_str());
        s.append(" ]\n");
    } else {
        s.append("  (none)\n");
    }
    assert(s@ =~= start + infomask_line(m));
}

impl HeapTupleHeaderData {
    /// The multi-line human-readable description of the header: the
    /// transaction ids, ctid, attribute count, `t_hoff`, the flags set in
    /// both infomasks, and a note when xmin is frozen.
    pub fn to_string(&self) -> (r: String)
        ensures
            r@ == header_text(*self),
    {
        let mut s = String::new();
        s.append("HeapTupleHeader {\n  xmin:      ");
        push_decimal(&mut s, self.t_xmin as u64);
        s.append("\n  xmax:      ");
        push_decimal(&mut s, self.t_xmax as u64);
        s.append("\n  field3:    ");
        push_decimal(&mut s, self.t_field3 as u64);
        s.append("  (cid/xvac)\n  ctid:      (");
        push_decimal(&mut s, self.t_ctid.ip_blkid.block_number() as u64);
        s.append(", ");
        push_decimal(&mut s, self.t_ctid.ip_posid as u64);
        s.append(")\n  natts:     ");
        push_decimal(&mut s, (self.t_infomask2 & HEAP_NATTS_MASK) as u64);
        s.append("\n  t_hoff:    ");
        push_decimal(&mut s, self.t_hoff as u64);
        s.append("\n");
        push_infomask2_line(&mut s, self.t_infomask2);
        push_infomask_line(&mut s, self.t_infomask);
        if self.has_flag(InfoMask::XMIN_FROZEN) {
            s.append("  [xmin is frozen]\n");
        }
        s.append("}");
        assert(s@ =~= header_text(*self));
        s
    }
}

impl HeapTupleData {
    /// The description of the tuple: the header's description, then one line
    /// per attribute telling whether the null bitmap marks it NULL, or a
    /// note that the tuple has no null bitmap.
    pub fn to_string(&self) -> (r: String)
        ensures
            r@ == tuple_text(self.header, self.null_bitmap@),
    {
        let mut s = self.header.to_string();
        let natts = (self.header.t_infomask2 & HEAP_NATTS_MASK) as usize;
        let ghost bitmap = self.null_bitmap@;
        let ghost start = s@;
        if self.header.has_flag(0x0001) {
            s.append("\n  t_bits (");
            push_decimal(&mut s, natts as u64);
            s.append(" attrs):\n");
            let ghost mid = s@;
            let mut i: usize = 0;
            while i < natts
                invariant
                    i <= natts,
                    bitmap == self.null_bitmap@,
                    s@ == mid + attr_lines(bitmap, i as nat),
                decreases natts - i,
            {
                let ghost before = s@;
                s.append("    attr[");
                push_decimal_width3(&mut s, i as u64);
                s.append("]: ");
                let byte_idx = i / 8;
                let is_null = byte_idx < self.null_bitmap.len()
                    && (self.null_bitmap[byte_idx] & (1u8 << ((i % 8) as u8))) == 0;
                if is_null {
                    s.append("NULL    ");
                } else {
                    s.append("NOT NULL");
                }
                s.append("\n");
                assert(is_null == bitmap_says_null(bitmap, i as int));
                assert(s@ =~= before + attr_line(bitmap, i as nat));
                i = i + 1;
            }
            assert(s@ =~= start + ("\n  t_bits ("@ + decimal_text(natts as nat) + " attrs):\n"@
                + attr_lines(bitmap, natts as nat)));
        } else {
            s.append("\n  t_bits: (no null bitmap \u{2014} all ");
            push_decimal(&mut s, natts as u64);
            s.append(" attrs NOT NULL)");
            assert(s@ =~= start + ("\n  t_bits: (no null bitmap \u{2014} all "@ + decimal_text(natts as nat)
                + " attrs NOT NULL)"@));
        }
        s
    }
}

impl InfoMask {
    /// The flag's qualified name, e.g. `"InfoMask::HASNULL"`.
    pub fn to_string(&self) -> (r: String)
        ensures
            r@ == "InfoMask::"@ + self.spec_short_name(),
    {
        let mut s = String::new();
        s.append("InfoMask::");
        s.append(self.short_name());
        s
    }
}

/// Minimal column layout info, mirroring the relevant `pg_attribute` fields.
#[derive(Debug, Clone, Copy)]
pub struct PgAttInfo {
    /// -1 = varlena, -2 = cstring, > 0 = fixed width
    pub attlen: i16,
    pub attalign: PgAlign,
}

/// `offset` rounded up to a multiple of `align` (a power of two), with the
/// bit trick `(offset + align - 1) & !(align - 1)`: for a power of two, the
/// least multiple of `align` that is at least `offset`.
pub fn align_to(offset: usize, align: usize) -> (r: usize)
    requires
        align >= 1,
        offset + align - 1 <= usize::MAX,
    ensures
        r == (offset + align - 1) as usize & !((align - 1) as usize),
        align & (align - 1) as usize == 0 ==> r & (align - 1) as usize == 0 && offset <= r < offset + align,
{
    proof {
        lemma_align_to_rounds_up(offset, align);
    }
    (offset + (align - 1)) & !(align - 1)
}

/// For a power-of-two alignment, `align_to` rounds up: the result is a
/// multiple of `align` (its bits below `align` are clear), at least
/// `offset`, and less than `offset + align`.
pub proof fn lemma_align_to_rounds_up(offset: usize, align: usize)
    requires
        align >= 1,
        offset + align - 1 <= usize::MAX,
    ensures
        align & (align - 1) as usize == 0 ==> {
            let r = (offset + align - 1) as usize & !((align - 1) as usize);
            &&& r & (align - 1) as usize == 0
            &&& offset <= r
            &&& r < offset + align
        },
{
    let x = offset;
    let a = align;
    let s = (x + a - 1) as usize;
    assert(s == x + a - 1);
    if a & (a - 1) as usize == 0 {
        assert({
            let r = s & !((a - 1) as usize);
            &&& r & (a - 1) as usize == 0
            &&& x <= r
            &&& r < x + a
        }) by (bit_vector)
            requires
                a >= 1,
                a & (a - 1) as usize == 0,
                s == x + a - 1,
        ;
    }
}

/// `x` rounded up to a multiple of `a`.
pub open spec fn align_up(x: int, a: int) -> int {
    ((x + a - 1) / a) * a
}

/// The offset at which a non-NULL column of type `t` starts when the
/// previous column ended at `offset` (PostgreSQL's `att_align_pointer`):
/// fixed-width values are always aligned to the type's alignment; a varlena
/// value is aligned only when the byte at `offset` is a pad byte (0, or past
/// the end of the data), since a non-zero byte there starts an unaligned
/// 1-byte header.
pub open spec fn spec_att_align(t: PgTypeId, data: Seq<u8>, offset: int) -> int {
    let a = t.spec_align() as int;
    if a > 1 && (!(t.spec_type_len() is Varlena) || offset >= data.len() || data[offset] == 0) {
        align_up(offset, a)
    } else {
        offset
    }
}

/// Apply `att_align_pointer` to `offset` for a column of type `t`.
pub fn att_align(t: PgTypeId, data: &[u8], offset: usize) -> (r: usize)
    requires
        offset + 8 <= usize::MAX,
    ensures
        r == spec_att_align(t, data@, offset as int),
        offset <= r <= offset + 7,
{
    let align = t.align();
    if align > 1 {
        let pad = match t.type_len() {
            PgTypeLen::Varlena => offset >= data.len() || data[offset] == 0,
            _ => true,
        };
        if pad {
            let s = offset + align - 1;
            let r = s & !(align - 1);
            proof {
                if align == 2 {
                    assert(s & !1usize == (s / 2) * 2 && s & !1usize <= s && s - (s & !1usize) < 2) by (bit_vector);
                } else if align == 4 {
                    assert(s & !3usize == (s / 4) * 4 && s & !3usize <= s && s - (s & !3usize) < 4) by (bit_vector);
                } else {
                    assert(s & !7usize == (s / 8) * 8 && s & !7usize <= s && s - (s & !7usize) < 8) by (bit_vector);
                }
            }
            return r;
        }
    }
    offset
}

/// The inputs on which decoding columns `i..` of `cols` from a tuple does
/// not panic: each non-NULL column reached is decodable at its aligned
/// offset (see `decode_datum_ok`).
pub open spec fn spec_columns_ok(bitmap: Seq<u8>, data: Seq<u8>, cols: Seq<PgColumn>, i: int, offset: int) -> bool
    decreases cols.len() - i,
{
    if i < 0 || i >= cols.len() {
        true
    } else if bitmap_says_null(bitmap, i) {
        spec_columns_ok(bitmap, data, cols, i + 1, offset)
    } else {
        let t = cols[i].type_id;
        let off = spec_att_align(t, data, offset);
        &&& decode_datum_ok(t, data, off)
        &&& match spec_decode_datum(t, data, off) {
            Ok((_, n)) => spec_columns_ok(bitmap, data, cols, i + 1, off + n),
            Err(_) => true,
        }
    }
}

/// The values of columns `i..` of `cols` decoded from a tuple whose null
/// bitmap is `bitmap` and attribute data is `data`, the first of them
/// starting at `offset`: NULL columns take no space and decode to `Null`;
/// every other column is aligned, decoded, and the next one starts where it
/// ends. The first decoding error ends the walk.
pub open spec fn spec_decode_columns(bitmap: Seq<u8>, data: Seq<u8>, cols: Seq<PgColumn>, i: int, offset: int) -> Result<Seq<PgDatumView>, DecodeErrorView>
    decreases cols.len() - i,
{
    if i < 0 || i >= cols.len() {
        Ok(Seq::empty())
    } else if bitmap_says_null(bitmap, i) {
        match spec_decode_columns(bitmap, data, cols, i + 1, offset) {
            Ok(rest) => Ok(seq![PgDatumView::Null] + rest),
            Err(e) => Err(e),
        }
    } else {
        let t = cols[i].type_id;
        let off = spec_att_align(t, data, offset);
        match spec_decode_datum(t, data, off) {
            Err(e) => Err(e),
            Ok((d, n)) => match spec_decode_columns(bitmap, data, cols, i + 1, off + n) {
                Ok(rest) => Ok(seq![d] + rest),
                Err(e) => Err(e),
            },
        }
    }
}

/// Rounding up to a positive alignment adds less than the alignment.
proof fn lemma_align_up_bound(x: int, a: int)
    requires
        x >= 0,
        a > 0,
    ensures
        0 <= align_up(x, a) <= x + a - 1,
{
    assert(((x + a - 1) / a) * a <= x + a - 1) by (nonlinear_arith)
        requires
            x >= 0,
            a > 0,
    ;
    assert(((x + a - 1) / a) * a >= 0) by (nonlinear_arith)
        requires
            x >= 0,
            a > 0,
    ;
}

/// Decoding the columns of a tuple is defined whenever the attribute data
/// fits in `isize`: every column starts and ends within the data, so no
/// offset comes near `usize::MAX`.
pub proof fn lemma_columns_ok_within(bitmap: Seq<u8>, data: Seq<u8>, cols: Seq<PgColumn>, i: int, offset: int)
    requires
        0 <= i,
        0 <= offset <= data.len(),
        data.len() <= isize::MAX,
    ensures
        spec_columns_ok(bitmap, data, cols, i, offset),
    decreases cols.len() - i,
{
    if i < cols.len() {
        if bitmap_says_null(bitmap, i) {
            lemma_columns_ok_within(bitmap, data, cols, i + 1, offset);
        } else {
            let t = cols[i].type_id;
            lemma_align_up_bound(offset, t.spec_align() as int);
            let off = spec_att_align(t, data, offset);
            assert(0 <= off <= offset + 7);
            crate::table::lemma_decode_within(t, data, off);
            if let Ok((d, k)) = spec_decode_datum(t, data, off) {
                lemma_columns_ok_within(bitmap, data, cols, i + 1, off + k);
            }
        }
    }
}

/// A decoding of columns `i..` that succeeds holds one value per column.
proof fn lemma_decode_columns_len(bitmap: Seq<u8>, data: Seq<u8>, cols: Seq<PgColumn>, i: int, offset: int)
    requires
        0 <= i <= cols.len(),
    ensures
        spec_decode_columns(bitmap, data, cols, i, offset) matches Ok(vals) ==> vals.len() == cols.len() - i,
    decreases cols.len() - i,
{
    if i < cols.len() {
        lemma_decode_columns_len(bitmap, data, cols, i + 1, offset);
        let t = cols[i].type_id;
        let off = spec_att_align(t, data, offset);
        if let Ok((d, k)) = spec_decode_datum(t, data, off) {
            lemma_decode_columns_len(bitmap, data, cols, i + 1, off + k);
        }
    }
}

/// Decoding the leading `n` columns of a schema gives the first `n` values
/// of decoding all of them, and is defined wherever the full decoding is.
pub proof fn lemma_decode_columns_prefix(bitmap: Seq<u8>, data: Seq<u8>, cols: Seq<PgColumn>, n: int, i: int, offset: int)
    requires
        0 <= i <= n <= cols.len(),
    ensures
        spec_columns_ok(bitmap, data, cols, i, offset) ==> spec_columns_ok(bitmap, data, cols.subrange(0, n), i, offset),
        spec_decode_columns(bitmap, data, cols, i, offset) matches Ok(vals) ==> vals.len() == cols.len() - i,
        spec_decode_columns(bitmap, data, cols, i, offset) matches Ok(vals) ==> spec_decode_columns(
            bitmap,
            data,
            cols.subrange(0, n),
            i,
            offset,
        ) == Ok::<Seq<PgDatumView>, DecodeErrorView>(vals.subrange(0, n - i)),
    decreases n - i,
{
    let pre = cols.subrange(0, n);
    if i == n {
        lemma_decode_columns_len(bitmap, data, cols, i, offset);
        if let Ok(vals) = spec_decode_columns(bitmap, data, cols, i, offset) {
            assert(vals.subrange(0, 0) =~= Seq::<PgDatumView>::empty());
        }
    } else {
        assert(pre[i] == cols[i]);
        if bitmap_says_null(bitmap, i) {
            lemma_decode_columns_prefix(bitmap, data, cols, n, i + 1, offset);
            if let Ok(rest) = spec_decode_columns(bitmap, data, cols, i + 1, offset) {
                assert((seq![PgDatumView::Null] + rest).subrange(0, n - i) =~= seq![PgDatumView::Null] + rest.subrange(
                    0,
                    n - i - 1,
                ));
            }
        } else {
            let t = cols[i].type_id;
            let off = spec_att_align(t, data, offset);
            if let Ok((d, k)) = spec_decode_datum(t, data, off) {
                lemma_decode_columns_prefix(bitmap, data, cols, n, i + 1, off + k);
                if let Ok(rest) = spec_decode_columns(bitmap, data, cols, i + 1, off + k) {
                    assert((seq![d] + rest).subrange(0, n - i) =~= seq![d] + rest.subrange(0, n - i - 1));
                }
            }
        }
    }
}

/// The offset at which column `j` (for `i <= j <= cols.len()`) starts,
/// before alignment, when columns from `i` on are walked starting at
/// `offset`; `None` if a decoding error comes first.
pub open spec fn spec_column_start(bitmap: Seq<u8>, data: Seq<u8>, cols: Seq<PgColumn>, i: int, offset: int, j: int) -> Option<int>
    decreases cols.len() - i,
{
    if i >= j || i < 0 || i >= cols.len() {
        Some(offset)
    } else if bitmap_says_null(bitmap, i) {
        spec_column_start(bitmap, data, cols, i + 1, offset, j)
    } else {
        let t = cols[i].type_id;
        let off = spec_att_align(t, data, offset);
        match spec_decode_datum(t, data, off) {
            Err(_) => None,
            Ok((_, n)) => spec_column_start(bitmap, data, cols, i + 1, off + n, j),
        }
    }
}

} // verus!
