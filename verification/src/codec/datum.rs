//! Decoded column values and the decoding of raw on-disk column bytes.

use vstd::prelude::*;
use vstd::slice::{slice_subrange, slice_to_vec};
use vstd::utf8::{decode_utf8, valid_utf8};

use crate::codec::le::{le16, le32, le64, read_i16, read_i32, read_i64, read_u16, read_u32, read_u64};
use crate::codec::text::utf8_to_string;
use crate::codec::type_id::{PgTypeId, PgTypeLen};
use crate::types::arrow::{ArrowIntervalUnit, ArrowTimeUnit, ArrowTimeZone, ArrowType};
use crate::table::arrow_rows::le_bytes;

verus! {

/// A decoded PostgreSQL datum: the native representation of one column
/// value read from the on-disk tuple format.
///
/// Floating-point values (`float4`, `float8` and the geometric types) are
/// held as their IEEE-754 bit patterns, exactly as they are stored on disk.
#[derive(Debug, PartialEq)]
pub enum PgDatum {
    Bool(bool),
    Int2(i16),
    Int4(i32),
    Int8(i64),
    /// IEEE-754 single-precision bits.
    Float4(u32),
    /// IEEE-754 double-precision bits.
    Float8(u64),
    Oid(u32),
    Date(i32),
    Time(i64),
    Timestamp(i64),
    TimestampTz(i64),
    Money(i64),
    Xid(u32),
    Cid(u32),
    Xid8(u64),
    Char(u8),
    Name([u8; 64]),
    Tid { block: u32, offset: u16 },
    MacAddr([u8; 6]),
    MacAddr8([u8; 8]),
    Uuid([u8; 16]),
    Interval { microseconds: i64, days: i32, months: i32 },
    TimeTz { time_usec: i64, tz_offset: i32 },
    /// Coordinates as IEEE-754 double-precision bits.
    Point { x: u64, y: u64 },
    /// Coefficients as IEEE-754 double-precision bits.
    Line { a: u64, b: u64, c: u64 },
    /// End points as IEEE-754 double-precision bits.
    Lseg { x1: u64, y1: u64, x2: u64, y2: u64 },
    /// Corners as IEEE-754 double-precision bits.
    Box { x1: u64, y1: u64, x2: u64, y2: u64 },
    /// Centre and radius as IEEE-754 double-precision bits.
    Circle { x: u64, y: u64, radius: u64 },
    Text(String),
    Varchar(String),
    BpChar(String),
    Bytea(Vec<u8>),
    Json(String),
    Jsonb(Vec<u8>),
    JsonPath(Vec<u8>),
    Xml(String),
    Numeric(Vec<u8>),
    Inet(Vec<u8>),
    Cidr(Vec<u8>),
    Bit(Vec<u8>),
    VarBit(Vec<u8>),
    Path(Vec<u8>),
    Polygon(Vec<u8>),
    /// Fallback for types not decoded further: the raw bytes.
    RawBytes { oid: u32, data: Vec<u8> },
    /// SQL NULL
    Null,
}

impl Clone for PgDatum {
    fn clone(&self) -> (r: Self)
        ensures
            r@ == self@,
    {
        match self {
            PgDatum::Bool(v) => PgDatum::Bool(*v),
            PgDatum::Int2(v) => PgDatum::Int2(*v),
            PgDatum::Int4(v) => PgDatum::Int4(*v),
            PgDatum::Int8(v) => PgDatum::Int8(*v),
            PgDatum::Float4(v) => PgDatum::Float4(*v),
            PgDatum::Float8(v) => PgDatum::Float8(*v),
            PgDatum::Oid(v) => PgDatum::Oid(*v),
            PgDatum::Date(v) => PgDatum::Date(*v),
            PgDatum::Time(v) => PgDatum::Time(*v),
            PgDatum::Timestamp(v) => PgDatum::Timestamp(*v),
            PgDatum::TimestampTz(v) => PgDatum::TimestampTz(*v),
            PgDatum::Money(v) => PgDatum::Money(*v),
            PgDatum::Xid(v) => PgDatum::Xid(*v),
            PgDatum::Cid(v) => PgDatum::Cid(*v),
            PgDatum::Xid8(v) => PgDatum::Xid8(*v),
            PgDatum::Char(v) => PgDatum::Char(*v),
            PgDatum::Name(v) => PgDatum::Name(*v),
            PgDatum::MacAddr(v) => PgDatum::MacAddr(*v),
            PgDatum::MacAddr8(v) => PgDatum::MacAddr8(*v),
            PgDatum::Uuid(v) => PgDatum::Uuid(*v),
            PgDatum::Tid { block, offset } => PgDatum::Tid { block: *block, offset: *offset },
            PgDatum::Interval { microseconds, days, months } => PgDatum::Interval {
                microseconds: *microseconds,
                days: *days,
                months: *months,
            },
            PgDatum::TimeTz { time_usec, tz_offset } => PgDatum::TimeTz { time_usec: *time_usec, tz_offset: *tz_offset },
            PgDatum::Point { x, y } => PgDatum::Point { x: *x, y: *y },
            PgDatum::Line { a, b, c } => PgDatum::Line { a: *a, b: *b, c: *c },
            PgDatum::Lseg { x1, y1, x2, y2 } => PgDatum::Lseg { x1: *x1, y1: *y1, x2: *x2, y2: *y2 },
            PgDatum::Box { x1, y1, x2, y2 } => PgDatum::Box { x1: *x1, y1: *y1, x2: *x2, y2: *y2 },
            PgDatum::Circle { x, y, radius } => PgDatum::Circle { x: *x, y: *y, radius: *radius },
            PgDatum::Text(v) => PgDatum::Text(v.clone()),
            PgDatum::Varchar(v) => PgDatum::Varchar(v.clone()),
            PgDatum::BpChar(v) => PgDatum::BpChar(v.clone()),
            PgDatum::Bytea(v) => PgDatum::Bytea(v.clone()),
            PgDatum::Json(v) => PgDatum::Json(v.clone()),
            PgDatum::Jsonb(v) => PgDatum::Jsonb(v.clone()),
            PgDatum::JsonPath(v) => PgDatum::JsonPath(v.clone()),
            PgDatum::Xml(v) => PgDatum::Xml(v.clone()),
            PgDatum::Numeric(v) => PgDatum::Numeric(v.clone()),
            PgDatum::Inet(v) => PgDatum::Inet(v.clone()),
            PgDatum::Cidr(v) => PgDatum::Cidr(v.clone()),
            PgDatum::Bit(v) => PgDatum::Bit(v.clone()),
            PgDatum::VarBit(v) => PgDatum::VarBit(v.clone()),
            PgDatum::Path(v) => PgDatum::Path(v.clone()),
            PgDatum::Polygon(v) => PgDatum::Polygon(v.clone()),
            PgDatum::RawBytes { oid, data } => PgDatum::RawBytes { oid: *oid, data: data.clone() },
            PgDatum::Null => PgDatum::Null,
        }
    }
}

/// The mathematical value of a [`PgDatum`]: text as characters, byte
/// strings as byte sequences.
pub ghost enum PgDatumView {
    Bool(bool),
    Int2(i16),
    Int4(i32),
    Int8(i64),
    Float4(u32),
    Float8(u64),
    Oid(u32),
    Date(i32),
    Time(i64),
    Timestamp(i64),
    TimestampTz(i64),
    Money(i64),
    Xid(u32),
    Cid(u32),
    Xid8(u64),
    Char(u8),
    Name(Seq<u8>),
    Tid { block: u32, offset: u16 },
    MacAddr(Seq<u8>),
    MacAddr8(Seq<u8>),
    Uuid(Seq<u8>),
    Interval { microseconds: i64, days: i32, months: i32 },
    TimeTz { time_usec: i64, tz_offset: i32 },
    Point { x: u64, y: u64 },
    Line { a: u64, b: u64, c: u64 },
    Lseg { x1: u64, y1: u64, x2: u64, y2: u64 },
    Box { x1: u64, y1: u64, x2: u64, y2: u64 },
    Circle { x: u64, y: u64, radius: u64 },
    Text(Seq<char>),
    Varchar(Seq<char>),
    BpChar(Seq<char>),
    Bytea(Seq<u8>),
    Json(Seq<char>),
    Jsonb(Seq<u8>),
    JsonPath(Seq<u8>),
    Xml(Seq<char>),
    Numeric(Seq<u8>),
    Inet(Seq<u8>),
    Cidr(Seq<u8>),
    Bit(Seq<u8>),
    VarBit(Seq<u8>),
    Path(Seq<u8>),
    Polygon(Seq<u8>),
    RawBytes { oid: u32, data: Seq<u8> },
    Null,
}

impl View for PgDatum {
    type V = PgDatumView;

    open spec fn view(&self) -> PgDatumView {
        match self {
            PgDatum::Bool(v) => PgDatumView::Bool(*v),
            PgDatum::Int2(v) => PgDatumView::Int2(*v),
            PgDatum::Int4(v) => PgDatumView::Int4(*v),
            PgDatum::Int8(v) => PgDatumView::Int8(*v),
            PgDatum::Float4(v) => PgDatumView::Float4(*v),
            PgDatum::Float8(v) => PgDatumView::Float8(*v),
            PgDatum::Oid(v) => PgDatumView::Oid(*v),
            PgDatum::Date(v) => PgDatumView::Date(*v),
            PgDatum::Time(v) => PgDatumView::Time(*v),
            PgDatum::Timestamp(v) => PgDatumView::Timestamp(*v),
            PgDatum::TimestampTz(v) => PgDatumView::TimestampTz(*v),
            PgDatum::Money(v) => PgDatumView::Money(*v),
            PgDatum::Xid(v) => PgDatumView::Xid(*v),
            PgDatum::Cid(v) => PgDatumView::Cid(*v),
            PgDatum::Xid8(v) => PgDatumView::Xid8(*v),
            PgDatum::Char(v) => PgDatumView::Char(*v),
            PgDatum::Name(v) => PgDatumView::Name(v@),
            PgDatum::Tid { block, offset } => PgDatumView::Tid { block: *block, offset: *offset },
            PgDatum::MacAddr(v) => PgDatumView::MacAddr(v@),
            PgDatum::MacAddr8(v) => PgDatumView::MacAddr8(v@),
            PgDatum::Uuid(v) => PgDatumView::Uuid(v@),
            PgDatum::Interval { microseconds, days, months } => PgDatumView::Interval {
                microseconds: *microseconds,
                days: *days,
                months: *months,
            },
            PgDatum::TimeTz { time_usec, tz_offset } => PgDatumView::TimeTz {
                time_usec: *time_usec,
                tz_offset: *tz_offset,
            },
            PgDatum::Point { x, y } => PgDatumView::Point { x: *x, y: *y },
            PgDatum::Line { a, b, c } => PgDatumView::Line { a: *a, b: *b, c: *c },
            PgDatum::Lseg { x1, y1, x2, y2 } => PgDatumView::Lseg {
                x1: *x1,
                y1: *y1,
                x2: *x2,
                y2: *y2,
            },
            PgDatum::Box { x1, y1, x2, y2 } => PgDatumView::Box {
                x1: *x1,
                y1: *y1,
                x2: *x2,
                y2: *y2,
            },
            PgDatum::Circle { x, y, radius } => PgDatumView::Circle {
                x: *x,
                y: *y,
                radius: *radius,
            },
            PgDatum::Text(s) => PgDatumView::Text(s@),
            PgDatum::Varchar(s) => PgDatumView::Varchar(s@),
            PgDatum::BpChar(s) => PgDatumView::BpChar(s@),
            PgDatum::Bytea(b) => PgDatumView::Bytea(b@),
            PgDatum::Json(s) => PgDatumView::Json(s@),
            PgDatum::Jsonb(b) => PgDatumView::Jsonb(b@),
            PgDatum::JsonPath(b) => PgDatumView::JsonPath(b@),
            PgDatum::Xml(s) => PgDatumView::Xml(s@),
            PgDatum::Numeric(b) => PgDatumView::Numeric(b@),
            PgDatum::Inet(b) => PgDatumView::Inet(b@),
            PgDatum::Cidr(b) => PgDatumView::Cidr(b@),
            PgDatum::Bit(b) => PgDatumView::Bit(b@),
            PgDatum::VarBit(b) => PgDatumView::VarBit(b@),
            PgDatum::Path(b) => PgDatumView::Path(b@),
            PgDatum::Polygon(b) => PgDatumView::Polygon(b@),
            PgDatum::RawBytes { oid, data } => PgDatumView::RawBytes { oid: *oid, data: data@ },
            PgDatum::Null => PgDatumView::Null,
        }
    }
}

/// The Arrow data type that a datum of this variant maps to.
pub open spec fn datum_arrow_type(d: PgDatumView) -> ArrowType {
    match d {
        PgDatumView::Bool(_) => ArrowType::Boolean,
        PgDatumView::Int2(_) => ArrowType::Int16,
        PgDatumView::Int4(_) => ArrowType::Int32,
        PgDatumView::Int8(_) | PgDatumView::Money(_) => ArrowType::Int64,
        PgDatumView::Float4(_) => ArrowType::Float32,
        PgDatumView::Float8(_) => ArrowType::Float64,
        PgDatumView::Oid(_) | PgDatumView::Xid(_) | PgDatumView::Cid(_) => ArrowType::UInt32,
        PgDatumView::Xid8(_) => ArrowType::UInt64,
        PgDatumView::Date(_) => ArrowType::Date32,
        PgDatumView::Time(_) | PgDatumView::TimeTz { .. } => ArrowType::Time64(ArrowTimeUnit::Microsecond),
        PgDatumView::Timestamp(_) => ArrowType::Timestamp(ArrowTimeUnit::Microsecond, None),
        PgDatumView::TimestampTz(_) => ArrowType::Timestamp(
            ArrowTimeUnit::Microsecond,
            Some(ArrowTimeZone::Utc),
        ),
        PgDatumView::Interval { .. } => ArrowType::Interval(ArrowIntervalUnit::MonthDayNano),
        PgDatumView::Char(_) => ArrowType::UInt8,
        PgDatumView::MacAddr(_) => ArrowType::FixedSizeBinary(6),
        PgDatumView::MacAddr8(_) => ArrowType::FixedSizeBinary(8),
        PgDatumView::Uuid(_) | PgDatumView::Point { .. } => ArrowType::FixedSizeBinary(16),
        PgDatumView::Line { .. } | PgDatumView::Circle { .. } => ArrowType::FixedSizeBinary(24),
        PgDatumView::Lseg { .. } | PgDatumView::Box { .. } => ArrowType::FixedSizeBinary(32),
        PgDatumView::Name(_) | PgDatumView::Text(_) | PgDatumView::Varchar(_)
        | PgDatumView::BpChar(_) | PgDatumView::Json(_) | PgDatumView::Xml(_) => ArrowType::Utf8,
        PgDatumView::Numeric(_) => ArrowType::Decimal256(38, 0),
        PgDatumView::Null => ArrowType::Null,
        _ => ArrowType::Binary,
    }
}

impl PgDatum {
    /// The Arrow data type that this datum maps to.
    pub fn arrow_type(&self) -> (r: ArrowType)
        ensures
            r == datum_arrow_type(self@),
    {
        match self {
            PgDatum::Bool(_) => ArrowType::Boolean,
            PgDatum::Int2(_) => ArrowType::Int16,
            PgDatum::Int4(_) => ArrowType::Int32,
            PgDatum::Int8(_) | PgDatum::Money(_) => ArrowType::Int64,
            PgDatum::Float4(_) => ArrowType::Float32,
            PgDatum::Float8(_) => ArrowType::Float64,
            PgDatum::Oid(_) | PgDatum::Xid(_) | PgDatum::Cid(_) => ArrowType::UInt32,
            PgDatum::Xid8(_) => ArrowType::UInt64,
            PgDatum::Date(_) => ArrowType::Date32,
            PgDatum::Time(_) | PgDatum::TimeTz { .. } => ArrowType::Time64(ArrowTimeUnit::Microsecond),
            PgDatum::Timestamp(_) => ArrowType::Timestamp(ArrowTimeUnit::Microsecond, None),
            PgDatum::TimestampTz(_) => ArrowType::Timestamp(
                ArrowTimeUnit::Microsecond,
                Some(ArrowTimeZone::Utc),
            ),
            PgDatum::Interval { .. } => ArrowType::Interval(ArrowIntervalUnit::MonthDayNano),
            PgDatum::Char(_) => ArrowType::UInt8,
            PgDatum::MacAddr(_) => ArrowType::FixedSizeBinary(6),
            PgDatum::MacAddr8(_) => ArrowType::FixedSizeBinary(8),
            PgDatum::Uuid(_) | PgDatum::Point { .. } => ArrowType::FixedSizeBinary(16),
            PgDatum::Line { .. } | PgDatum::Circle { .. } => ArrowType::FixedSizeBinary(24),
            PgDatum::Lseg { .. } | PgDatum::Box { .. } => ArrowType::FixedSizeBinary(32),
            PgDatum::Name(_) | PgDatum::Text(_) | PgDatum::Varchar(_) | PgDatum::BpChar(_)
            | PgDatum::Json(_) | PgDatum::Xml(_) => ArrowType::Utf8,
            PgDatum::Numeric(_) => ArrowType::Decimal256(38, 0),
            PgDatum::Null => ArrowType::Null,
            PgDatum::Tid { .. } | PgDatum::Bytea(_) | PgDatum::Jsonb(_) | PgDatum::JsonPath(_)
            | PgDatum::Inet(_) | PgDatum::Cidr(_) | PgDatum::Bit(_) | PgDatum::VarBit(_)
            | PgDatum::Path(_) | PgDatum::Polygon(_) | PgDatum::RawBytes { .. } => ArrowType::Binary,
        }
    }
}

/// Error returned when bytes cannot be decoded into a [`PgDatum`].
#[derive(Debug, Clone, Copy, PartialEq, Eq)]
pub enum DecodeError {
    BufferTooShort { typname: &'static str, expected: usize, actual: usize },
    /// The bytes are not valid UTF-8; `offset` is the length of the longest
    /// valid prefix.
    InvalidUtf8 { typname: &'static str, offset: usize },
    MissingNulTerminator,
    InvalidVarlenaHeader { offset: usize, first_byte: u8 },
}

/// The mathematical value of a [`DecodeError`].
pub ghost enum DecodeErrorView {
    BufferTooShort { typname: Seq<char>, expected: usize, actual: usize },
    InvalidUtf8 { typname: Seq<char>, offset: usize },
    MissingNulTerminator,
    InvalidVarlenaHeader { offset: usize, first_byte: u8 },
}

impl View for DecodeError {
    type V = DecodeErrorView;

    open spec fn view(&self) -> DecodeErrorView {
        match self {
            DecodeError::BufferTooShort { typname, expected, actual } => {
                DecodeErrorView::BufferTooShort {
                    typname: typname@,
                    expected: *expected,
                    actual: *actual,
                }
            },
            DecodeError::InvalidUtf8 { typname, offset } => DecodeErrorView::InvalidUtf8 {
                typname: typname@,
                offset: *offset,
            },
            DecodeError::MissingNulTerminator => DecodeErrorView::MissingNulTerminator,
            DecodeError::InvalidVarlenaHeader { offset, first_byte } => {
                DecodeErrorView::InvalidVarlenaHeader { offset: *offset, first_byte: *first_byte }
            },
        }
    }
}

/// The view of a decoding result.
pub open spec fn result_view<T: View>(r: Result<T, DecodeError>) -> Result<T::V, DecodeErrorView> {
    match r {
        Ok(v) => Ok(v@),
        Err(e) => Err(e@),
    }
}

/// The "buffer too short" error for `typname`.
pub open spec fn too_short(typname: Seq<char>, expected: int, actual: int) -> DecodeErrorView {
    DecodeErrorView::BufferTooShort {
        typname,
        expected: expected as usize,
        actual: actual as usize,
    }
}

/// `i` is the position of the first NUL byte of `s`.
pub open spec fn is_first_nul(s: Seq<u8>, i: int) -> bool {
    &&& 0 <= i < s.len()
    &&& s[i] == 0
    &&& forall|j: int| 0 <= j < i ==> s[j] != 0
}

/// `s` holds a NUL byte.
pub open spec fn has_nul(s: Seq<u8>) -> bool {
    exists|i: int| 0 <= i < s.len() && s[i] == 0
}

/// The position of the first NUL byte of `s` (meaningful when `has_nul(s)`).
pub open spec fn first_nul(s: Seq<u8>) -> int {
    choose|i: int| is_first_nul(s, i)
}

/// The first NUL byte of a sequence is unique, and exists whenever the
/// sequence holds a NUL byte.
pub proof fn lemma_first_nul(s: Seq<u8>, i: int)
    ensures
        is_first_nul(s, i) ==> first_nul(s) == i,
        has_nul(s) ==> is_first_nul(s, first_nul(s)),
    decreases s.len(),
{
    if has_nul(s) {
        let k = choose|k: int| 0 <= k < s.len() && s[k] == 0;
        lemma_first_nul_exists(s, k);
    }
    if is_first_nul(s, i) {
        let f = first_nul(s);
        assert(is_first_nul(s, f));
        if f < i {
            assert(s[f] != 0);
        } else if i < f {
            assert(s[i] != 0);
        }
    }
}

proof fn lemma_first_nul_exists(s: Seq<u8>, k: int)
    requires
        0 <= k < s.len(),
        s[k] == 0,
    ensures
        exists|i: int| is_first_nul(s, i),
    decreases k,
{
    if forall|j: int| 0 <= j < k ==> s[j] != 0 {
        assert(is_first_nul(s, k));
    } else {
        let j = choose|j: int| 0 <= j < k && s[j] == 0;
        lemma_first_nul_exists(s, j);
    }
}

/// What `decode_fixed` makes of `b` for the fixed-width type `t`.
pub open spec fn spec_decode_fixed(t: PgTypeId, b: Seq<u8>) -> Result<PgDatumView, DecodeErrorView> {
    let n = b.len() as int;
    match t {
        PgTypeId::Bool => if n < 1 { Err(too_short("bool"@, 1, n)) } else { Ok(PgDatumView::Bool(b[0] != 0)) },
        PgTypeId::Char => if n < 1 { Err(too_short("char"@, 1, n)) } else { Ok(PgDatumView::Char(b[0])) },
        PgTypeId::Int2 => if n < 2 { Err(too_short("int2"@, 2, n)) } else { Ok(PgDatumView::Int2(le16(b, 0) as i16)) },
        PgTypeId::Int4 => if n < 4 { Err(too_short("int4"@, 4, n)) } else { Ok(PgDatumView::Int4(le32(b, 0) as i32)) },
        PgTypeId::Oid => if n < 4 { Err(too_short("oid"@, 4, n)) } else { Ok(PgDatumView::Oid(le32(b, 0) as u32)) },
        PgTypeId::Xid => if n < 4 { Err(too_short("xid"@, 4, n)) } else { Ok(PgDatumView::Xid(le32(b, 0) as u32)) },
        PgTypeId::Cid => if n < 4 { Err(too_short("cid"@, 4, n)) } else { Ok(PgDatumView::Cid(le32(b, 0) as u32)) },
        PgTypeId::Float4 => if n < 4 { Err(too_short("float4"@, 4, n)) } else { Ok(PgDatumView::Float4(le32(b, 0) as u32)) },
        PgTypeId::Date => if n < 4 { Err(too_short("date"@, 4, n)) } else { Ok(PgDatumView::Date(le32(b, 0) as i32)) },
        PgTypeId::Int8 => if n < 8 { Err(too_short("int8"@, 8, n)) } else { Ok(PgDatumView::Int8(le64(b, 0) as i64)) },
        PgTypeId::Float8 => if n < 8 { Err(too_short("float8"@, 8, n)) } else { Ok(PgDatumView::Float8(le64(b, 0) as u64)) },
        PgTypeId::Money => if n < 8 { Err(too_short("money"@, 8, n)) } else { Ok(PgDatumView::Money(le64(b, 0) as i64)) },
        PgTypeId::Time => if n < 8 { Err(too_short("time"@, 8, n)) } else { Ok(PgDatumView::Time(le64(b, 0) as i64)) },
        PgTypeId::Timestamp => if n < 8 { Err(too_short("timestamp"@, 8, n)) } else { Ok(PgDatumView::Timestamp(le64(b, 0) as i64)) },
        PgTypeId::Timestamptz => if n < 8 { Err(too_short("timestamptz"@, 8, n)) } else { Ok(PgDatumView::TimestampTz(le64(b, 0) as i64)) },
        PgTypeId::Xid8 => if n < 8 { Err(too_short("xid8"@, 8, n)) } else { Ok(PgDatumView::Xid8(le64(b, 0) as u64)) },
        PgTypeId::Macaddr8 => if n < 8 { Err(too_short("macaddr8"@, 8, n)) } else { Ok(PgDatumView::MacAddr8(b.subrange(0, 8))) },
        PgTypeId::Tid => if n < 6 { Err(too_short("tid"@, 6, n)) } else {
            Ok(PgDatumView::Tid { block: le32(b, 0) as u32, offset: le16(b, 4) as u16 })
        },
        PgTypeId::Macaddr => if n < 6 { Err(too_short("macaddr"@, 6, n)) } else { Ok(PgDatumView::MacAddr(b.subrange(0, 6))) },
        PgTypeId::Timetz => if n < 12 { Err(too_short("timetz"@, 12, n)) } else {
            Ok(PgDatumView::TimeTz { time_usec: le64(b, 0) as i64, tz_offset: le32(b, 8) as i32 })
        },
        PgTypeId::Interval => if n < 16 { Err(too_short("interval"@, 16, n)) } else {
            Ok(PgDatumView::Interval {
                microseconds: le64(b, 0) as i64,
                days: le32(b, 8) as i32,
                months: le32(b, 12) as i32,
            })
        },
        PgTypeId::Point => if n < 16 { Err(too_short("point"@, 16, n)) } else {
            Ok(PgDatumView::Point { x: le64(b, 0) as u64, y: le64(b, 8) as u64 })
        },
        PgTypeId::Uuid => if n < 16 { Err(too_short("uuid"@, 16, n)) } else { Ok(PgDatumView::Uuid(b.subrange(0, 16))) },
        PgTypeId::Aclitem => if n < 16 { Err(too_short("aclitem"@, 16, n)) } else {
            Ok(PgDatumView::RawBytes { oid: 1033, data: b.subrange(0, 16) })
        },
        PgTypeId::Line => if n < 24 { Err(too_short("line"@, 24, n)) } else {
            Ok(PgDatumView::Line { a: le64(b, 0) as u64, b: le64(b, 8) as u64, c: le64(b, 16) as u64 })
        },
        PgTypeId::Circle => if n < 24 { Err(too_short("circle"@, 24, n)) } else {
            Ok(PgDatumView::Circle { x: le64(b, 0) as u64, y: le64(b, 8) as u64, radius: le64(b, 16) as u64 })
        },
        PgTypeId::Lseg => if n < 32 { Err(too_short("lseg"@, 32, n)) } else {
            Ok(PgDatumView::Lseg {
                x1: le64(b, 0) as u64,
                y1: le64(b, 8) as u64,
                x2: le64(b, 16) as u64,
                y2: le64(b, 24) as u64,
            })
        },
        PgTypeId::Box => if n < 32 { Err(too_short("box"@, 32, n)) } else {
            Ok(PgDatumView::Box {
                x1: le64(b, 0) as u64,
                y1: le64(b, 8) as u64,
                x2: le64(b, 16) as u64,
                y2: le64(b, 24) as u64,
            })
        },
        PgTypeId::Name => if n < 64 { Err(too_short("name"@, 64, n)) } else {
            let field = b.subrange(0, 64);
            if !has_nul(field) {
                Err(DecodeErrorView::MissingNulTerminator)
            } else {
                let text = field.subrange(0, first_nul(field));
                if valid_utf8(text) {
                    Ok(PgDatumView::Text(decode_utf8(text)))
                } else {
                    Err(DecodeErrorView::InvalidUtf8 { typname: "name"@, offset: valid_utf8_prefix_len(text) as usize })
                }
            }
        },
        _ => Ok(PgDatumView::RawBytes { oid: t.spec_oid(), data: b }),
    }
}

/// Fails with "buffer too short" when `actual < expected`.
fn check_len(typname: &'static str, expected: usize, actual: usize) -> (r: Result<(), DecodeError>)
    ensures
        r is Ok <==> actual >= expected,
        r matches Err(e) ==> e == (DecodeError::BufferTooShort { typname, expected, actual }),
{
    if actual < expected {
        Err(DecodeError::BufferTooShort { typname, expected, actual })
    } else {
        Ok(())
    }
}

/// The first `N` bytes of `bytes` as an array.
fn copy_array<const N: usize>(bytes: &[u8]) -> (r: [u8; N])
    requires
        N <= bytes@.len(),
    ensures
        r@ == bytes@.subrange(0, N as int),
{
    let mut a: [u8; N] = vstd::array::array_fill_for_copy_types(0u8);
    let mut i: usize = 0;
    while i < N
        invariant
            i <= N <= bytes@.len(),
            a@.len() == N,
            forall|j: int| 0 <= j < i ==> a@[j] == bytes@[j],
        decreases N - i,
    {
        a[i] = bytes[i];
        i = i + 1;
    }
    assert(a@ =~= bytes@.subrange(0, N as int));
    a
}

/// The position of the first NUL byte of `s`, if it has one.
pub fn find_nul(s: &[u8]) -> (r: Option<usize>)
    ensures
        r matches Some(i) ==> is_first_nul(s@, i as int),
        r is None <==> !has_nul(s@),
{
    let mut i: usize = 0;
    while i < s.len()
        invariant
            i <= s@.len(),
            forall|j: int| 0 <= j < i ==> s@[j] != 0,
        decreases s@.len() - i,
    {
        if s[i] == 0 {
            return Some(i);
        }
        i = i + 1;
    }
    None
}

/// Decode a fixed-width column from `bytes` according to `type_id`.
///
/// `bytes` holds the column's on-disk bytes (the caller slices them using
/// `PgTypeId::type_len()`); a buffer shorter than the type's width is an
/// error. Varlena types are not decoded here: their bytes come back as
/// `RawBytes`.
pub fn decode_fixed(type_id: PgTypeId, bytes: &[u8]) -> (r: Result<PgDatum, DecodeError>)
    ensures
        result_view(r) == spec_decode_fixed(type_id, bytes@),
{
    let len = bytes.len();
    match type_id {
        PgTypeId::Bool => {
            check_len("bool", 1, len)?;
            Ok(PgDatum::Bool(bytes[0] != 0))
        },
        PgTypeId::Char => {
            check_len("char", 1, len)?;
            Ok(PgDatum::Char(bytes[0]))
        },
        PgTypeId::Int2 => {
            check_len("int2", 2, len)?;
            Ok(PgDatum::Int2(read_i16(bytes, 0)))
        },
        PgTypeId::Int4 => {
            check_len("int4", 4, len)?;
            Ok(PgDatum::Int4(read_i32(bytes, 0)))
        },
        PgTypeId::Oid => {
            check_len("oid", 4, len)?;
            Ok(PgDatum::Oid(read_u32(bytes, 0)))
        },
        PgTypeId::Xid => {
            check_len("xid", 4, len)?;
            Ok(PgDatum::Xid(read_u32(bytes, 0)))
        },
        PgTypeId::Cid => {
            check_len("cid", 4, len)?;
            Ok(PgDatum::Cid(read_u32(bytes, 0)))
        },
        PgTypeId::Float4 => {
            check_len("float4", 4, len)?;
            Ok(PgDatum::Float4(read_u32(bytes, 0)))
        },
        PgTypeId::Date => {
            check_len("date", 4, len)?;
            Ok(PgDatum::Date(read_i32(bytes, 0)))
        },
        PgTypeId::Int8 => {
            check_len("int8", 8, len)?;
            Ok(PgDatum::Int8(read_i64(bytes, 0)))
        },
        PgTypeId::Float8 => {
            check_len("float8", 8, len)?;
            Ok(PgDatum::Float8(read_u64(bytes, 0)))
        },
        PgTypeId::Money => {
            check_len("money", 8, len)?;
            Ok(PgDatum::Money(read_i64(bytes, 0)))
        },
        PgTypeId::Time => {
            check_len("time", 8, len)?;
            Ok(PgDatum::Time(read_i64(bytes, 0)))
        },
        PgTypeId::Timestamp => {
            check_len("timestamp", 8, len)?;
            Ok(PgDatum::Timestamp(read_i64(bytes, 0)))
        },
        PgTypeId::Timestamptz => {
            check_len("timestamptz", 8, len)?;
            Ok(PgDatum::TimestampTz(read_i64(bytes, 0)))
        },
        PgTypeId::Xid8 => {
            check_len("xid8", 8, len)?;
            Ok(PgDatum::Xid8(read_u64(bytes, 0)))
        },
        PgTypeId::Macaddr8 => {
            check_len("macaddr8", 8, len)?;
            Ok(PgDatum::MacAddr8(copy_array::<8>(bytes)))
        },
        PgTypeId::Tid => {
            // ItemPointerData: 4 bytes BlockIdData + 2 bytes OffsetNumber
            check_len("tid", 6, len)?;
            let block = read_u32(bytes, 0);
            let offset = read_u16(bytes, 4);
            Ok(PgDatum::Tid { block, offset })
        },
        PgTypeId::Macaddr => {
            check_len("macaddr", 6, len)?;
            Ok(PgDatum::MacAddr(copy_array::<6>(bytes)))
        },
        PgTypeId::Timetz => {
            // 8 bytes time (microseconds) + 4 bytes tz offset (seconds)
            check_len("timetz", 12, len)?;
            let time_usec = read_i64(bytes, 0);
            let tz_offset = read_i32(bytes, 8);
            Ok(PgDatum::TimeTz { time_usec, tz_offset })
        },
        PgTypeId::Interval => {
            // 8 bytes microseconds + 4 bytes days + 4 bytes months
            check_len("interval", 16, len)?;
            let microseconds = read_i64(bytes, 0);
            let days = read_i32(bytes, 8);
            let months = read_i32(bytes, 12);
            Ok(PgDatum::Interval { microseconds, days, months })
        },
        PgTypeId::Point => {
            check_len("point", 16, len)?;
            let x = read_u64(bytes, 0);
            let y = read_u64(bytes, 8);
            Ok(PgDatum::Point { x, y })
        },
        PgTypeId::Uuid => {
            check_len("uuid", 16, len)?;
            Ok(PgDatum::Uuid(copy_array::<16>(bytes)))
        },
        PgTypeId::Aclitem => {
            check_len("aclitem", 16, len)?;
            Ok(PgDatum::RawBytes { oid: PgTypeId::Aclitem.oid(), data: slice_to_vec(slice_subrange(bytes, 0, 16)) })
        },
        PgTypeId::Line => {
            // {A, B, C} coefficients, each float8
            check_len("line", 24, len)?;
            let a = read_u64(bytes, 0);
            let b = read_u64(bytes, 8);
            let c = read_u64(bytes, 16);
            Ok(PgDatum::Line { a, b, c })
        },
        PgTypeId::Circle => {
            // centre point (16 bytes) + radius (8 bytes)
            check_len("circle", 24, len)?;
            let x = read_u64(bytes, 0);
            let y = read_u64(bytes, 8);
            let radius = read_u64(bytes, 16);
            Ok(PgDatum::Circle { x, y, radius })
        },
        PgTypeId::Lseg => {
            // two points: p1(x,y) + p2(x,y)
            check_len("lseg", 32, len)?;
            let x1 = read_u64(bytes, 0);
            let y1 = read_u64(bytes, 8);
            let x2 = read_u64(bytes, 16);
            let y2 = read_u64(bytes, 24);
            Ok(PgDatum::Lseg { x1, y1, x2, y2 })
        },
        PgTypeId::Box => {
            // high point + low point
            check_len("box", 32, len)?;
            let x1 = read_u64(bytes, 0);
            let y1 = read_u64(bytes, 8);
            let x2 = read_u64(bytes, 16);
            let y2 = read_u64(bytes, 24);
            Ok(PgDatum::Box { x1, y1, x2, y2 })
        },
        PgTypeId::Name => {
            // Fixed 64-byte NUL-padded C string
            check_len("name", 64, len)?;
            let field = slice_subrange(bytes, 0, 64);
            proof {
                lemma_first_nul(field@, 0);
            }
            match find_nul(field) {
                Some(end) => {
                    proof {
                        lemma_first_nul(field@, end as int);
                    }
                    let text = slice_subrange(field, 0, end);
                    match utf8_to_string(text) {
                        Ok(s) => Ok(PgDatum::Text(s)),
                        Err(valid_up_to) => {
                            proof {
                                let b = text@;
                                let k = valid_up_to as int;
                                let c = valid_utf8_prefix_len(b);
                                assert(0 <= k <= b.len() && valid_utf8(b.subrange(0, k)) && forall|j: int|
                                    k < j <= b.len() ==> !valid_utf8(#[trigger] b.subrange(0, j)));
                                if c < k {
                                    assert(!valid_utf8(b.subrange(0, k)));
                                } else if k < c {
                                    assert(!valid_utf8(b.subrange(0, c)));
                                }
                                assert(c == k);
                            }
                            Err(DecodeError::InvalidUtf8 { typname: "name", offset: valid_up_to })
                        },
                    }
                },
                None => Err(DecodeError::MissingNulTerminator),
            }
        },
        // Varlena types are decoded by `decode_varlena`.
        _ => Ok(PgDatum::RawBytes { oid: type_id.oid(), data: slice_to_vec(bytes) }),
    }
}

/// Text types decoded as UTF-8 by `decode_varlena`, with the name used
/// in their decoding errors.
pub open spec fn text_type_name(t: PgTypeId) -> Option<Seq<char>> {
    match t {
        PgTypeId::Text => Some("text"@),
        PgTypeId::Varchar => Some("varchar"@),
        PgTypeId::Bpchar => Some("bpchar"@),
        PgTypeId::Json => Some("json"@),
        PgTypeId::Xml => Some("xml"@),
        _ => None,
    }
}

/// The datum of text type `t` holding the characters `s`.
pub open spec fn text_datum(t: PgTypeId, s: Seq<char>) -> PgDatumView {
    match t {
        PgTypeId::Text => PgDatumView::Text(s),
        PgTypeId::Varchar => PgDatumView::Varchar(s),
        PgTypeId::Bpchar => PgDatumView::BpChar(s),
        PgTypeId::Json => PgDatumView::Json(s),
        _ => PgDatumView::Xml(s),
    }
}

/// The length of the longest prefix of `b` that is valid UTF-8.
pub open spec fn valid_utf8_prefix_len(b: Seq<u8>) -> int {
    choose|k: int|
        0 <= k <= b.len() && valid_utf8(b.subrange(0, k)) && forall|j: int|
            k < j <= b.len() ==> !valid_utf8(#[trigger] b.subrange(0, j))
}

/// What `decode_varlena` makes of the payload `b` of a value of type `t`.
pub open spec fn spec_decode_varlena(t: PgTypeId, b: Seq<u8>) -> Result<PgDatumView, DecodeErrorView> {
    match text_type_name(t) {
        Some(name) => if valid_utf8(b) {
            Ok(text_datum(t, decode_utf8(b)))
        } else {
            Err(DecodeErrorView::InvalidUtf8 { typname: name, offset: valid_utf8_prefix_len(b) as usize })
        },
        None => match t {
            PgTypeId::Bytea => Ok(PgDatumView::Bytea(b)),
            PgTypeId::Jsonb => Ok(PgDatumView::Jsonb(b)),
            PgTypeId::Jsonpath => Ok(PgDatumView::JsonPath(b)),
            PgTypeId::Numeric => Ok(PgDatumView::Numeric(b)),
            PgTypeId::Inet => Ok(PgDatumView::Inet(b)),
            PgTypeId::Cidr => Ok(PgDatumView::Cidr(b)),
            PgTypeId::Bit => Ok(PgDatumView::Bit(b)),
            PgTypeId::Varbit => Ok(PgDatumView::VarBit(b)),
            PgTypeId::Path => Ok(PgDatumView::Path(b)),
            PgTypeId::Polygon => Ok(PgDatumView::Polygon(b)),
            _ => Ok(PgDatumView::RawBytes { oid: t.spec_oid(), data: b }),
        },
    }
}

/// Decode text of type `t` (named `typname` in errors).
fn decode_text(t: PgTypeId, typname: &'static str, raw_payload: &[u8]) -> (r: Result<PgDatum, DecodeError>)
    requires
        text_type_name(t) == Some(typname@),
    ensures
        result_view(r) == spec_decode_varlena(t, raw_payload@),
{
    match utf8_to_string(raw_payload) {
        Ok(s) => Ok(match t {
            PgTypeId::Text => PgDatum::Text(s),
            PgTypeId::Varchar => PgDatum::Varchar(s),
            PgTypeId::Bpchar => PgDatum::BpChar(s),
            PgTypeId::Json => PgDatum::Json(s),
            _ => PgDatum::Xml(s),
        }),
        Err(valid_up_to) => {
            proof {
                let b = raw_payload@;
                let k = valid_up_to as int;
                assert(0 <= k <= b.len() && valid_utf8(b.subrange(0, k)) && forall|j: int|
                    k < j <= b.len() ==> !valid_utf8(#[trigger] b.subrange(0, j)));
                let c = valid_utf8_prefix_len(b);
                if c < k {
                    assert(!valid_utf8(b.subrange(0, k)));
                } else if k < c {
                    assert(!valid_utf8(b.subrange(0, c)));
                }
                assert(c == k);
            }
            Err(DecodeError::InvalidUtf8 { typname, offset: valid_up_to })
        },
    }
}

/// Decode a varlena column from its payload (the bytes after the varlena
/// header; TOAST indirection already resolved).
///
/// Text types are validated as UTF-8; binary types keep their bytes; any
/// other type comes back as `RawBytes`.
pub fn decode_varlena(type_id: PgTypeId, raw_payload: &[u8]) -> (r: Result<PgDatum, DecodeError>)
    ensures
        result_view(r) == spec_decode_varlena(type_id, raw_payload@),
{
    match type_id {
        PgTypeId::Text => decode_text(type_id, "text", raw_payload),
        PgTypeId::Varchar => decode_text(type_id, "varchar", raw_payload),
        PgTypeId::Bpchar => decode_text(type_id, "bpchar", raw_payload),
        PgTypeId::Json => decode_text(type_id, "json", raw_payload),
        PgTypeId::Xml => decode_text(type_id, "xml", raw_payload),
        PgTypeId::Bytea => Ok(PgDatum::Bytea(slice_to_vec(raw_payload))),
        PgTypeId::Jsonb => Ok(PgDatum::Jsonb(slice_to_vec(raw_payload))),
        PgTypeId::Jsonpath => Ok(PgDatum::JsonPath(slice_to_vec(raw_payload))),
        PgTypeId::Numeric => Ok(PgDatum::Numeric(slice_to_vec(raw_payload))),
        PgTypeId::Inet => Ok(PgDatum::Inet(slice_to_vec(raw_payload))),
        PgTypeId::Cidr => Ok(PgDatum::Cidr(slice_to_vec(raw_payload))),
        PgTypeId::Bit => Ok(PgDatum::Bit(slice_to_vec(raw_payload))),
        PgTypeId::Varbit => Ok(PgDatum::VarBit(slice_to_vec(raw_payload))),
        PgTypeId::Path => Ok(PgDatum::Path(slice_to_vec(raw_payload))),
        PgTypeId::Polygon => Ok(PgDatum::Polygon(slice_to_vec(raw_payload))),
        // Unknown or array types — raw bytes
        _ => Ok(PgDatum::RawBytes { oid: type_id.oid(), data: slice_to_vec(raw_payload) }),
    }
}

/// The `(payload_start, payload_len)` of the varlena value whose header
/// starts at `data[offset]`.
///
/// - first byte `0x01`: an external TOAST pointer; only the on-disk tag (18)
///   is accepted, and the 18-byte pointer is skipped with an empty payload;
/// - first byte odd: a 1-byte header whose upper 7 bits are the total length;
/// - otherwise a 4-byte little-endian header word whose low 2 bits are the
///   tag (`00` plain, `10` compressed) and upper 30 bits the total length.
pub open spec fn spec_varlena_header(data: Seq<u8>, offset: int) -> Result<(int, int), DecodeErrorView> {
    if offset >= data.len() {
        Err(too_short("varlena header"@, 1, 0))
    } else {
        let first = data[offset];
        if first == 1 {
            if offset + 1 >= data.len() {
                Err(too_short("varlena external tag"@, 2, 1))
            } else if data[offset + 1] == 18 {
                Ok((offset + 18, 0))
            } else {
                Err(DecodeErrorView::InvalidVarlenaHeader { offset: offset as usize, first_byte: first })
            }
        } else if first % 2 == 1 {
            let total_len = first / 2;
            Ok((offset + 1, if total_len >= 1 { total_len - 1 } else { 0 }))
        } else if data.len() < offset + 4 {
            Err(too_short("varlena header (4-byte)"@, 4, data.len() - offset))
        } else {
            let word = le32(data, offset);
            let tag = word % 4;
            let total_len = word / 4;
            if tag == 0 || tag == 2 {
                Ok((offset + 4, if total_len >= 4 { total_len - 4 } else { 0 }))
            } else {
                Err(DecodeErrorView::InvalidVarlenaHeader { offset: offset as usize, first_byte: first })
            }
        }
    }
}

/// Read the varlena header at `data[offset]`; returns `(payload_start,
/// payload_len)`.
pub fn read_varlena_header(data: &[u8], offset: usize) -> (r: Result<(usize, usize), DecodeError>)
    requires
        data@.len() <= isize::MAX,
    ensures
        match (r, spec_varlena_header(data@, offset as int)) {
            (Ok((s, l)), Ok((ss, sl))) => s == ss && l == sl,
            (Err(e), Err(se)) => e@ == se,
            _ => false,
        },
{
    if offset >= data.len() {
        return Err(DecodeError::BufferTooShort { typname: "varlena header", expected: 1, actual: 0 });
    }
    let first = data[offset];
    if first == 0x01 {
        // External TOAST pointer (varattrib_1b_e): va_header = 0x01, va_tag,
        // va_data. On-disk heap tuples only use VARTAG_ONDISK (18), whose
        // pointer is 1 + 1 + 16 = 18 bytes; the value cannot be detoasted
        // here, so the payload is empty.
        if offset + 1 >= data.len() {
            return Err(DecodeError::BufferTooShort {
                typname: "varlena external tag",
                expected: 2,
                actual: 1,
            });
        }
        let tag = data[offset + 1];
        if tag == 18 {
            Ok((offset + 18, 0))
        } else {
            Err(DecodeError::InvalidVarlenaHeader { offset, first_byte: first })
        }
    } else if first & 0x01 != 0 {
        // Short varlena: 1-byte header, total length in the upper 7 bits
        assert((first & 0x01 != 0) == (first % 2 == 1)) by (bit_vector);
        assert(first >> 1u8 == first / 2) by (bit_vector);
        let total_len = (first >> 1) as usize;
        let payload_len = total_len.saturating_sub(1);
        Ok((offset + 1, payload_len))
    } else {
        assert((first & 0x01 != 0) == (first % 2 == 1)) by (bit_vector);
        if data.len() < offset + 4 {
            return Err(DecodeError::BufferTooShort {
                typname: "varlena header (4-byte)",
                expected: 4,
                actual: data.len() - offset,
            });
        }
        let header_word = read_u32(data, offset);
        let tag = header_word & 0x03;
        let total_len = (header_word >> 2) as usize;
        assert(header_word & 0x03 == header_word % 4) by (bit_vector);
        assert(header_word >> 2u32 == header_word / 4) by (bit_vector);
        if tag == 0x00 || tag == 0x02 {
            // 0x00: uncompressed; 0x02: compressed (PGLZ), returned as stored.
            // The length includes the 4-byte header.
            Ok((offset + 4, total_len.saturating_sub(4)))
        } else {
            Err(DecodeError::InvalidVarlenaHeader { offset, first_byte: first })
        }
    }
}

/// `a - b`, or 0 when `b > a`.
pub open spec fn sat_sub(a: int, b: int) -> int {
    if a >= b { a - b } else { 0 }
}

/// What `decode_datum` makes of the column of type `t` at `data[offset]`:
/// the datum and the number of bytes it occupies.
pub open spec fn spec_decode_datum(t: PgTypeId, data: Seq<u8>, offset: int) -> Result<(PgDatumView, int), DecodeErrorView> {
    match t.spec_type_len() {
        PgTypeLen::Fixed(n) => if offset + n > data.len() {
            Err(too_short(t.spec_type_name(), n as int, sat_sub(data.len() as int, offset)))
        } else {
            match spec_decode_fixed(t, data.subrange(offset, offset + n)) {
                Ok(d) => Ok((d, n as int)),
                Err(e) => Err(e),
            }
        },
        _ => match spec_varlena_header(data, offset) {
            Err(e) => Err(e),
            Ok((start, len)) => if start + len > data.len() {
                Err(too_short(t.spec_type_name(), len, sat_sub(data.len() as int, start)))
            } else {
                match spec_decode_varlena(t, data.subrange(start, start + len)) {
                    Ok(d) => Ok((d, start + len - offset)),
                    Err(e) => Err(e),
                }
            },
        },
    }
}

/// A payload of at most 126 bytes stored with a 1-byte varlena header: the
/// header byte holds the total length (payload plus header) shifted left
/// by one, with the low bit set.
pub open spec fn short_varlena(p: Seq<u8>) -> Seq<u8> {
    seq![(2 * (p.len() + 1) + 1) as u8] + p
}

/// A payload stored with a plain 4-byte varlena header: the little-endian
/// header word holds the total length (payload plus header) shifted left by
/// two, with tag bits `00`.
pub open spec fn long_varlena(p: Seq<u8>) -> Seq<u8> {
    let w = 4 * (p.len() + 4);
    seq![(w % 256) as u8, ((w / 256) % 256) as u8, ((w / 65536) % 256) as u8, (w / 16777216) as u8] + p
}

/// The header word of a plain 4-byte varlena header, read back.
proof fn lemma_long_header_word(d: Seq<u8>, o: int, n: int)
    requires
        0 <= n,
        n + 4 < 0x4000_0000,
        0 <= o,
        o + 4 <= d.len(),
        d[o] == ((4 * (n + 4)) % 256) as u8,
        d[o + 1] == (((4 * (n + 4)) / 256) % 256) as u8,
        d[o + 2] == (((4 * (n + 4)) / 65536) % 256) as u8,
        d[o + 3] == ((4 * (n + 4)) / 16777216) as u8,
    ensures
        le32(d, o) == 4 * (n + 4),
        d[o] % 2 == 0,
        d[o] != 1,
{
    let w = 4 * (n + 4);
    assert(w % 256 + 256 * ((w / 256) % 256) + 65536 * (((w / 65536) % 256) + 256 * (w / 16777216)) == w)
        by (nonlinear_arith)
        requires
            0 <= w < 0x1_0000_0000,
    ;
    assert((w % 256) % 2 == 0) by (nonlinear_arith)
        requires
            w % 4 == 0,
            w >= 0,
    ;
}

/// Decoding a `bytea` stored with either varlena header, anywhere in the
/// attribute data, gives back its payload and consumes exactly the header
/// and the payload.
pub proof fn lemma_bytea_round_trip(prefix: Seq<u8>, p: Seq<u8>, suffix: Seq<u8>)
    ensures
        p.len() <= 126 ==> spec_decode_datum(PgTypeId::Bytea, prefix + short_varlena(p) + suffix, prefix.len() as int)
            == Ok::<(PgDatumView, int), DecodeErrorView>((PgDatumView::Bytea(p), p.len() + 1 as int)),
        p.len() + 4 < 0x4000_0000 ==> spec_decode_datum(
            PgTypeId::Bytea,
            prefix + long_varlena(p) + suffix,
            prefix.len() as int,
        ) == Ok::<(PgDatumView, int), DecodeErrorView>((PgDatumView::Bytea(p), p.len() + 4 as int)),
{
    let o = prefix.len() as int;
    let n = p.len() as int;
    if n <= 126 {
        let d = prefix + short_varlena(p) + suffix;
        let first = (2 * (n + 1) + 1) as u8;
        assert(d[o] == first);
        assert(first as int == 2 * (n + 1) + 1);
        assert(spec_varlena_header(d, o) == Ok::<(int, int), DecodeErrorView>((o + 1, n)));
        assert(d.subrange(o + 1, o + 1 + n) =~= p);
    }
    if n + 4 < 0x4000_0000 {
        let d = prefix + long_varlena(p) + suffix;
        let w = 4 * (n + 4);
        assert(d[o] == (w % 256) as u8 && d[o + 1] == ((w / 256) % 256) as u8);
        assert(d[o + 2] == ((w / 65536) % 256) as u8 && d[o + 3] == (w / 16777216) as u8);
        lemma_long_header_word(d, o, n);
        assert(w % 4 == 0 && w / 4 == n + 4);
        assert(spec_varlena_header(d, o) == Ok::<(int, int), DecodeErrorView>((o + 4, n)));
        assert(d.subrange(o + 4, o + 4 + n) =~= p);
    }
}

/// Decoding a `text` stored with a 1-byte varlena header whose payload is
/// the UTF-8 encoding of `s` gives back `s`.
pub proof fn lemma_text_round_trip(prefix: Seq<u8>, s: Seq<char>, suffix: Seq<u8>)
    requires
        vstd::utf8::encode_utf8(s).len() <= 126,
    ensures
        spec_decode_datum(PgTypeId::Text, prefix + short_varlena(vstd::utf8::encode_utf8(s)) + suffix, prefix.len() as int)
            == Ok::<(PgDatumView, int), DecodeErrorView>(
            (PgDatumView::Text(s), vstd::utf8::encode_utf8(s).len() + 1 as int),
        ),
{
    let p = vstd::utf8::encode_utf8(s);
    let o = prefix.len() as int;
    let n = p.len() as int;
    let d = prefix + short_varlena(p) + suffix;
    vstd::utf8::encode_utf8_valid_utf8(s);
    vstd::utf8::encode_utf8_decode_utf8(s);
    let first = (2 * (n + 1) + 1) as u8;
    assert(d[o] == first);
    assert(first as int == 2 * (n + 1) + 1);
    assert(d.subrange(o + 1, o + 1 + n) =~= p);
}

/// Reading back the two, four or eight little-endian bytes of a value
/// gives the value.
proof fn lemma_le_bytes_read_back(v: int)
    requires
        0 <= v,
    ensures
        v < 0x1_0000 ==> le16(le_bytes(v, 2), 0) == v,
        v < 0x1_0000_0000 ==> le32(le_bytes(v, 4), 0) == v,
        v < 0x1_0000_0000_0000_0000 ==> le64(le_bytes(v, 8), 0) == v,
{
    reveal_with_fuel(le_bytes, 9);
    let v1 = v / 256;
    let v2 = v1 / 256;
    let v3 = v2 / 256;
    let v4 = v3 / 256;
    let v5 = v4 / 256;
    let v6 = v5 / 256;
    let v7 = v6 / 256;
    let v8 = v7 / 256;
    assert(v == v % 256 + 256 * v1);
    assert(v1 == v1 % 256 + 256 * v2);
    assert(v2 == v2 % 256 + 256 * v3);
    assert(v3 == v3 % 256 + 256 * v4);
    assert(v4 == v4 % 256 + 256 * v5);
    assert(v5 == v5 % 256 + 256 * v6);
    assert(v6 == v6 % 256 + 256 * v7);
    assert(v7 == v7 % 256 + 256 * v8);
    let b2 = le_bytes(v, 2);
    assert(b2 =~= seq![(v % 256) as u8, (v1 % 256) as u8]);
    let b4 = le_bytes(v, 4);
    assert(b4 =~= seq![(v % 256) as u8, (v1 % 256) as u8, (v2 % 256) as u8, (v3 % 256) as u8]);
    let b8 = le_bytes(v, 8);
    assert(b8 =~= seq![
        (v % 256) as u8,
        (v1 % 256) as u8,
        (v2 % 256) as u8,
        (v3 % 256) as u8,
        (v4 % 256) as u8,
        (v5 % 256) as u8,
        (v6 % 256) as u8,
        (v7 % 256) as u8,
    ]);
    if v < 0x1_0000 {
        assert(v2 == 0);
    }
    if v < 0x1_0000_0000 {
        assert(v4 == 0);
    }
    if v < 0x1_0000_0000_0000_0000 {
        assert(v8 == 0);
    }
}

/// Integers round-trip through their on-disk form: decoding the
/// little-endian bytes of an `int2`, `int4`, `int8` or `oid` value (two's
/// complement for the signed ones) gives back that value.
pub proof fn lemma_integers_round_trip(a: i16, b: i32, c: i64, d: u32)
    ensures
        spec_decode_fixed(PgTypeId::Int2, le_bytes(a as u16 as int, 2)) == Ok::<PgDatumView, DecodeErrorView>(
            PgDatumView::Int2(a),
        ),
        spec_decode_fixed(PgTypeId::Int4, le_bytes(b as u32 as int, 4)) == Ok::<PgDatumView, DecodeErrorView>(
            PgDatumView::Int4(b),
        ),
        spec_decode_fixed(PgTypeId::Int8, le_bytes(c as u64 as int, 8)) == Ok::<PgDatumView, DecodeErrorView>(
            PgDatumView::Int8(c),
        ),
        spec_decode_fixed(PgTypeId::Oid, le_bytes(d as int, 4)) == Ok::<PgDatumView, DecodeErrorView>(
            PgDatumView::Oid(d),
        ),
{
    lemma_le_bytes_read_back(a as u16 as int);
    lemma_le_bytes_read_back(b as u32 as int);
    lemma_le_bytes_read_back(c as u64 as int);
    lemma_le_bytes_read_back(d as int);
    reveal_with_fuel(le_bytes, 9);
    assert(le_bytes(a as u16 as int, 2).len() == 2);
    assert(le_bytes(b as u32 as int, 4).len() == 4);
    assert(le_bytes(c as u64 as int, 8).len() == 8);
    assert(le_bytes(d as int, 4).len() == 4);
    let x: u16 = a as u16;
    assert((x as i16) == a) by (bit_vector)
        requires
            x == a as u16,
    ;
    let y: u32 = b as u32;
    assert((y as i32) == b) by (bit_vector)
        requires
            y == b as u32,
    ;
    let z: u64 = c as u64;
    assert((z as i64) == c) by (bit_vector)
        requires
            z == c as u64,
    ;
}

/// The inputs on which `decode_datum` is defined: an offset whose fixed-width
/// end fits in `usize`.
pub open spec fn decode_datum_ok(t: PgTypeId, data: Seq<u8>, offset: int) -> bool {
    &&& data.len() <= isize::MAX
    &&& (t.spec_type_len() matches PgTypeLen::Fixed(n) ==> offset + n <= usize::MAX)
}

/// A geometric value is its float8 coordinates in storage order: a point's
/// `x` is the float8 the datum decoder reads from bytes 0..8 and its `y`
/// the one from bytes 8..16; a line segment and a box are two such points,
/// a circle a point and then its radius, a line its three coefficients.
pub proof fn lemma_geometry_is_float8_coordinates(b: Seq<u8>)
    requires
        b.len() >= 32,
    ensures
        ({
            let f = |k: int| spec_decode_fixed(PgTypeId::Float8, b.subrange(8 * k, 8 * k + 8));
            &&& f(0) matches Ok(PgDatumView::Float8(c0))
            &&& f(1) matches Ok(PgDatumView::Float8(c1))
            &&& f(2) matches Ok(PgDatumView::Float8(c2))
            &&& f(3) matches Ok(PgDatumView::Float8(c3))
            &&& spec_decode_fixed(PgTypeId::Point, b) == Ok::<PgDatumView, DecodeErrorView>(PgDatumView::Point { x: c0, y: c1 })
            &&& spec_decode_fixed(PgTypeId::Point, b.subrange(16, 32)) == Ok::<PgDatumView, DecodeErrorView>(
                PgDatumView::Point { x: c2, y: c3 },
            )
            &&& spec_decode_fixed(PgTypeId::Lseg, b) == Ok::<PgDatumView, DecodeErrorView>(
                PgDatumView::Lseg { x1: c0, y1: c1, x2: c2, y2: c3 },
            )
            &&& spec_decode_fixed(PgTypeId::Box, b) == Ok::<PgDatumView, DecodeErrorView>(
                PgDatumView::Box { x1: c0, y1: c1, x2: c2, y2: c3 },
            )
            &&& spec_decode_fixed(PgTypeId::Circle, b) == Ok::<PgDatumView, DecodeErrorView>(
                PgDatumView::Circle { x: c0, y: c1, radius: c2 },
            )
            &&& spec_decode_fixed(PgTypeId::Line, b) == Ok::<PgDatumView, DecodeErrorView>(
                PgDatumView::Line { a: c0, b: c1, c: c2 },
            )
        }),
{
    let s0 = b.subrange(0, 8);
    let s1 = b.subrange(8, 16);
    let s2 = b.subrange(16, 24);
    let s3 = b.subrange(24, 32);
    let q = b.subrange(16, 32);
    assert(le64(s0, 0) == le64(b, 0));
    assert(le64(s1, 0) == le64(b, 8));
    assert(le64(s2, 0) == le64(b, 16));
    assert(le64(s3, 0) == le64(b, 24));
    assert(le64(q, 0) == le64(b, 16));
    assert(le64(q, 8) == le64(b, 24));
}

/// An interval is its 64-bit microseconds and then its 32-bit days and
/// months, each as the datum decoder reads that integer type; a tid is its
/// 32-bit block number and 16-bit offset; a `timetz` its 64-bit time and
/// 32-bit zone offset.
pub proof fn lemma_composites_are_their_fields(b: Seq<u8>)
    requires
        b.len() >= 16,
    ensures
        spec_decode_fixed(PgTypeId::Int8, b.subrange(0, 8)) matches Ok(PgDatumView::Int8(us))
            && spec_decode_fixed(PgTypeId::Int4, b.subrange(8, 12)) matches Ok(PgDatumView::Int4(d))
            && spec_decode_fixed(PgTypeId::Int4, b.subrange(12, 16)) matches Ok(PgDatumView::Int4(m))
            && spec_decode_fixed(PgTypeId::Interval, b) == Ok::<PgDatumView, DecodeErrorView>(
            PgDatumView::Interval { microseconds: us, days: d, months: m },
        ) && spec_decode_fixed(PgTypeId::Timetz, b) == Ok::<PgDatumView, DecodeErrorView>(
            PgDatumView::TimeTz { time_usec: us, tz_offset: d },
        ),
        spec_decode_fixed(PgTypeId::Oid, b.subrange(0, 4)) matches Ok(PgDatumView::Oid(blk))
            && spec_decode_fixed(PgTypeId::Int2, b.subrange(4, 6)) matches Ok(PgDatumView::Int2(off))
            && spec_decode_fixed(PgTypeId::Tid, b) == Ok::<PgDatumView, DecodeErrorView>(
            PgDatumView::Tid { block: blk, offset: off as u16 },
        ),
{
    assert(le64(b.subrange(0, 8), 0) == le64(b, 0));
    assert(le32(b.subrange(8, 12), 0) == le32(b, 8));
    assert(le32(b.subrange(12, 16), 0) == le32(b, 12));
    assert(le32(b.subrange(0, 4), 0) == le32(b, 0));
    assert(le16(b.subrange(4, 6), 0) == le16(b, 4));
    let x = le16(b, 4);
    assert(0 <= x < 65536);
    let y: u16 = x as u16;
    assert((y as i16) as u16 == y) by (bit_vector);
}

/// The views of a `decode_datum` result and of its specification agree.
pub open spec fn datum_result_matches(
    r: Result<(PgDatum, usize), DecodeError>,
    s: Result<(PgDatumView, int), DecodeErrorView>,
) -> bool {
    match (r, s) {
        (Ok((d, n)), Ok((sd, sn))) => d@ == sd && n == sn,
        (Err(e), Err(se)) => e@ == se,
        _ => false,
    }
}

/// Decode a single column from raw tuple data at `offset`: fixed-width types
/// through `decode_fixed`, varlena types through their header and
/// `decode_varlena`.
///
/// Returns `(datum, bytes_consumed)` so the caller can advance the offset.
pub fn decode_datum(type_id: PgTypeId, data: &[u8], offset: usize) -> (r: Result<(PgDatum, usize), DecodeError>)
    requires
        decode_datum_ok(type_id, data@, offset as int),
    ensures
        datum_result_matches(r, spec_decode_datum(type_id, data@, offset as int)),
{
    match type_id.type_len() {
        PgTypeLen::Fixed(n) => {
            let n = n as usize;
            let end = offset + n;
            if end > data.len() {
                return Err(DecodeError::BufferTooShort {
                    typname: type_id.info().name,
                    expected: n,
                    actual: data.len().saturating_sub(offset),
                });
            }
            let bytes = slice_subrange(data, offset, end);
            let datum = decode_fixed(type_id, bytes)?;
            Ok((datum, n))
        },
        PgTypeLen::Varlena => {
            let (payload_start, payload_len) = read_varlena_header(data, offset)?;
            let payload_end = payload_start + payload_len;
            if payload_end > data.len() {
                return Err(DecodeError::BufferTooShort {
                    typname: type_id.info().name,
                    expected: payload_len,
                    actual: data.len().saturating_sub(payload_start),
                });
            }
            let payload = slice_subrange(data, payload_start, payload_end);
            let datum = decode_varlena(type_id, payload)?;
            // Total bytes consumed = from offset to end of payload
            Ok((datum, payload_end - offset))
        },
        PgTypeLen::CString => {
            // No known type is a C string.
            assert(false);
            Err(DecodeError::MissingNulTerminator)
        },
    }
}

/// What `skip_datum` computes: the number of bytes the value at
/// `data[offset]` occupies, for the given size classification.
pub open spec fn spec_skip_datum(len: PgTypeLen, data: Seq<u8>, offset: int) -> Result<int, DecodeErrorView> {
    match len {
        PgTypeLen::Fixed(n) => Ok(n as int),
        PgTypeLen::Varlena => match spec_varlena_header(data, offset) {
            Err(e) => Err(e),
            Ok((start, l)) => Ok(start + l - offset),
        },
        PgTypeLen::CString => if offset > data.len() {
            Err(too_short("cstring"@, 1, 0))
        } else if has_nul(data.subrange(offset, data.len() as int)) {
            Ok(first_nul(data.subrange(offset, data.len() as int)) + 1)
        } else {
            Err(DecodeErrorView::MissingNulTerminator)
        },
    }
}

/// Compute the byte size of a datum at `offset` without decoding its value:
/// the lightweight counterpart of [`decode_datum`], used to advance past
/// columns that are not decoded.
pub fn skip_datum(type_len: PgTypeLen, data: &[u8], offset: usize) -> (r: Result<usize, DecodeError>)
    requires
        data@.len() <= isize::MAX,
    ensures
        match (r, spec_skip_datum(type_len, data@, offset as int)) {
            (Ok(n), Ok(sn)) => n == sn,
            (Err(e), Err(se)) => e@ == se,
            _ => false,
        },
{
    match type_len {
        PgTypeLen::Fixed(n) => Ok(n as usize),
        PgTypeLen::Varlena => {
            let (payload_start, payload_len) = read_varlena_header(data, offset)?;
            Ok(payload_start + payload_len - offset)
        },
        PgTypeLen::CString => {
            // Scan for the NUL terminator without UTF-8 validation.
            if offset > data.len() {
                return Err(DecodeError::BufferTooShort { typname: "cstring", expected: 1, actual: 0 });
            }
            let remaining = slice_subrange(data, offset, data.len());
            match find_nul(remaining) {
                Some(nul_pos) => {
                    proof {
                        lemma_first_nul(remaining@, nul_pos as int);
                    }
                    Ok(nul_pos + 1)
                },
                None => Err(DecodeError::MissingNulTerminator),
            }
        },
    }
}

/// Skipping a column advances by exactly as many bytes as decoding it
/// consumes.
pub proof fn lemma_skip_agrees_with_decode(t: PgTypeId, data: Seq<u8>, offset: int)
    ensures
        spec_decode_datum(t, data, offset) matches Ok((_, n)) ==> spec_skip_datum(
            t.spec_type_len(),
            data,
            offset,
        ) == Ok::<int, DecodeErrorView>(n),
{
}

} // verus!
