//! Column builders: raw PostgreSQL on-disk column bytes appended straight
//! into Arrow-shaped column data, bypassing the intermediate `PgDatum`.

use vstd::prelude::*;
use vstd::slice::{slice_subrange, slice_to_vec};
use vstd::utf8::{decode_utf8, valid_utf8};

use crate::codec::datum::{
    find_nul, first_nul, has_nul, read_varlena_header, spec_decode_fixed, spec_varlena_header, DecodeErrorView,
    PgDatumView,
};
use crate::codec::le::{le16, le32, le64, read_i16, read_i32, read_i64, read_u32, read_u64};
use crate::codec::text::{utf8_lossy, utf8_to_string, utf8_to_string_lossy};
use crate::codec::type_id::{PgTypeId, PgTypeLen};
use crate::file::error::PgError;
use crate::messages::decode_error_text;
use crate::types::arrow::{
    numeric_typmod_to_arrow_type, spec_numeric_typmod_to_arrow_type, ArrowIntervalUnit, ArrowTimeUnit, ArrowTimeZone, ArrowType,
};
use crate::types::numeric::{
    decode_pg_numeric_i128, decode_pg_numeric_i256, numeric_i128_defined, numeric_i128_is_defined, numeric_i256_defined,
    numeric_i256_is_defined, pow10,
    pow10_i128, sat_i128, sat_mul_i128, spec_decode_pg_numeric_i128, spec_decode_pg_numeric_i256, trunc_div,
    trunc_div_i128, wrap256, I256,
};
use crate::types::numeric::{i256_from_i128, i256_wrapping_div, i256_wrapping_mul, lemma_pow10_monotone};
use crate::types::{spec_column_arrow_type, PgColumn};

verus! {

// ── Values ───────────────────────────────────────────────────────────────

/// One non-null value of an Arrow column. Floating-point values are held as
/// their IEEE-754 bit patterns.
#[derive(Debug, Clone, PartialEq)]
pub enum ArrowValue {
    Boolean(bool),
    Int16(i16),
    Int32(i32),
    Int64(i64),
    UInt8(u8),
    UInt32(u32),
    UInt64(u64),
    /// IEEE-754 single-precision bits.
    Float32(u32),
    /// IEEE-754 double-precision bits.
    Float64(u64),
    Binary(Vec<u8>),
    Utf8(String),
    Decimal128(i128),
    Decimal256(I256),
    /// A calendar interval: months, days and nanoseconds.
    IntervalMonthDayNano { months: i32, days: i32, nanoseconds: i64 },
}

/// The mathematical value of an [`ArrowValue`].
pub ghost enum ArrowValueView {
    Boolean(bool),
    Int16(i16),
    Int32(i32),
    Int64(i64),
    UInt8(u8),
    UInt32(u32),
    UInt64(u64),
    Float32(u32),
    Float64(u64),
    Binary(Seq<u8>),
    Utf8(Seq<char>),
    Decimal128(int),
    Decimal256(int),
    IntervalMonthDayNano { months: i32, days: i32, nanoseconds: i64 },
}

impl View for ArrowValue {
    type V = ArrowValueView;

    open spec fn view(&self) -> ArrowValueView {
        match self {
            ArrowValue::Boolean(v) => ArrowValueView::Boolean(*v),
            ArrowValue::Int16(v) => ArrowValueView::Int16(*v),
            ArrowValue::Int32(v) => ArrowValueView::Int32(*v),
            ArrowValue::Int64(v) => ArrowValueView::Int64(*v),
            ArrowValue::UInt8(v) => ArrowValueView::UInt8(*v),
            ArrowValue::UInt32(v) => ArrowValueView::UInt32(*v),
            ArrowValue::UInt64(v) => ArrowValueView::UInt64(*v),
            ArrowValue::Float32(v) => ArrowValueView::Float32(*v),
            ArrowValue::Float64(v) => ArrowValueView::Float64(*v),
            ArrowValue::Binary(v) => ArrowValueView::Binary(v@),
            ArrowValue::Utf8(v) => ArrowValueView::Utf8(v@),
            ArrowValue::Decimal128(v) => ArrowValueView::Decimal128(*v as int),
            ArrowValue::Decimal256(v) => ArrowValueView::Decimal256(v.value()),
            ArrowValue::IntervalMonthDayNano { months, days, nanoseconds } => ArrowValueView::IntervalMonthDayNano {
                months: *months,
                days: *days,
                nanoseconds: *nanoseconds,
            },
        }
    }
}

/// The values of a column, each taken by its view; `None` is a null.
pub open spec fn values_view(v: Seq<Option<ArrowValue>>) -> Seq<Option<ArrowValueView>> {
    v.map_values(|o: Option<ArrowValue>| match o {
        Some(x) => Some(x@),
        None => None,
    })
}

/// A finished Arrow column: its data type and its values, `None` for nulls.
#[derive(Debug)]
pub struct ArrowArray {
    pub data_type: ArrowType,
    pub values: Vec<Option<ArrowValue>>,
}

/// A finished batch of Arrow columns with the schema describing them; the
/// number of rows is the length of the columns (0 when there are none).
#[derive(Debug)]
pub struct ArrowRecordBatch {
    pub schema: crate::types::arrow::ArrowSchema,
    pub columns: Vec<ArrowArray>,
}

// ── Builder kinds ────────────────────────────────────────────────────────

/// Which Arrow column a builder fills, and how it reads raw bytes.
#[derive(Debug, Clone, Copy, PartialEq, Eq, Structural)]
pub enum ColumnKind {
    Bool,
    Int2,
    Int4,
    Int8,
    Float4,
    Float8,
    Char,
    Oid,
    Xid,
    Cid,
    Xid8,
    Date,
    Money,
    Time,
    Timestamp,
    TimestampTz,
    Timetz,
    Interval,
    Utf8,
    Name,
    Binary,
    /// Fixed-size binary of the given byte width.
    FixedBinary(i32),
    Tid,
    /// NUMERIC of precision at most 38: `(precision, scale)`.
    Decimal128(u8, i8),
    /// NUMERIC of larger or unbound precision: `(precision, scale)`.
    Decimal256(u8, i8),
    /// An array type; its values are not converted.
    List(PgTypeId),
}

/// The builder kind for a column of type `t` with type modifier `typmod`.
pub open spec fn spec_column_kind(t: PgTypeId, typmod: i32) -> ColumnKind {
    match t {
        PgTypeId::Bool => ColumnKind::Bool,
        PgTypeId::Int2 => ColumnKind::Int2,
        PgTypeId::Int4 => ColumnKind::Int4,
        PgTypeId::Int8 => ColumnKind::Int8,
        PgTypeId::Float4 => ColumnKind::Float4,
        PgTypeId::Float8 => ColumnKind::Float8,
        PgTypeId::Char => ColumnKind::Char,
        PgTypeId::Oid => ColumnKind::Oid,
        PgTypeId::Xid => ColumnKind::Xid,
        PgTypeId::Cid => ColumnKind::Cid,
        PgTypeId::Xid8 => ColumnKind::Xid8,
        PgTypeId::Date => ColumnKind::Date,
        PgTypeId::Money => ColumnKind::Money,
        PgTypeId::Time => ColumnKind::Time,
        PgTypeId::Timestamp => ColumnKind::Timestamp,
        PgTypeId::Timestamptz => ColumnKind::TimestampTz,
        PgTypeId::Timetz => ColumnKind::Timetz,
        PgTypeId::Interval => ColumnKind::Interval,
        PgTypeId::Name => ColumnKind::Name,
        PgTypeId::Tid => ColumnKind::Tid,
        PgTypeId::Text | PgTypeId::Varchar | PgTypeId::Bpchar | PgTypeId::Json | PgTypeId::Xml => ColumnKind::Utf8,
        PgTypeId::Numeric => match spec_numeric_typmod_to_arrow_type(typmod) {
            ArrowType::Decimal128(p, s) => ColumnKind::Decimal128(p, s),
            ArrowType::Decimal256(p, s) => ColumnKind::Decimal256(p, s),
            _ => ColumnKind::Binary,
        },
        PgTypeId::Uuid | PgTypeId::Macaddr | PgTypeId::Macaddr8 | PgTypeId::Point | PgTypeId::Line
        | PgTypeId::Circle | PgTypeId::Lseg | PgTypeId::Box => ColumnKind::FixedBinary(
            match t.spec_type_len() {
                PgTypeLen::Fixed(n) => n as i32,
                _ => 16,
            },
        ),
        _ => if t.is_array() {
            ColumnKind::List(t)
        } else {
            ColumnKind::Binary
        },
    }
}

/// The Arrow data type of the column a builder of kind `k` produces.
pub open spec fn spec_kind_arrow_type(k: ColumnKind) -> ArrowType {
    match k {
        ColumnKind::Bool => ArrowType::Boolean,
        ColumnKind::Int2 => ArrowType::Int16,
        ColumnKind::Int4 => ArrowType::Int32,
        ColumnKind::Int8 | ColumnKind::Money => ArrowType::Int64,
        ColumnKind::Float4 => ArrowType::Float32,
        ColumnKind::Float8 => ArrowType::Float64,
        ColumnKind::Char => ArrowType::UInt8,
        ColumnKind::Oid | ColumnKind::Xid | ColumnKind::Cid => ArrowType::UInt32,
        ColumnKind::Xid8 => ArrowType::UInt64,
        ColumnKind::Date => ArrowType::Date32,
        ColumnKind::Time | ColumnKind::Timetz => ArrowType::Time64(ArrowTimeUnit::Microsecond),
        ColumnKind::Timestamp => ArrowType::Timestamp(ArrowTimeUnit::Microsecond, None),
        ColumnKind::TimestampTz => ArrowType::Timestamp(ArrowTimeUnit::Microsecond, Some(ArrowTimeZone::Utc)),
        ColumnKind::Interval => ArrowType::Interval(ArrowIntervalUnit::MonthDayNano),
        ColumnKind::Binary | ColumnKind::Tid => ArrowType::Binary,
        ColumnKind::Utf8 | ColumnKind::Name => ArrowType::Utf8,
        ColumnKind::FixedBinary(w) => ArrowType::FixedSizeBinary(w),
        ColumnKind::Decimal128(p, s) => ArrowType::Decimal128(p, s),
        ColumnKind::Decimal256(p, s) => ArrowType::Decimal256(p, s),
        ColumnKind::List(t) => t.spec_arrow_type(),
    }
}

/// The Arrow data type of the column a builder of kind `k` produces.
pub fn kind_arrow_type(k: ColumnKind) -> (r: ArrowType)
    ensures
        r == spec_kind_arrow_type(k),
{
    match k {
        ColumnKind::Bool => ArrowType::Boolean,
        ColumnKind::Int2 => ArrowType::Int16,
        ColumnKind::Int4 => ArrowType::Int32,
        ColumnKind::Int8 | ColumnKind::Money => ArrowType::Int64,
        ColumnKind::Float4 => ArrowType::Float32,
        ColumnKind::Float8 => ArrowType::Float64,
        ColumnKind::Char => ArrowType::UInt8,
        ColumnKind::Oid | ColumnKind::Xid | ColumnKind::Cid => ArrowType::UInt32,
        ColumnKind::Xid8 => ArrowType::UInt64,
        ColumnKind::Date => ArrowType::Date32,
        ColumnKind::Time | ColumnKind::Timetz => ArrowType::Time64(ArrowTimeUnit::Microsecond),
        ColumnKind::Timestamp => ArrowType::Timestamp(ArrowTimeUnit::Microsecond, None),
        ColumnKind::TimestampTz => ArrowType::Timestamp(ArrowTimeUnit::Microsecond, Some(ArrowTimeZone::Utc)),
        ColumnKind::Interval => ArrowType::Interval(ArrowIntervalUnit::MonthDayNano),
        ColumnKind::Binary | ColumnKind::Tid => ArrowType::Binary,
        ColumnKind::Utf8 | ColumnKind::Name => ArrowType::Utf8,
        ColumnKind::FixedBinary(w) => ArrowType::FixedSizeBinary(w),
        ColumnKind::Decimal128(p, s) => ArrowType::Decimal128(p, s),
        ColumnKind::Decimal256(p, s) => ArrowType::Decimal256(p, s),
        ColumnKind::List(t) => t.arrow_type(),
    }
}

/// A builder made for a column finishes a column of the data type of the
/// column's Arrow field.
pub proof fn lemma_builder_type_matches_field(t: PgTypeId, typmod: i32)
    ensures
        spec_kind_arrow_type(spec_column_kind(t, typmod)) == spec_column_arrow_type(t, typmod),
{
}

// ── What raw bytes become ────────────────────────────────────────────────

/// Days from 1970-01-01 (the Arrow epoch) to 2000-01-01 (the PostgreSQL
/// epoch).
pub const PG_EPOCH_DAYS: i32 = 10957;

/// Microseconds from 1970-01-01 to 2000-01-01.
pub const PG_EPOCH_MICROS: i64 = 946684800000000;

/// The text of a fixed 64-byte `name`: the bytes before the first NUL when
/// they are valid UTF-8, and the empty string otherwise (or when there is no
/// NUL).
pub open spec fn name_text(b: Seq<u8>) -> Seq<char> {
    if has_nul(b) && valid_utf8(b.subrange(0, first_nul(b))) {
        decode_utf8(b.subrange(0, first_nul(b)))
    } else {
        Seq::empty()
    }
}

/// The text of a `name`'s bytes (see [`name_text`]).
pub(crate) fn name_string(bytes: &[u8]) -> (r: String)
    ensures
        r@ == name_text(bytes@),
{
    let s = match find_nul(bytes) {
        Some(n) => {
            proof {
                crate::codec::datum::lemma_first_nul(bytes@, n as int);
            }
            match utf8_to_string(slice_subrange(bytes, 0, n)) {
                Ok(s) => s,
                Err(_) => String::new(),
            }
        },
        None => String::new(),
    };
    s
}

/// The digit of `n < 16` in lower-case hexadecimal.
pub open spec fn hex_digit(n: int) -> char {
    if n < 10 {
        (48 + n) as char
    } else {
        (87 + n) as char
    }
}

/// The bytes of `b` in lower-case hexadecimal, two digits per byte.
pub open spec fn hex_text(b: Seq<u8>) -> Seq<char>
    decreases b.len(),
{
    if b.len() == 0 {
        Seq::empty()
    } else {
        hex_text(b.drop_last()) + seq![hex_digit(b.last() as int / 16), hex_digit(b.last() as int % 16)]
    }
}

/// The text of bytes kept as a string: the bytes themselves when they are
/// valid UTF-8, otherwise their hexadecimal.
pub open spec fn utf8_or_hex_text(b: Seq<u8>) -> Seq<char> {
    if valid_utf8(b) {
        decode_utf8(b)
    } else {
        hex_text(b)
    }
}

/// The text of bytes kept as a string (see [`utf8_or_hex_text`]).
pub(crate) fn utf8_or_hex_string(bytes: &[u8]) -> (r: String)
    ensures
        r@ == utf8_or_hex_text(bytes@),
{
    match utf8_to_string(bytes) {
        Ok(s) => s,
        Err(_) => hex_string(bytes),
    }
}

/// The hexadecimal digit of `n < 16` as a one-character string.
pub(crate) fn hex_digit_str(n: u8) -> (r: &'static str)
    requires
        n < 16,
    ensures
        r@ == seq![hex_digit(n as int)],
{
    match n {
        0 => { proof { reveal_strlit("0"); } "0" },
        1 => { proof { reveal_strlit("1"); } "1" },
        2 => { proof { reveal_strlit("2"); } "2" },
        3 => { proof { reveal_strlit("3"); } "3" },
        4 => { proof { reveal_strlit("4"); } "4" },
        5 => { proof { reveal_strlit("5"); } "5" },
        6 => { proof { reveal_strlit("6"); } "6" },
        7 => { proof { reveal_strlit("7"); } "7" },
        8 => { proof { reveal_strlit("8"); } "8" },
        9 => { proof { reveal_strlit("9"); } "9" },
        10 => { proof { reveal_strlit("a"); } "a" },
        11 => { proof { reveal_strlit("b"); } "b" },
        12 => { proof { reveal_strlit("c"); } "c" },
        13 => { proof { reveal_strlit("d"); } "d" },
        14 => { proof { reveal_strlit("e"); } "e" },
        _ => { proof { reveal_strlit("f"); } "f" },
    }
}

/// The bytes of `bytes` in lower-case hexadecimal.
pub(crate) fn hex_string(bytes: &[u8]) -> (r: String)
    ensures
        r@ == hex_text(bytes@),
{
    let mut s = String::new();
    let mut i: usize = 0;
    while i < bytes.len()
        invariant
            i <= bytes@.len(),
            s@ == hex_text(bytes@.subrange(0, i as int)),
        decreases bytes@.len() - i,
    {
        let b = bytes[i];
        s.append(hex_digit_str(b / 16));
        s.append(hex_digit_str(b % 16));
        proof {
            let pre = bytes@.subrange(0, i as int + 1);
            assert(pre.drop_last() =~= bytes@.subrange(0, i as int));
            assert(pre.last() == b);
        }
        i = i + 1;
    }
    assert(bytes@.subrange(0, bytes@.len() as int) =~= bytes@);
    s
}

/// A decimal value of scale `from` brought to a scale `diff` places larger:
/// multiplied by `10^diff` (saturating) or divided by `10^-diff` (truncating).
pub open spec fn rescale_i128(v: int, diff: int) -> int {
    if diff > 0 {
        sat_i128(v * pow10(diff as nat))
    } else if diff < 0 {
        trunc_div(v, pow10((-diff) as nat))
    } else {
        v
    }
}

/// The 256-bit counterpart of [`rescale_i128`], wrapping instead of
/// saturating.
pub open spec fn rescale_i256(v: int, diff: int) -> int {
    if diff > 0 {
        wrap256(v * pow10(diff as nat))
    } else if diff < 0 {
        wrap256(trunc_div(v, pow10((-diff) as nat)))
    } else {
        v
    }
}

/// The microseconds of an `interval` (bytes 0..8) in nanoseconds.
pub open spec fn interval_nanos(b: Seq<u8>) -> int {
    (le64(b, 0) as i64) * 1000
}

/// The detail of the error for an interval whose microseconds do not fit
/// in 64-bit nanoseconds.
pub open spec fn interval_overflow_detail() -> Seq<char> {
    "interval microseconds out of range for nanoseconds"@
}

/// The detail of the error for a non-null value in an array column.
pub open spec fn array_value_detail() -> Seq<char> {
    "array values are not supported"@
}

/// What appending the raw column bytes `b` to a builder of kind `k` adds:
/// `Ok(Some(value))`, `Ok(None)` for a null (a NUMERIC NaN or infinity), or
/// the error's detail: a fixed-size binary value of the wrong width, an
/// interval out of the nanosecond range, or a value of an array column.
/// Integers are read little-endian; an interval's 16 bytes are its
/// microseconds (0..8), days (8..12) and months (12..16).
pub open spec fn spec_append_bytes(k: ColumnKind, b: Seq<u8>) -> Result<Option<ArrowValueView>, Seq<char>> {
    match k {
        ColumnKind::Bool => Ok(Some(ArrowValueView::Boolean(b.len() > 0 && b[0] != 0))),
        ColumnKind::Int2 => Ok(Some(ArrowValueView::Int16(le16(b, 0) as i16))),
        ColumnKind::Int4 => Ok(Some(ArrowValueView::Int32(le32(b, 0) as i32))),
        ColumnKind::Int8 | ColumnKind::Money | ColumnKind::Time | ColumnKind::Timetz => Ok(
            Some(ArrowValueView::Int64(le64(b, 0) as i64)),
        ),
        ColumnKind::Float4 => Ok(Some(ArrowValueView::Float32(le32(b, 0) as u32))),
        ColumnKind::Float8 => Ok(Some(ArrowValueView::Float64(le64(b, 0) as u64))),
        ColumnKind::Char => Ok(Some(ArrowValueView::UInt8(b[0]))),
        ColumnKind::Oid | ColumnKind::Xid | ColumnKind::Cid => Ok(Some(ArrowValueView::UInt32(le32(b, 0) as u32))),
        ColumnKind::Xid8 => Ok(Some(ArrowValueView::UInt64(le64(b, 0) as u64))),
        ColumnKind::Date => Ok(Some(ArrowValueView::Int32(((le32(b, 0) as i32) + PG_EPOCH_DAYS) as i32))),
        ColumnKind::Timestamp | ColumnKind::TimestampTz => Ok(
            Some(ArrowValueView::Int64(((le64(b, 0) as i64) + PG_EPOCH_MICROS) as i64)),
        ),
        ColumnKind::Interval => if i64::MIN <= interval_nanos(b) <= i64::MAX {
            Ok(
                Some(
                    ArrowValueView::IntervalMonthDayNano {
                        months: le32(b, 12) as i32,
                        days: le32(b, 8) as i32,
                        nanoseconds: interval_nanos(b) as i64,
                    },
                ),
            )
        } else {
            Err(interval_overflow_detail())
        },
        ColumnKind::Name => Ok(Some(ArrowValueView::Utf8(name_text(b)))),
        ColumnKind::Utf8 => Ok(Some(ArrowValueView::Utf8(utf8_lossy(b)))),
        ColumnKind::Decimal128(_, s) => match spec_decode_pg_numeric_i128(b) {
            None => Ok(None),
            Some((v, a)) => Ok(Some(ArrowValueView::Decimal128(rescale_i128(v, s - a)))),
        },
        ColumnKind::Decimal256(_, s) => match spec_decode_pg_numeric_i256(b) {
            None => Ok(None),
            Some((v, a)) => Ok(Some(ArrowValueView::Decimal256(rescale_i256(v, s - a)))),
        },
        ColumnKind::Tid | ColumnKind::Binary => Ok(Some(ArrowValueView::Binary(b))),
        ColumnKind::FixedBinary(w) => if b.len() == w {
            Ok(Some(ArrowValueView::Binary(b)))
        } else {
            Err(fixed_width_mismatch_detail())
        },
        ColumnKind::List(_) => Err(array_value_detail()),
    }
}

/// Timestamps land on the Unix epoch: appending the bytes of a `timestamp`
/// or `timestamptz` gives the microseconds the datum decoder reads from them
/// (microseconds since 2000-01-01) plus the 946,684,800,000,000
/// microseconds from 1970-01-01 to 2000-01-01, the same for both kinds.
pub proof fn lemma_timestamps_on_unix_epoch(b: Seq<u8>)
    requires
        append_bytes_defined(ColumnKind::Timestamp, b),
    ensures
        spec_decode_fixed(PgTypeId::Timestamp, b) matches Ok(PgDatumView::Timestamp(v)) && spec_append_bytes(
            ColumnKind::Timestamp,
            b,
        ) == Ok::<Option<ArrowValueView>, Seq<char>>(Some(ArrowValueView::Int64((v + 946_684_800_000_000) as i64))),
        spec_decode_fixed(PgTypeId::Timestamptz, b) matches Ok(PgDatumView::TimestampTz(v)) && spec_append_bytes(
            ColumnKind::TimestampTz,
            b,
        ) == Ok::<Option<ArrowValueView>, Seq<char>>(Some(ArrowValueView::Int64((v + 946_684_800_000_000) as i64))),
        spec_append_bytes(ColumnKind::Timestamp, b) == spec_append_bytes(ColumnKind::TimestampTz, b),
{
    let v = le64(b, 0) as i64;
    assert(spec_decode_fixed(PgTypeId::Timestamp, b) == Ok::<PgDatumView, DecodeErrorView>(PgDatumView::Timestamp(v)));
    assert(spec_decode_fixed(PgTypeId::Timestamptz, b) == Ok::<PgDatumView, DecodeErrorView>(PgDatumView::TimestampTz(v)));
}

/// Dates land on the Unix epoch: appending the bytes of a `date` gives the
/// days the datum decoder reads (days since 2000-01-01) plus the 10,957
/// days from 1970-01-01 to 2000-01-01.
pub proof fn lemma_dates_on_unix_epoch(b: Seq<u8>)
    requires
        append_bytes_defined(ColumnKind::Date, b),
    ensures
        spec_decode_fixed(PgTypeId::Date, b) matches Ok(PgDatumView::Date(d)) && spec_append_bytes(ColumnKind::Date, b)
            == Ok::<Option<ArrowValueView>, Seq<char>>(Some(ArrowValueView::Int32((d + 10_957) as i32))),
{
}

/// Times keep their microseconds: appending the bytes of a `time` gives
/// the value the datum decoder reads, and of a `timetz` its time of day
/// (the zone offset is dropped).
pub proof fn lemma_times_keep_microseconds(b: Seq<u8>)
    requires
        b.len() >= 12,
    ensures
        spec_decode_fixed(PgTypeId::Time, b) matches Ok(PgDatumView::Time(v)) && spec_append_bytes(ColumnKind::Time, b)
            == Ok::<Option<ArrowValueView>, Seq<char>>(Some(ArrowValueView::Int64(v))),
        spec_decode_fixed(PgTypeId::Timetz, b) matches Ok(PgDatumView::TimeTz { time_usec, .. }) && spec_append_bytes(
            ColumnKind::Timetz,
            b,
        ) == Ok::<Option<ArrowValueView>, Seq<char>>(Some(ArrowValueView::Int64(time_usec))),
{
}

/// An interval keeps its months and days and turns its microseconds into
/// nanoseconds: appending its bytes gives the decoded months, days and
/// microseconds times 1000, or an error when that product leaves the
/// 64-bit range.
pub proof fn lemma_interval_in_nanoseconds(b: Seq<u8>)
    requires
        b.len() >= 16,
    ensures
        spec_decode_fixed(PgTypeId::Interval, b) matches Ok(PgDatumView::Interval { microseconds, days, months }) && if i64::MIN
            <= microseconds * 1000 <= i64::MAX {
            spec_append_bytes(ColumnKind::Interval, b) == Ok::<Option<ArrowValueView>, Seq<char>>(
                Some(ArrowValueView::IntervalMonthDayNano { months, days, nanoseconds: (microseconds * 1000) as i64 }),
            )
        } else {
            spec_append_bytes(ColumnKind::Interval, b) is Err
        },
{
}

/// Whether a decoded NUMERIC of scale `a` can be brought to scale `s`: the
/// difference fits in an `i8` and its power of ten in an `i128`.
pub open spec fn rescale_defined(s: i8, a: i8) -> bool {
    -38 <= s - a <= 38
}

/// Whether appending `b` to a builder of kind `k` is defined: the bytes are
/// long enough for the kind's fixed width, the epoch shift of dates and
/// timestamps does not overflow, and a NUMERIC decodes and rescales within
/// the ranges of its fixed-width arithmetic. (These are the inputs on which
/// appending would panic.)
pub open spec fn append_bytes_defined(k: ColumnKind, b: Seq<u8>) -> bool {
    match k {
        ColumnKind::Int2 => b.len() >= 2,
        ColumnKind::Int4 | ColumnKind::Float4 | ColumnKind::Oid | ColumnKind::Xid | ColumnKind::Cid => b.len() >= 4,
        ColumnKind::Int8 | ColumnKind::Float8 | ColumnKind::Xid8 | ColumnKind::Money | ColumnKind::Time
        | ColumnKind::Timetz => b.len() >= 8,
        ColumnKind::Char => b.len() >= 1,
        ColumnKind::Date => b.len() >= 4 && (le32(b, 0) as i32) + PG_EPOCH_DAYS <= i32::MAX,
        ColumnKind::Timestamp | ColumnKind::TimestampTz => b.len() >= 8 && (le64(b, 0) as i64) + PG_EPOCH_MICROS
            <= i64::MAX,
        ColumnKind::Interval => b.len() >= 16,
        ColumnKind::Decimal128(_, s) => {
            &&& b.len() <= i32::MAX
            &&& numeric_i128_defined(b)
            &&& spec_decode_pg_numeric_i128(b) matches Some((v, a)) ==> rescale_defined(s, a)
        },
        ColumnKind::Decimal256(_, s) => {
            &&& b.len() <= i32::MAX
            &&& numeric_i256_defined(b)
            &&& spec_decode_pg_numeric_i256(b) matches Some((v, a)) ==> rescale_defined(s, a)
        },
        _ => true,
    }
}

/// The text of the error that arrow's fixed-size binary builder reports
/// for a value of the wrong width.
pub open spec fn fixed_width_mismatch_detail() -> Seq<char> {
    "Invalid argument error: Byte slice does not have the same length as FixedSizeBinaryBuilder value lengths"@
}

/// `FixedSizeBinaryBuilder::append_value` (arrow-array) on a builder of
/// byte width `width`, with the error's `Display` text: the value is
/// accepted exactly when its length equals the width, and refused with
/// that builder's one error text otherwise.
#[verifier::external_body]
fn fixed_size_binary_accepts(width: i32, value: &[u8]) -> (r: Result<(), String>)
    requires
        width >= 0,
        value@.len() <= i32::MAX,
    ensures
        r is Ok <==> value@.len() == width,
        r matches Err(m) ==> m@ == fixed_width_mismatch_detail(),
{
    let mut builder = arrow::array::FixedSizeBinaryBuilder::with_capacity(1, width);
    builder.append_value(value).map_err(|e| e.to_string())
}

/// Whether appending `bytes` to a builder of kind `kind` is defined:
/// exactly [`append_bytes_defined`].
pub fn append_bytes_is_defined(kind: ColumnKind, bytes: &[u8]) -> (r: bool)
    ensures
        r == append_bytes_defined(kind, bytes@),
{
    let n = bytes.len();
    match kind {
        ColumnKind::Int2 => n >= 2,
        ColumnKind::Int4 | ColumnKind::Float4 | ColumnKind::Oid | ColumnKind::Xid | ColumnKind::Cid => n >= 4,
        ColumnKind::Int8 | ColumnKind::Float8 | ColumnKind::Xid8 | ColumnKind::Money | ColumnKind::Time
        | ColumnKind::Timetz => n >= 8,
        ColumnKind::Char => n >= 1,
        ColumnKind::Date => n >= 4 && read_i32(bytes, 0) <= i32::MAX - PG_EPOCH_DAYS,
        ColumnKind::Timestamp | ColumnKind::TimestampTz => n >= 8 && read_i64(bytes, 0) <= i64::MAX - PG_EPOCH_MICROS,
        ColumnKind::Interval => n >= 16,
        ColumnKind::Decimal128(_, s) => {
            if n > 0x7fff_ffff || !numeric_i128_is_defined(bytes) {
                return false;
            }
            match decode_pg_numeric_i128(bytes) {
                Some((_, a)) => -38 <= (s as i16) - (a as i16) && (s as i16) - (a as i16) <= 38,
                None => true,
            }
        },
        ColumnKind::Decimal256(_, s) => {
            if n > 0x7fff_ffff || !numeric_i256_is_defined(bytes) {
                return false;
            }
            match decode_pg_numeric_i256(bytes) {
                Some((_, a)) => -38 <= (s as i16) - (a as i16) && (s as i16) - (a as i16) <= 38,
                None => true,
            }
        },
        _ => true,
    }
}

/// Whether appending `bytes` to a builder of kind `kind` fails (see
/// [`spec_append_bytes`]).
pub fn append_bytes_fails(kind: ColumnKind, bytes: &[u8]) -> (r: bool)
    requires
        append_bytes_defined(kind, bytes@),
    ensures
        r == spec_append_bytes(kind, bytes@) is Err,
{
    match kind {
        ColumnKind::Interval => read_i64(bytes, 0).checked_mul(1000).is_none(),
        ColumnKind::FixedBinary(w) => w < 0 || bytes.len() != w as usize,
        ColumnKind::List(_) => true,
        _ => false,
    }
}

// ── The builder ──────────────────────────────────────────────────────────

/// Arrow column builder that accepts raw PostgreSQL on-disk bytes directly.
///
/// [`append_bytes`](ColumnBuilder::append_bytes) interprets the bytes
/// according to the builder's kind and appends the value;
/// [`append_null`](ColumnBuilder::append_null) appends a null.
#[derive(Debug)]
pub struct ColumnBuilder {
    kind: ColumnKind,
    values: Vec<Option<ArrowValue>>,
}

/// The abstract state of a [`ColumnBuilder`]: its kind and the values
/// appended so far.
pub ghost struct ColumnBuilderView {
    pub kind: ColumnKind,
    pub values: Seq<Option<ArrowValueView>>,
}

impl View for ColumnBuilder {
    type V = ColumnBuilderView;

    closed spec fn view(&self) -> ColumnBuilderView {
        ColumnBuilderView { kind: self.kind, values: values_view(self.values@) }
    }
}

impl ColumnBuilder {
    /// Create a builder for the given PostgreSQL type; `capacity` is the
    /// number of rows expected (an allocation hint). For NUMERIC columns use
    /// [`ColumnBuilder::for_column`], which keeps the typmod.
    pub fn new(type_id: PgTypeId, capacity: usize) -> (r: Self)
        ensures
            r@.kind == spec_column_kind(type_id, -1i32),
            r@.values == Seq::<Option<ArrowValueView>>::empty(),
    {
        Self::new_inner(type_id, -1, capacity)
    }

    /// Create a builder from a full column descriptor, keeping the typmod of
    /// NUMERIC columns. The column it finishes has the data type of the
    /// column's Arrow field.
    pub fn for_column(col: &PgColumn, capacity: usize) -> (r: Self)
        ensures
            r@.kind == spec_column_kind(col.type_id, col.typmod),
            r@.values == Seq::<Option<ArrowValueView>>::empty(),
            spec_kind_arrow_type(r@.kind) == spec_column_arrow_type(col.type_id, col.typmod),
    {
        proof {
            lemma_builder_type_matches_field(col.type_id, col.typmod);
        }
        Self::new_inner(col.type_id, col.typmod, capacity)
    }

    fn new_inner(type_id: PgTypeId, typmod: i32, capacity: usize) -> (r: Self)
        ensures
            r@.kind == spec_column_kind(type_id, typmod),
            r@.values == Seq::<Option<ArrowValueView>>::empty(),
    {
        let kind = match type_id {
            PgTypeId::Bool => ColumnKind::Bool,
            PgTypeId::Int2 => ColumnKind::Int2,
            PgTypeId::Int4 => ColumnKind::Int4,
            PgTypeId::Int8 => ColumnKind::Int8,
            PgTypeId::Float4 => ColumnKind::Float4,
            PgTypeId::Float8 => ColumnKind::Float8,
            PgTypeId::Char => ColumnKind::Char,
            PgTypeId::Oid => ColumnKind::Oid,
            PgTypeId::Xid => ColumnKind::Xid,
            PgTypeId::Cid => ColumnKind::Cid,
            PgTypeId::Xid8 => ColumnKind::Xid8,
            PgTypeId::Date => ColumnKind::Date,
            PgTypeId::Money => ColumnKind::Money,
            PgTypeId::Time => ColumnKind::Time,
            PgTypeId::Timestamp => ColumnKind::Timestamp,
            PgTypeId::Timestamptz => ColumnKind::TimestampTz,
            PgTypeId::Timetz => ColumnKind::Timetz,
            PgTypeId::Interval => ColumnKind::Interval,
            PgTypeId::Name => ColumnKind::Name,
            PgTypeId::Tid => ColumnKind::Tid,
            PgTypeId::Text | PgTypeId::Varchar | PgTypeId::Bpchar | PgTypeId::Json | PgTypeId::Xml => {
                ColumnKind::Utf8
            },
            PgTypeId::Numeric => match numeric_typmod_to_arrow_type(typmod) {
                ArrowType::Decimal128(p, s) => ColumnKind::Decimal128(p, s),
                ArrowType::Decimal256(p, s) => ColumnKind::Decimal256(p, s),
                _ => ColumnKind::Binary,
            },
            // Fixed-size binary: UUID(16), MacAddr(6), MacAddr8(8), Point(16),
            // Line(24), Circle(24), Lseg(32), Box(32)
            PgTypeId::Uuid | PgTypeId::Macaddr | PgTypeId::Macaddr8 | PgTypeId::Point | PgTypeId::Line
            | PgTypeId::Circle | PgTypeId::Lseg | PgTypeId::Box => {
                let byte_width = match type_id.type_len() {
                    PgTypeLen::Fixed(n) => n as i32,
                    _ => 16,
                };
                ColumnKind::FixedBinary(byte_width)
            },
            PgTypeId::BoolArray | PgTypeId::ByteaArray | PgTypeId::CharArray | PgTypeId::NameArray
            | PgTypeId::Int2Array | PgTypeId::Int4Array | PgTypeId::TextArray | PgTypeId::TidArray
            | PgTypeId::XidArray | PgTypeId::CidArray | PgTypeId::VarcharArray | PgTypeId::Int8Array
            | PgTypeId::Float4Array | PgTypeId::Float8Array | PgTypeId::OidArray | PgTypeId::TimestampArray
            | PgTypeId::DateArray | PgTypeId::TimeArray | PgTypeId::TimestamptzArray | PgTypeId::NumericArray
            | PgTypeId::UuidArray | PgTypeId::JsonbArray => ColumnKind::List(type_id),
            // Everything else: variable-length binary
            _ => ColumnKind::Binary,
        };
        let values: Vec<Option<ArrowValue>> = Vec::new();
        proof {
            assert(values_view(values@) =~= Seq::<Option<ArrowValueView>>::empty());
        }
        ColumnBuilder { kind, values }
    }

    /// The kind of column this builder fills.
    pub fn kind(&self) -> (r: ColumnKind)
        ensures
            r == self@.kind,
    {
        self.kind
    }

    /// Number of values (nulls included) appended so far.
    pub fn len(&self) -> (r: usize)
        ensures
            r == self@.values.len(),
    {
        self.values.len()
    }

    /// An empty builder of the given kind.
    pub(crate) fn with_kind(kind: ColumnKind) -> (r: Self)
        ensures
            r@.kind == kind,
            r@.values == Seq::<Option<ArrowValueView>>::empty(),
    {
        let values: Vec<Option<ArrowValue>> = Vec::new();
        proof {
            assert(values_view(values@) =~= Seq::<Option<ArrowValueView>>::empty());
        }
        ColumnBuilder { kind, values }
    }

    pub(crate) fn push(&mut self, v: Option<ArrowValue>)
        ensures
            final(self)@.kind == old(self)@.kind,
            final(self)@.values == old(self)@.values.push(
                match v {
                    Some(x) => Some(x@),
                    None => None,
                },
            ),
    {
        self.values.push(v);
        proof {
            assert(values_view(self.values@) =~= values_view(old(self).values@).push(
                match v {
                    Some(x) => Some(x@),
                    None => None,
                },
            ));
        }
    }

    /// Append a null value.
    pub fn append_null(&mut self)
        ensures
            final(self)@.kind == old(self)@.kind,
            final(self)@.values == old(self)@.values.push(None),
    {
        self.push(None);
    }

    fn append_bool(&mut self, val: bool)
        ensures
            final(self)@.kind == old(self)@.kind,
            final(self)@.values == if old(self)@.kind == ColumnKind::Bool {
                old(self)@.values.push(Some(ArrowValueView::Boolean(val)))
            } else {
                old(self)@.values
            },
    {
        if self.kind == ColumnKind::Bool {
            self.push(Some(ArrowValue::Boolean(val)));
        }
    }

    /// Interpret raw PostgreSQL bytes and append the value.
    ///
    /// `bytes` is the raw column data (for fixed-width types) or the varlena
    /// payload (for variable-length types). A NUMERIC NaN or infinity is
    /// appended as a null. The one error is a fixed-size binary value of the
    /// wrong width, which appends nothing.
    pub fn append_bytes(&mut self, bytes: &[u8]) -> (r: Result<(), PgError>)
        requires
            append_bytes_defined(old(self)@.kind, bytes@),
        ensures
            final(self)@.kind == old(self)@.kind,
            match spec_append_bytes(old(self)@.kind, bytes@) {
                Ok(v) => r is Ok && final(self)@.values == old(self)@.values.push(v),
                    Err(m) => r matches Err(e) && e matches PgError::ArrowConversionFailed { detail } && detail@ == m
                    && final(self)@.values == old(self)@.values,
            },
    {
        match self.kind {
            ColumnKind::Bool => {
                let v = if bytes.len() > 0 {
                    bytes[0] != 0
                } else {
                    false
                };
                self.append_bool(v);
            },
            ColumnKind::Int2 => self.push(Some(ArrowValue::Int16(read_i16(bytes, 0)))),
            ColumnKind::Int4 => self.push(Some(ArrowValue::Int32(read_i32(bytes, 0)))),
            ColumnKind::Int8 | ColumnKind::Money | ColumnKind::Time | ColumnKind::Timetz => {
                // for timetz: 8 bytes time_usec then 4 bytes zone offset; the
                // time alone is kept
                self.push(Some(ArrowValue::Int64(read_i64(bytes, 0))))
            },
            ColumnKind::Float4 => self.push(Some(ArrowValue::Float32(read_u32(bytes, 0)))),
            ColumnKind::Float8 => self.push(Some(ArrowValue::Float64(read_u64(bytes, 0)))),
            ColumnKind::Char => self.push(Some(ArrowValue::UInt8(bytes[0]))),
            ColumnKind::Oid | ColumnKind::Xid | ColumnKind::Cid => self.push(Some(ArrowValue::UInt32(read_u32(bytes, 0)))),
            ColumnKind::Xid8 => self.push(Some(ArrowValue::UInt64(read_u64(bytes, 0)))),
            ColumnKind::Date => {
                // days since 2000-01-01 → days since 1970-01-01
                let pg_days = read_i32(bytes, 0);
                self.push(Some(ArrowValue::Int32(pg_days + PG_EPOCH_DAYS)))
            },
            ColumnKind::Timestamp | ColumnKind::TimestampTz => {
                // µs since 2000-01-01 → µs since 1970-01-01
                let pg_us = read_i64(bytes, 0);
                self.push(Some(ArrowValue::Int64(pg_us + PG_EPOCH_MICROS)))
            },
            ColumnKind::Interval => {
                // 8 bytes µs + 4 days + 4 months → months, days, ns
                let micros = read_i64(bytes, 0);
                let days = read_i32(bytes, 8);
                let months = read_i32(bytes, 12);
                match micros.checked_mul(1000) {
                    Some(nanoseconds) => self.push(
                        Some(ArrowValue::IntervalMonthDayNano { months, days, nanoseconds }),
                    ),
                    None => {
                        proof {
                            reveal_strlit("interval microseconds out of range for nanoseconds");
                        }
                        return Err(
                            PgError::ArrowConversionFailed {
                                detail: String::from_str("interval microseconds out of range for nanoseconds"),
                            },
                        )
                    },
                }
            },
            ColumnKind::Name => {
                // fixed 64-byte NUL-padded C string
                self.push(Some(ArrowValue::Utf8(name_string(bytes))))
            },
            ColumnKind::Utf8 => {
                // invalid UTF-8 (e.g. a Windows-1251 database) is replaced by U+FFFD
                let s = utf8_to_string_lossy(bytes);
                self.push(Some(ArrowValue::Utf8(s)))
            },
            ColumnKind::Decimal128(_, target_scale) => {
                match decode_pg_numeric_i128(bytes) {
                    None => self.push(None),
                    Some((val, actual_scale)) => {
                        let diff = target_scale - actual_scale;
                        let v = rescale_value_i128(val, diff);
                        self.push(Some(ArrowValue::Decimal128(v)))
                    },
                }
            },
            ColumnKind::Decimal256(_, target_scale) => {
                match decode_pg_numeric_i256(bytes) {
                    None => self.push(None),
                    Some((val, actual_scale)) => {
                        let diff = target_scale - actual_scale;
                        let v = rescale_value_i256(val, diff);
                        self.push(Some(ArrowValue::Decimal256(v)))
                    },
                }
            },
            ColumnKind::Tid | ColumnKind::Binary => {
                // a tid is its 6 raw bytes
                self.push(Some(ArrowValue::Binary(slice_to_vec(bytes))))
            },
            ColumnKind::FixedBinary(w) => {
                if w < 0 || bytes.len() > 0x7fff_ffff {
                    // no length fits such a width
                    proof {
                        reveal_strlit(
                            "Invalid argument error: Byte slice does not have the same length as FixedSizeBinaryBuilder value lengths",
                        );
                    }
                    return Err(
                        PgError::ArrowConversionFailed {
                            detail: String::from_str(
                                "Invalid argument error: Byte slice does not have the same length as FixedSizeBinaryBuilder value lengths",
                            ),
                        },
                    );
                }
                match fixed_size_binary_accepts(w, bytes) {
                    Ok(()) => self.push(Some(ArrowValue::Binary(slice_to_vec(bytes)))),
                    Err(detail) => return Err(PgError::ArrowConversionFailed { detail }),
                }
            },
            ColumnKind::List(_) => {
                proof {
                    reveal_strlit("array values are not supported");
                }
                return Err(PgError::ArrowConversionFailed { detail: String::from_str("array values are not supported") });
            },
        }
        Ok(())
    }

    /// Finish building: the column's Arrow data type and its values.
    pub fn finish(self) -> (r: ArrowArray)
        ensures
            r.data_type == spec_kind_arrow_type(self@.kind),
            values_view(r.values@) == self@.values,
    {
        ArrowArray { data_type: kind_arrow_type(self.kind), values: self.values }
    }
}

/// Bring a decoded 128-bit decimal `diff` places up in scale.
fn rescale_value_i128(val: i128, diff: i8) -> (r: i128)
    requires
        -38 <= diff <= 38,
    ensures
        r == rescale_i128(val as int, diff as int),
{
    if diff > 0 {
        let p = pow10_i128(diff as u32);
        proof {
            lemma_pow10_monotone(0, diff as nat);
        }
        sat_mul_i128(val, p)
    } else if diff < 0 {
        let p = pow10_i128((-diff) as u32);
        proof {
            lemma_pow10_monotone(1, (-diff) as nat);
        }
        trunc_div_i128(val, p)
    } else {
        val
    }
}

/// Bring a decoded 256-bit decimal `diff` places up in scale.
fn rescale_value_i256(val: I256, diff: i8) -> (r: I256)
    requires
        -38 <= diff <= 38,
    ensures
        r.value() == rescale_i256(val.value(), diff as int),
{
    if diff > 0 {
        let p = i256_from_i128(pow10_i128(diff as u32));
        i256_wrapping_mul(val, p)
    } else if diff < 0 {
        let p = i256_from_i128(pow10_i128((-diff) as u32));
        proof {
            lemma_pow10_monotone(0, (-diff) as nat);
        }
        i256_wrapping_div(val, p)
    } else {
        val
    }
}

// ── Byte extractors ──────────────────────────────────────────────────────

/// Where the bytes of a column of on-disk length `len` at `data[offset]`
/// lie: `(start, end, consumed)` with the column's bytes at
/// `data[start..end]` and `consumed` bytes taken from `offset` on, or the
/// error detail.
///
/// - fixed width `n`: the `n` bytes at `offset`;
/// - varlena: the payload after the header (see `spec_varlena_header`);
/// - cstring: the bytes before the first NUL, which is consumed too.
pub open spec fn spec_extract_column_bytes(len: PgTypeLen, data: Seq<u8>, offset: int) -> Result<
    (int, int, int),
    Seq<char>,
> {
    match len {
        PgTypeLen::Fixed(n) => if offset + n <= data.len() {
            Ok((offset, offset + n, n as int))
        } else {
            Err("buffer too short for fixed column"@)
        },
        PgTypeLen::Varlena => match spec_varlena_header(data, offset) {
            Err(e) => Err(decode_error_text(e)),
            Ok((s, l)) => if s + l <= data.len() {
                Ok((s, s + l, s + l - offset))
            } else {
                Err("buffer too short for varlena payload"@)
            },
        },
        PgTypeLen::CString => if offset > data.len() {
            Err("buffer too short for cstring"@)
        } else if !has_nul(data.subrange(offset, data.len() as int)) {
            Err("missing null terminator in cstring"@)
        } else {
            let n = first_nul(data.subrange(offset, data.len() as int));
            Ok((offset, offset + n, n + 1))
        },
    }
}

/// Extract the raw bytes of a column from tuple data; returns `(bytes,
/// bytes_consumed)`.
///
/// For fixed-length types the bytes are `data[offset..offset + n]`; for
/// varlena types the payload after the varlena header (a header error is
/// reported with the header error's message); for cstrings the bytes up to,
/// not including, the NUL terminator.
pub fn extract_column_bytes<'a>(type_len: PgTypeLen, data: &'a [u8], offset: usize) -> (r: Result<
    (&'a [u8], usize),
    PgError,
>)
    requires
        data@.len() <= isize::MAX,
        offset <= isize::MAX,
    ensures
        match (r, spec_extract_column_bytes(type_len, data@, offset as int)) {
            (Ok((b, c)), Ok((s, e, sc))) => b@ == data@.subrange(s, e) && c == sc,
            (Err(PgError::DecodeError(m)), Err(sm)) => m@ == sm,
            _ => false,
        },
{
    match type_len {
        PgTypeLen::Fixed(n) => {
            let n = n as usize;
            let end = offset + n;
            if end > data.len() {
                return Err(PgError::DecodeError(String::from_str("buffer too short for fixed column")));
            }
            Ok((slice_subrange(data, offset, end), n))
        },
        PgTypeLen::Varlena => {
            let (payload_start, payload_len) = match read_varlena_header(data, offset) {
                Ok(h) => h,
                Err(e) => return Err(PgError::DecodeError(e.message())),
            };
            if payload_len > data.len() || payload_start > data.len() - payload_len {
                return Err(PgError::DecodeError(String::from_str("buffer too short for varlena payload")));
            }
            let payload_end = payload_start + payload_len;
            Ok((slice_subrange(data, payload_start, payload_end), payload_end - offset))
        },
        PgTypeLen::CString => {
            if offset > data.len() {
                return Err(PgError::DecodeError(String::from_str("buffer too short for cstring")));
            }
            let remaining = slice_subrange(data, offset, data.len());
            match find_nul(remaining) {
                Some(nul_pos) => Ok((slice_subrange(remaining, 0, nul_pos), nul_pos + 1)),
                None => Err(PgError::DecodeError(String::from_str("missing null terminator in cstring"))),
            }
        },
    }
}

/// Fast path for fixed-width columns: the `n` bytes at `offset`, and `n`.
pub fn extract_fixed_bytes<'a>(data: &'a [u8], offset: usize, n: usize) -> (r: (&'a [u8], usize))
    requires
        offset + n <= data@.len() <= isize::MAX,
    ensures
        r.0@ == data@.subrange(offset as int, offset + n),
        r.1 == n,
{
    (slice_subrange(data, offset, offset + n), n)
}

} // verus!
