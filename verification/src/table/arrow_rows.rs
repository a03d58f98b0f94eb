//! Conversion of decoded rows into Arrow column data, one column at a
//! time.

use vstd::prelude::*;
use vstd::slice::slice_to_vec;

use crate::codec::datum::PgDatumView;
use crate::codec::{PgDatum, PgTypeId};
use crate::file::error::{PgError, Result};
use crate::messages::{
    datum_debug, index_label, mismatch_detail, mismatch_prefix, type_id_debug, unsupported_detail, unsupported_prefix,
};
use crate::table::PgRow;
use crate::types::arrow::{ArrowIntervalUnit, ArrowTimeUnit, ArrowTimeZone, ArrowType};
use crate::types::column_builder::{
    append_bytes_defined, spec_append_bytes, spec_column_kind, spec_kind_arrow_type,
    ColumnBuilderView, ColumnKind, name_string, name_text, utf8_or_hex_string, utf8_or_hex_text, values_view, ArrowArray, ArrowRecordBatch, ArrowValue,
    ArrowValueView,
};
use crate::types::batch::{array_types, array_values, batch_problem, check_batch};
use crate::types::{spec_column_arrow_type, PgColumn, PgSchema};

verus! {

// ── Little-endian byte strings ───────────────────────────────────────────

/// The `n` low bytes of `v`, least significant first.
pub open spec fn le_bytes(v: int, n: nat) -> Seq<u8>
    decreases n,
{
    if n == 0 {
        Seq::empty()
    } else {
        seq![(v % 256) as u8] + le_bytes(v / 256, (n - 1) as nat)
    }
}

/// Append the `n` low bytes of `v` to `buf`, least significant first.
fn push_le(buf: &mut Vec<u8>, v: u64, n: usize)
    requires
        n <= 8,
    ensures
        final(buf)@ == old(buf)@ + le_bytes(v as int, n as nat),
{
    let mut x = v;
    let mut i: usize = 0;
    while i < n
        invariant
            i <= n,
            buf@ + le_bytes(x as int, (n - i) as nat) == old(buf)@ + le_bytes(v as int, n as nat),
        decreases n - i,
    {
        let ghost before = buf@;
        proof {
            assert(le_bytes(x as int, (n - i) as nat) == seq![(x % 256) as u8] + le_bytes(x as int / 256, (n - i - 1) as nat));
        }
        buf.push((x % 256) as u8);
        proof {
            assert(buf@ + le_bytes(x as int / 256, (n - i - 1) as nat) =~= before + (seq![(x % 256) as u8] + le_bytes(
                x as int / 256,
                (n - i - 1) as nat,
            )));
        }
        x = x / 256;
        i = i + 1;
    }
    assert(buf@ + le_bytes(x as int, 0) =~= buf@);
}

// ── One datum as an Arrow value ──────────────────────────────────────────

/// The Arrow data type of the column that rows of type `t` convert to.
pub open spec fn spec_rows_arrow_type(t: PgTypeId) -> ArrowType {
    match t {
        PgTypeId::Bool => ArrowType::Boolean,
        PgTypeId::Int2 => ArrowType::Int16,
        PgTypeId::Int4 => ArrowType::Int32,
        PgTypeId::Int8 | PgTypeId::Money => ArrowType::Int64,
        PgTypeId::Float4 => ArrowType::Float32,
        PgTypeId::Float8 => ArrowType::Float64,
        PgTypeId::Char => ArrowType::UInt8,
        PgTypeId::Oid | PgTypeId::Xid | PgTypeId::Cid => ArrowType::UInt32,
        PgTypeId::Xid8 => ArrowType::UInt64,
        PgTypeId::Date => ArrowType::Date32,
        PgTypeId::Time | PgTypeId::Timetz => ArrowType::Time64(ArrowTimeUnit::Microsecond),
        PgTypeId::Timestamp => ArrowType::Timestamp(ArrowTimeUnit::Microsecond, None),
        PgTypeId::Timestamptz => ArrowType::Timestamp(ArrowTimeUnit::Microsecond, Some(ArrowTimeZone::Utc)),
        PgTypeId::Interval => ArrowType::Interval(ArrowIntervalUnit::MonthDayNano),
        PgTypeId::Text | PgTypeId::Varchar | PgTypeId::Bpchar | PgTypeId::Json | PgTypeId::Xml | PgTypeId::Numeric
        | PgTypeId::Name => ArrowType::Utf8,
        PgTypeId::Uuid | PgTypeId::Point => ArrowType::FixedSizeBinary(16),
        PgTypeId::Macaddr => ArrowType::FixedSizeBinary(6),
        PgTypeId::Macaddr8 => ArrowType::FixedSizeBinary(8),
        PgTypeId::Line | PgTypeId::Circle => ArrowType::FixedSizeBinary(24),
        PgTypeId::Lseg | PgTypeId::Box => ArrowType::FixedSizeBinary(32),
        _ => ArrowType::Binary,
    }
}

/// The Arrow data type of the column that rows of type `t` convert to.
fn rows_arrow_type(t: PgTypeId) -> (r: ArrowType)
    ensures
        r == spec_rows_arrow_type(t),
{
    match t {
        PgTypeId::Bool => ArrowType::Boolean,
        PgTypeId::Int2 => ArrowType::Int16,
        PgTypeId::Int4 => ArrowType::Int32,
        PgTypeId::Int8 | PgTypeId::Money => ArrowType::Int64,
        PgTypeId::Float4 => ArrowType::Float32,
        PgTypeId::Float8 => ArrowType::Float64,
        PgTypeId::Char => ArrowType::UInt8,
        PgTypeId::Oid | PgTypeId::Xid | PgTypeId::Cid => ArrowType::UInt32,
        PgTypeId::Xid8 => ArrowType::UInt64,
        PgTypeId::Date => ArrowType::Date32,
        PgTypeId::Time | PgTypeId::Timetz => ArrowType::Time64(ArrowTimeUnit::Microsecond),
        PgTypeId::Timestamp => ArrowType::Timestamp(ArrowTimeUnit::Microsecond, None),
        PgTypeId::Timestamptz => ArrowType::Timestamp(ArrowTimeUnit::Microsecond, Some(ArrowTimeZone::Utc)),
        PgTypeId::Interval => ArrowType::Interval(ArrowIntervalUnit::MonthDayNano),
        PgTypeId::Text | PgTypeId::Varchar | PgTypeId::Bpchar | PgTypeId::Json | PgTypeId::Xml | PgTypeId::Numeric
        | PgTypeId::Name => ArrowType::Utf8,
        PgTypeId::Uuid | PgTypeId::Point => ArrowType::FixedSizeBinary(16),
        PgTypeId::Macaddr => ArrowType::FixedSizeBinary(6),
        PgTypeId::Macaddr8 => ArrowType::FixedSizeBinary(8),
        PgTypeId::Line | PgTypeId::Circle => ArrowType::FixedSizeBinary(24),
        PgTypeId::Lseg | PgTypeId::Box => ArrowType::FixedSizeBinary(32),
        _ => ArrowType::Binary,
    }
}

/// What datum `d` becomes in a column of type `t`: `Ok(None)` for a NULL,
/// `Ok(Some(value))` for a datum of the column's kind, `Err(())` for any
/// other datum (and for an interval whose microseconds do not fit in 64-bit
/// nanoseconds). Integers stored as bytes (tids, geometric values) are
/// written little-endian.
pub open spec fn spec_row_cell(t: PgTypeId, d: PgDatumView) -> Result<Option<ArrowValueView>, ()> {
    if d is Null {
        Ok(None)
    } else {
        match t {
            PgTypeId::Bool => match d {
                PgDatumView::Bool(v) => Ok(Some(ArrowValueView::Boolean(v))),
                _ => Err(()),
            },
            PgTypeId::Int2 => match d {
                PgDatumView::Int2(v) => Ok(Some(ArrowValueView::Int16(v))),
                _ => Err(()),
            },
            PgTypeId::Int4 => match d {
                PgDatumView::Int4(v) => Ok(Some(ArrowValueView::Int32(v))),
                _ => Err(()),
            },
            PgTypeId::Int8 => match d {
                PgDatumView::Int8(v) => Ok(Some(ArrowValueView::Int64(v))),
                _ => Err(()),
            },
            PgTypeId::Float4 => match d {
                PgDatumView::Float4(v) => Ok(Some(ArrowValueView::Float32(v))),
                _ => Err(()),
            },
            PgTypeId::Float8 => match d {
                PgDatumView::Float8(v) => Ok(Some(ArrowValueView::Float64(v))),
                _ => Err(()),
            },
            PgTypeId::Char => match d {
                PgDatumView::Char(v) => Ok(Some(ArrowValueView::UInt8(v))),
                _ => Err(()),
            },
            PgTypeId::Oid => match d {
                PgDatumView::Oid(v) => Ok(Some(ArrowValueView::UInt32(v))),
                _ => Err(()),
            },
            PgTypeId::Xid => match d {
                PgDatumView::Xid(v) => Ok(Some(ArrowValueView::UInt32(v))),
                _ => Err(()),
            },
            PgTypeId::Cid => match d {
                PgDatumView::Cid(v) => Ok(Some(ArrowValueView::UInt32(v))),
                _ => Err(()),
            },
            PgTypeId::Xid8 => match d {
                PgDatumView::Xid8(v) => Ok(Some(ArrowValueView::UInt64(v))),
                _ => Err(()),
            },
            PgTypeId::Date => match d {
                PgDatumView::Date(v) => Ok(Some(ArrowValueView::Int32(v))),
                _ => Err(()),
            },
            PgTypeId::Money => match d {
                PgDatumView::Money(v) => Ok(Some(ArrowValueView::Int64(v))),
                _ => Err(()),
            },
            PgTypeId::Time => match d {
                PgDatumView::Time(v) => Ok(Some(ArrowValueView::Int64(v))),
                _ => Err(()),
            },
            PgTypeId::Timetz => match d {
                PgDatumView::TimeTz { time_usec, .. } => Ok(Some(ArrowValueView::Int64(time_usec))),
                _ => Err(()),
            },
            PgTypeId::Timestamp => match d {
                PgDatumView::Timestamp(v) => Ok(Some(ArrowValueView::Int64(v))),
                _ => Err(()),
            },
            PgTypeId::Timestamptz => match d {
                PgDatumView::TimestampTz(v) => Ok(Some(ArrowValueView::Int64(v))),
                _ => Err(()),
            },
            PgTypeId::Interval => match d {
                PgDatumView::Interval { microseconds, days, months } => if i64::MIN <= microseconds * 1000
                    <= i64::MAX {
                    Ok(
                        Some(
                            ArrowValueView::IntervalMonthDayNano {
                                months,
                                days,
                                nanoseconds: (microseconds * 1000) as i64,
                            },
                        ),
                    )
                } else {
                    Err(())
                },
                _ => Err(()),
            },
            PgTypeId::Text | PgTypeId::Varchar | PgTypeId::Bpchar | PgTypeId::Json | PgTypeId::Xml
            | PgTypeId::Numeric => match d {
                PgDatumView::Text(s) | PgDatumView::Varchar(s) | PgDatumView::BpChar(s) | PgDatumView::Json(s)
                | PgDatumView::Xml(s) => Ok(Some(ArrowValueView::Utf8(s))),
                PgDatumView::Numeric(b) => Ok(Some(ArrowValueView::Utf8(utf8_or_hex_text(b)))),
                _ => Err(()),
            },
            PgTypeId::Name => match d {
                PgDatumView::Name(b) => Ok(Some(ArrowValueView::Utf8(name_text(b)))),
                PgDatumView::Text(s) => Ok(Some(ArrowValueView::Utf8(s))),
                _ => Err(()),
            },
            PgTypeId::Bytea | PgTypeId::Jsonb | PgTypeId::Jsonpath | PgTypeId::Inet | PgTypeId::Cidr | PgTypeId::Bit
            | PgTypeId::Varbit | PgTypeId::Path | PgTypeId::Polygon | PgTypeId::Aclitem => match d {
                PgDatumView::Bytea(b) | PgDatumView::Jsonb(b) | PgDatumView::JsonPath(b) | PgDatumView::Inet(b)
                | PgDatumView::Cidr(b) | PgDatumView::Bit(b) | PgDatumView::VarBit(b) | PgDatumView::Path(b)
                | PgDatumView::Polygon(b) => Ok(Some(ArrowValueView::Binary(b))),
                PgDatumView::RawBytes { data, .. } => Ok(Some(ArrowValueView::Binary(data))),
                _ => Err(()),
            },
            PgTypeId::Tid => match d {
                PgDatumView::Tid { block, offset } => Ok(
                    Some(ArrowValueView::Binary(le_bytes(block as int, 4) + le_bytes(offset as int, 2))),
                ),
                _ => Err(()),
            },
            PgTypeId::Uuid => match d {
                PgDatumView::Uuid(b) => Ok(Some(ArrowValueView::Binary(b))),
                _ => Err(()),
            },
            PgTypeId::Macaddr => match d {
                PgDatumView::MacAddr(b) => Ok(Some(ArrowValueView::Binary(b))),
                _ => Err(()),
            },
            PgTypeId::Macaddr8 => match d {
                PgDatumView::MacAddr8(b) => Ok(Some(ArrowValueView::Binary(b))),
                _ => Err(()),
            },
            PgTypeId::Point => match d {
                PgDatumView::Point { x, y } => Ok(
                    Some(ArrowValueView::Binary(le_bytes(x as int, 8) + le_bytes(y as int, 8))),
                ),
                _ => Err(()),
            },
            PgTypeId::Line => match d {
                PgDatumView::Line { a, b, c } => Ok(
                    Some(ArrowValueView::Binary(le_bytes(a as int, 8) + le_bytes(b as int, 8) + le_bytes(c as int, 8))),
                ),
                _ => Err(()),
            },
            PgTypeId::Lseg | PgTypeId::Box => match d {
                PgDatumView::Lseg { x1, y1, x2, y2 } | PgDatumView::Box { x1, y1, x2, y2 } => Ok(
                    Some(
                        ArrowValueView::Binary(
                            le_bytes(x1 as int, 8) + le_bytes(y1 as int, 8) + le_bytes(x2 as int, 8) + le_bytes(
                                y2 as int,
                                8,
                            ),
                        ),
                    ),
                ),
                _ => Err(()),
            },
            PgTypeId::Circle => match d {
                PgDatumView::Circle { x, y, radius } => Ok(
                    Some(
                        ArrowValueView::Binary(le_bytes(x as int, 8) + le_bytes(y as int, 8) + le_bytes(radius as int, 8)),
                    ),
                ),
                _ => Err(()),
            },
            _ => match d {
                PgDatumView::RawBytes { data, .. } => Ok(Some(ArrowValueView::Binary(data))),
                _ => Err(()),
            },
        }
    }
}

/// The bytes of a list of 64-bit words, each little-endian.
fn words_le(words: &[u64]) -> (r: Vec<u8>)
    requires
        words@.len() <= 4,
    ensures
        r@ == words_le_spec(words@),
{
    let mut buf: Vec<u8> = Vec::new();
    let mut i: usize = 0;
    while i < words.len()
        invariant
            i <= words@.len(),
            buf@ == words_le_spec(words@.subrange(0, i as int)),
        decreases words@.len() - i,
    {
        push_le(&mut buf, words[i], 8);
        proof {
            let pre = words@.subrange(0, i as int + 1);
            assert(pre.drop_last() =~= words@.subrange(0, i as int));
        }
        i = i + 1;
    }
    assert(words@.subrange(0, words@.len() as int) =~= words@);
    buf
}

/// The bytes of a list of 64-bit words, each little-endian.
pub open spec fn words_le_spec(w: Seq<u64>) -> Seq<u8>
    decreases w.len(),
{
    if w.len() == 0 {
        Seq::empty()
    } else {
        words_le_spec(w.drop_last()) + le_bytes(w.last() as int, 8)
    }
}

proof fn lemma_words_le(a: u64, b: u64, c: u64, d: u64)
    ensures
        words_le_spec(seq![a, b]) == le_bytes(a as int, 8) + le_bytes(b as int, 8),
        words_le_spec(seq![a, b, c]) == le_bytes(a as int, 8) + le_bytes(b as int, 8) + le_bytes(c as int, 8),
        words_le_spec(seq![a, b, c, d]) == le_bytes(a as int, 8) + le_bytes(b as int, 8) + le_bytes(c as int, 8)
            + le_bytes(d as int, 8),
{
    assert(seq![a, b].drop_last() =~= seq![a]);
    assert(seq![a].drop_last() =~= Seq::<u64>::empty());
    assert(seq![a, b, c].drop_last() =~= seq![a, b]);
    assert(seq![a, b, c, d].drop_last() =~= seq![a, b, c]);
    assert(words_le_spec(Seq::<u64>::empty()) == Seq::<u8>::empty());
    assert(Seq::<u8>::empty() + le_bytes(a as int, 8) =~= le_bytes(a as int, 8));
    assert(words_le_spec(seq![a]) =~= le_bytes(a as int, 8));
    assert(words_le_spec(seq![a, b]) =~= le_bytes(a as int, 8) + le_bytes(b as int, 8));
    assert(words_le_spec(seq![a, b, c]) =~= le_bytes(a as int, 8) + le_bytes(b as int, 8) + le_bytes(c as int, 8));
}

/// What datum `d` becomes in a column of type `t`; see [`spec_row_cell`].
fn datum_cell(t: PgTypeId, d: &PgDatum) -> (r: Result<Option<ArrowValue>, ()>)
    ensures
        match (r, spec_row_cell(t, d@)) {
            (Ok(Some(v)), Ok(Some(sv))) => v@ == sv,
            (Ok(None), Ok(None)) => true,
            (Err(_), Err(_)) => true,
            _ => false,
        },
{
    if let PgDatum::Null = d {
        return Ok(None);
    }
    match t {
        PgTypeId::Bool => match d {
            PgDatum::Bool(v) => Ok(Some(ArrowValue::Boolean(*v))),
            _ => Err(()),
        },
        PgTypeId::Int2 => match d {
            PgDatum::Int2(v) => Ok(Some(ArrowValue::Int16(*v))),
            _ => Err(()),
        },
        PgTypeId::Int4 => match d {
            PgDatum::Int4(v) => Ok(Some(ArrowValue::Int32(*v))),
            _ => Err(()),
        },
        PgTypeId::Int8 => match d {
            PgDatum::Int8(v) => Ok(Some(ArrowValue::Int64(*v))),
            _ => Err(()),
        },
        PgTypeId::Float4 => match d {
            PgDatum::Float4(v) => Ok(Some(ArrowValue::Float32(*v))),
            _ => Err(()),
        },
        PgTypeId::Float8 => match d {
            PgDatum::Float8(v) => Ok(Some(ArrowValue::Float64(*v))),
            _ => Err(()),
        },
        PgTypeId::Char => match d {
            PgDatum::Char(v) => Ok(Some(ArrowValue::UInt8(*v))),
            _ => Err(()),
        },
        PgTypeId::Oid => match d {
            PgDatum::Oid(v) => Ok(Some(ArrowValue::UInt32(*v))),
            _ => Err(()),
        },
        PgTypeId::Xid => match d {
            PgDatum::Xid(v) => Ok(Some(ArrowValue::UInt32(*v))),
            _ => Err(()),
        },
        PgTypeId::Cid => match d {
            PgDatum::Cid(v) => Ok(Some(ArrowValue::UInt32(*v))),
            _ => Err(()),
        },
        PgTypeId::Xid8 => match d {
            PgDatum::Xid8(v) => Ok(Some(ArrowValue::UInt64(*v))),
            _ => Err(()),
        },
        PgTypeId::Date => match d {
            PgDatum::Date(v) => Ok(Some(ArrowValue::Int32(*v))),
            _ => Err(()),
        },
        PgTypeId::Money => match d {
            PgDatum::Money(v) => Ok(Some(ArrowValue::Int64(*v))),
            _ => Err(()),
        },
        PgTypeId::Time => match d {
            PgDatum::Time(v) => Ok(Some(ArrowValue::Int64(*v))),
            _ => Err(()),
        },
        PgTypeId::Timetz => match d {
            // the time alone is kept; the zone offset is dropped
            PgDatum::TimeTz { time_usec, .. } => Ok(Some(ArrowValue::Int64(*time_usec))),
            _ => Err(()),
        },
        PgTypeId::Timestamp => match d {
            PgDatum::Timestamp(v) => Ok(Some(ArrowValue::Int64(*v))),
            _ => Err(()),
        },
        PgTypeId::Timestamptz => match d {
            PgDatum::TimestampTz(v) => Ok(Some(ArrowValue::Int64(*v))),
            _ => Err(()),
        },
        PgTypeId::Interval => match d {
            PgDatum::Interval { microseconds, days, months } => match microseconds.checked_mul(1000) {
                // an interval whose microseconds overflow nanoseconds does not convert
                Some(nanoseconds) => Ok(
                    Some(ArrowValue::IntervalMonthDayNano { months: *months, days: *days, nanoseconds }),
                ),
                None => Err(()),
            },
            _ => Err(()),
        },
        PgTypeId::Text | PgTypeId::Varchar | PgTypeId::Bpchar | PgTypeId::Json | PgTypeId::Xml | PgTypeId::Numeric => {
            match d {
                PgDatum::Text(s) | PgDatum::Varchar(s) | PgDatum::BpChar(s) | PgDatum::Json(s) | PgDatum::Xml(s) => {
                    Ok(Some(ArrowValue::Utf8(s.clone())))
                },
                PgDatum::Numeric(b) => {
                    // NUMERIC bytes as text: as they are when valid UTF-8,
                    // in hexadecimal otherwise
                    Ok(Some(ArrowValue::Utf8(utf8_or_hex_string(b.as_slice()))))
                },
                _ => Err(()),
            }
        },
        PgTypeId::Name => match d {
            PgDatum::Name(b) => Ok(Some(ArrowValue::Utf8(name_string(b.as_slice())))),
            // a name column as the row decoder returns it
            PgDatum::Text(s) => Ok(Some(ArrowValue::Utf8(s.clone()))),
            _ => Err(()),
        },
        PgTypeId::Bytea | PgTypeId::Jsonb | PgTypeId::Jsonpath | PgTypeId::Inet | PgTypeId::Cidr | PgTypeId::Bit
        | PgTypeId::Varbit | PgTypeId::Path | PgTypeId::Polygon | PgTypeId::Aclitem => match d {
            PgDatum::Bytea(b) | PgDatum::Jsonb(b) | PgDatum::JsonPath(b) | PgDatum::Inet(b) | PgDatum::Cidr(b)
            | PgDatum::Bit(b) | PgDatum::VarBit(b) | PgDatum::Path(b) | PgDatum::Polygon(b) => {
                Ok(Some(ArrowValue::Binary(b.clone())))
            },
            PgDatum::RawBytes { data, .. } => Ok(Some(ArrowValue::Binary(data.clone()))),
            _ => Err(()),
        },
        PgTypeId::Tid => match d {
            PgDatum::Tid { block, offset } => {
                let mut buf: Vec<u8> = Vec::with_capacity(6);
                push_le(&mut buf, *block as u64, 4);
                push_le(&mut buf, *offset as u64, 2);
                Ok(Some(ArrowValue::Binary(buf)))
            },
            _ => Err(()),
        },
        PgTypeId::Uuid => match d {
            PgDatum::Uuid(b) => Ok(Some(ArrowValue::Binary(slice_to_vec(b.as_slice())))),
            _ => Err(()),
        },
        PgTypeId::Macaddr => match d {
            PgDatum::MacAddr(b) => Ok(Some(ArrowValue::Binary(slice_to_vec(b.as_slice())))),
            _ => Err(()),
        },
        PgTypeId::Macaddr8 => match d {
            PgDatum::MacAddr8(b) => Ok(Some(ArrowValue::Binary(slice_to_vec(b.as_slice())))),
            _ => Err(()),
        },
        PgTypeId::Point => match d {
            PgDatum::Point { x, y } => {
                let w = [*x, *y];
                proof {
                    lemma_words_le(*x, *y, 0, 0);
                    assert(w@ =~= seq![*x, *y]);
                }
                Ok(Some(ArrowValue::Binary(words_le(w.as_slice()))))
            },
            _ => Err(()),
        },
        PgTypeId::Line => match d {
            PgDatum::Line { a, b, c } => {
                let w = [*a, *b, *c];
                proof {
                    lemma_words_le(*a, *b, *c, 0);
                    assert(w@ =~= seq![*a, *b, *c]);
                }
                Ok(Some(ArrowValue::Binary(words_le(w.as_slice()))))
            },
            _ => Err(()),
        },
        PgTypeId::Lseg | PgTypeId::Box => match d {
            PgDatum::Lseg { x1, y1, x2, y2 } | PgDatum::Box { x1, y1, x2, y2 } => {
                let w = [*x1, *y1, *x2, *y2];
                proof {
                    lemma_words_le(*x1, *y1, *x2, *y2);
                    assert(w@ =~= seq![*x1, *y1, *x2, *y2]);
                }
                Ok(Some(ArrowValue::Binary(words_le(w.as_slice()))))
            },
            _ => Err(()),
        },
        PgTypeId::Circle => match d {
            PgDatum::Circle { x, y, radius } => {
                let w = [*x, *y, *radius];
                proof {
                    lemma_words_le(*x, *y, *radius, 0);
                    assert(w@ =~= seq![*x, *y, *radius]);
                }
                Ok(Some(ArrowValue::Binary(words_le(w.as_slice()))))
            },
            _ => Err(()),
        },
        _ => match d {
            PgDatum::RawBytes { data, .. } => Ok(Some(ArrowValue::Binary(data.clone()))),
            _ => Err(()),
        },
    }
}

/// The name of the datum kind a column of type `t` expects, as conversion
/// errors report it.
pub open spec fn spec_expected_label(t: PgTypeId) -> Seq<char> {
    match t {
        PgTypeId::Bool => "Bool"@,
        PgTypeId::Int2 => "Int2"@,
        PgTypeId::Int4 => "Int4"@,
        PgTypeId::Int8 => "Int8"@,
        PgTypeId::Float4 => "Float4"@,
        PgTypeId::Float8 => "Float8"@,
        PgTypeId::Char => "Char"@,
        PgTypeId::Oid => "Oid"@,
        PgTypeId::Xid => "Xid"@,
        PgTypeId::Cid => "Cid"@,
        PgTypeId::Xid8 => "Xid8"@,
        PgTypeId::Date => "Date"@,
        PgTypeId::Money => "Money"@,
        PgTypeId::Time => "Time"@,
        PgTypeId::Timetz => "TimeTz"@,
        PgTypeId::Timestamp => "Timestamp"@,
        PgTypeId::Timestamptz => "TimestampTz"@,
        PgTypeId::Interval => "Interval"@,
        PgTypeId::Text | PgTypeId::Varchar | PgTypeId::Bpchar | PgTypeId::Json | PgTypeId::Xml | PgTypeId::Numeric => {
            "string type"@
        },
        PgTypeId::Name => "Name"@,
        PgTypeId::Tid => "Tid"@,
        PgTypeId::Uuid => "Uuid"@,
        PgTypeId::Macaddr => "MacAddr"@,
        PgTypeId::Macaddr8 => "MacAddr8"@,
        PgTypeId::Point => "Point"@,
        PgTypeId::Line => "Line"@,
        PgTypeId::Lseg | PgTypeId::Box => "Lseg/Box"@,
        PgTypeId::Circle => "Circle"@,
        _ => "binary type"@,
    }
}

/// The detail of the error converting a column of type `t` at position `j`
/// that holds the datum `d`, which it cannot take: the expected kind (or,
/// for an array type, the type) and the datum's `Debug` text.
pub open spec fn column_failure_detail(t: PgTypeId, j: nat, d: PgDatumView) -> Seq<char> {
    if t.is_array() {
        unsupported_prefix(j) + type_id_debug(t) + " with datum "@ + datum_debug(d)
    } else {
        mismatch_prefix(j, spec_expected_label(t)) + datum_debug(d)
    }
}

/// Row `i` is the first of `rows` whose datum in column `j` a column of
/// type `t` cannot take, and the conversion error's detail reports it.
pub open spec fn reports_first_bad_row(t: PgTypeId, rows: Seq<Seq<PgDatumView>>, j: int, detail: Seq<char>) -> bool {
    exists|i: int| {
        &&& 0 <= i < rows.len()
        &&& !(spec_row_cell(t, row_datum(rows[i], j)) is Ok)
        &&& forall|k: int| 0 <= k < i ==> #[trigger] spec_row_cell(t, row_datum(rows[k], j)) is Ok
        &&& detail == column_failure_detail(t, j as nat, row_datum(rows[i], j))
    }
}

/// The name of the datum kind a column of type `t` expects, as conversion
/// errors report it.
fn expected_label(t: PgTypeId) -> (r: &'static str)
    ensures
        r@ == spec_expected_label(t),
{
    match t {
        PgTypeId::Bool => "Bool",
        PgTypeId::Int2 => "Int2",
        PgTypeId::Int4 => "Int4",
        PgTypeId::Int8 => "Int8",
        PgTypeId::Float4 => "Float4",
        PgTypeId::Float8 => "Float8",
        PgTypeId::Char => "Char",
        PgTypeId::Oid => "Oid",
        PgTypeId::Xid => "Xid",
        PgTypeId::Cid => "Cid",
        PgTypeId::Xid8 => "Xid8",
        PgTypeId::Date => "Date",
        PgTypeId::Money => "Money",
        PgTypeId::Time => "Time",
        PgTypeId::Timetz => "TimeTz",
        PgTypeId::Timestamp => "Timestamp",
        PgTypeId::Timestamptz => "TimestampTz",
        PgTypeId::Interval => "Interval",
        PgTypeId::Text | PgTypeId::Varchar | PgTypeId::Bpchar | PgTypeId::Json | PgTypeId::Xml | PgTypeId::Numeric => {
            "string type"
        },
        PgTypeId::Name => "Name",
        PgTypeId::Tid => "Tid",
        PgTypeId::Uuid => "Uuid",
        PgTypeId::Macaddr => "MacAddr",
        PgTypeId::Macaddr8 => "MacAddr8",
        PgTypeId::Point => "Point",
        PgTypeId::Line => "Line",
        PgTypeId::Lseg | PgTypeId::Box => "Lseg/Box",
        PgTypeId::Circle => "Circle",
        _ => "binary type",
    }
}

// ── Column builder of the row reader ─────────────────────────────────────

/// The builder kind for a column of type `t` in the row reader's builder,
/// which keeps NUMERIC values as text.
pub open spec fn spec_text_column_kind(t: PgTypeId) -> ColumnKind {
    if t == PgTypeId::Numeric {
        ColumnKind::Utf8
    } else {
        spec_column_kind(t, -1i32)
    }
}

/// What appending raw bytes `b` to the row reader's builder of kind `k`
/// adds: string columns keep the bytes as text when they are valid UTF-8
/// and as hexadecimal otherwise; every other kind reads the bytes as
/// [`spec_append_bytes`] does.
pub open spec fn spec_text_append_bytes(k: ColumnKind, b: Seq<u8>) -> Result<Option<ArrowValueView>, Seq<char>> {
    if k == ColumnKind::Utf8 {
        Ok(Some(ArrowValueView::Utf8(utf8_or_hex_text(b))))
    } else {
        spec_append_bytes(k, b)
    }
}

/// Arrow column builder fed raw PostgreSQL bytes, as the row reader uses
/// it: like [`crate::types::arrow::ColumnBuilder`], except that string
/// columns (NUMERIC among them) hold text, valid UTF-8 as it is and other
/// bytes in hexadecimal.
#[derive(Debug)]
pub struct ColumnBuilder {
    inner: crate::types::column_builder::ColumnBuilder,
}

impl View for ColumnBuilder {
    type V = ColumnBuilderView;

    closed spec fn view(&self) -> ColumnBuilderView {
        self.inner@
    }
}

impl ColumnBuilder {
    /// Create a builder for the given PostgreSQL type; `capacity` is the
    /// number of rows expected (an allocation hint).
    pub fn new(type_id: PgTypeId, capacity: usize) -> (r: Self)
        ensures
            r@.kind == spec_text_column_kind(type_id),
            r@.values == Seq::<Option<ArrowValueView>>::empty(),
    {
        if type_id == PgTypeId::Numeric {
            ColumnBuilder { inner: crate::types::column_builder::ColumnBuilder::with_kind(ColumnKind::Utf8) }
        } else {
            ColumnBuilder { inner: crate::types::column_builder::ColumnBuilder::new(type_id, capacity) }
        }
    }

    /// Append a null value.
    pub fn append_null(&mut self)
        ensures
            final(self)@.kind == old(self)@.kind,
            final(self)@.values == old(self)@.values.push(None),
    {
        self.inner.append_null();
    }

    /// Interpret raw PostgreSQL bytes and append the value (see
    /// [`spec_text_append_bytes`]). The one error is a fixed-size binary
    /// value of the wrong width, which appends nothing.
    pub fn append_bytes(&mut self, bytes: &[u8]) -> (r: Result<(), PgError>)
        requires
            old(self)@.kind == ColumnKind::Utf8 || append_bytes_defined(old(self)@.kind, bytes@),
        ensures
            final(self)@.kind == old(self)@.kind,
            match spec_text_append_bytes(old(self)@.kind, bytes@) {
                Ok(v) => r is Ok && final(self)@.values == old(self)@.values.push(v),
                Err(m) => r matches Err(e) && e matches PgError::ArrowConversionFailed { detail } && detail@ == m
                    && final(self)@.values == old(self)@.values,
            },
    {
        if self.inner.kind() == ColumnKind::Utf8 {
            // text as it is, or hexadecimal where it is not valid UTF-8
            self.inner.push(Some(ArrowValue::Utf8(utf8_or_hex_string(bytes))));
            Ok(())
        } else {
            self.inner.append_bytes(bytes)
        }
    }

    /// Finish building: the column's Arrow data type and its values.
    pub fn finish(self) -> (r: ArrowArray)
        ensures
            r.data_type == spec_kind_arrow_type(self@.kind),
            values_view(r.values@) == self@.values,
    {
        self.inner.finish()
    }
}

// ── Rows as columns ──────────────────────────────────────────────────────

/// The datum of column `j` of a row, a missing column counting as NULL.
pub open spec fn row_datum(row: Seq<PgDatumView>, j: int) -> PgDatumView {
    if 0 <= j < row.len() {
        row[j]
    } else {
        PgDatumView::Null
    }
}

/// Every row's datum in column `j` converts to a column of type `t`.
pub open spec fn rows_column_ok(t: PgTypeId, rows: Seq<Seq<PgDatumView>>, j: int) -> bool {
    forall|i: int| 0 <= i < rows.len() ==> #[trigger] spec_row_cell(t, row_datum(rows[i], j)) is Ok
}

/// The values of column `j` of `rows` converted to a column of type `t`.
pub open spec fn rows_column_values(t: PgTypeId, rows: Seq<Seq<PgDatumView>>, j: int) -> Seq<Option<ArrowValueView>> {
    Seq::new(rows.len(), |i: int| spec_row_cell(t, row_datum(rows[i], j))->Ok_0)
}

/// The views of a list of rows.
pub open spec fn rows_view(rows: Seq<PgRow>) -> Seq<Seq<PgDatumView>> {
    rows.map_values(|r: PgRow| r@)
}

/// Build the Arrow column of column `col_idx` of `rows`, whose type is
/// `type_id`: each row's datum (NULL for a row too short to have the
/// column) is converted; a datum of another kind fails the conversion.
fn build_arrow_array(type_id: PgTypeId, rows: &[PgRow], col_idx: usize, num_rows: usize) -> (r: Result<ArrowArray>)
    ensures
        rows_column_ok(type_id, rows_view(rows@), col_idx as int) ==> (r matches Ok(a) && a.data_type
            == spec_rows_arrow_type(type_id) && values_view(a.values@) == rows_column_values(
            type_id,
            rows_view(rows@),
            col_idx as int,
        )),
        !rows_column_ok(type_id, rows_view(rows@), col_idx as int) ==> (r matches Err(e)
            && e matches PgError::ArrowConversionFailed { detail } && reports_first_bad_row(
            type_id,
            rows_view(rows@),
            col_idx as int,
            detail@,
        )),
{
    let ghost rv = rows_view(rows@);
    let mut values: Vec<Option<ArrowValue>> = Vec::with_capacity(num_rows);
    let mut i: usize = 0;
    while i < rows.len()
        invariant
            i <= rows@.len(),
            rv == rows_view(rows@),
            values@.len() == i,
            forall|k: int| 0 <= k < i ==> #[trigger] spec_row_cell(type_id, row_datum(rv[k], col_idx as int)) is Ok,
            values_view(values@) == rows_column_values(type_id, rv, col_idx as int).subrange(0, i as int),
        decreases rows@.len() - i,
    {
        let cell = match rows[i].get(col_idx) {
            Some(d) => match datum_cell(type_id, d) {
                Ok(c) => c,
                Err(()) => {
                    let detail = match type_id {
                        PgTypeId::BoolArray | PgTypeId::ByteaArray | PgTypeId::CharArray | PgTypeId::NameArray
                        | PgTypeId::Int2Array | PgTypeId::Int4Array | PgTypeId::TextArray | PgTypeId::TidArray
                        | PgTypeId::XidArray | PgTypeId::CidArray | PgTypeId::VarcharArray | PgTypeId::Int8Array
                        | PgTypeId::Float4Array | PgTypeId::Float8Array | PgTypeId::OidArray
                        | PgTypeId::TimestampArray | PgTypeId::DateArray | PgTypeId::TimeArray
                        | PgTypeId::TimestamptzArray | PgTypeId::NumericArray | PgTypeId::UuidArray
                        | PgTypeId::JsonbArray => unsupported_detail(col_idx, type_id, d),
                        _ => mismatch_detail(col_idx, expected_label(type_id), d),
                    };
                    proof {
                        assert(rv[i as int] == rows@[i as int]@);
                        assert(d@ == row_datum(rv[i as int], col_idx as int));
                        assert(!(spec_row_cell(type_id, row_datum(rv[i as int], col_idx as int)) is Ok));
                        reveal_strlit(" with datum ");
                        assert(detail@ == column_failure_detail(type_id, col_idx as nat, row_datum(rv[i as int], col_idx as int)));
                        assert(reports_first_bad_row(type_id, rv, col_idx as int, detail@));
                    }
                    return Err(PgError::ArrowConversionFailed { detail });
                },
            },
            None => None,
        };
        proof {
            assert(rv[i as int] == rows@[i as int]@);
        }
        let ghost before = values@;
        values.push(cell);
        proof {
            assert(values_view(values@) =~= values_view(before).push(
                match cell {
                    Some(x) => Some(x@),
                    None => None,
                },
            ));
            assert(rows_column_values(type_id, rv, col_idx as int).subrange(0, i as int + 1) =~= rows_column_values(
                type_id,
                rv,
                col_idx as int,
            ).subrange(0, i as int).push(spec_row_cell(type_id, row_datum(rv[i as int], col_idx as int))->Ok_0));
        }
        i = i + 1;
    }
    proof {
        assert(rows_column_values(type_id, rv, col_idx as int).subrange(0, i as int) =~= rows_column_values(
            type_id,
            rv,
            col_idx as int,
        ));
    }
    Ok(ArrowArray { data_type: rows_arrow_type(type_id), values })
}

/// Rows convert to columns of their fields' data types for every column
/// type but NUMERIC (kept as text) and the array types (kept as bytes).
pub proof fn lemma_rows_types_match_fields(t: PgTypeId, typmod: i32)
    requires
        t != PgTypeId::Numeric,
        !t.is_array(),
    ensures
        spec_rows_arrow_type(t) == spec_column_arrow_type(t, typmod),
{
}

/// The data types of the columns that rows of a schema convert to.
pub open spec fn rows_types(cols: Seq<PgColumn>) -> Seq<ArrowType> {
    Seq::new(cols.len(), |j: int| spec_rows_arrow_type(cols[j].type_id))
}

/// The values of the columns that `rows` convert to under a schema.
pub open spec fn rows_values(cols: Seq<PgColumn>, rows: Seq<Seq<PgDatumView>>) -> Seq<Seq<Option<ArrowValueView>>> {
    Seq::new(cols.len(), |j: int| rows_column_values(cols[j].type_id, rows, j))
}

impl PgRow {
    /// Convert rows into an Arrow batch: one column per schema column,
    /// built from the rows' datums (rows shorter than the schema are padded
    /// with NULLs). A datum of another kind than its column's type fails the
    /// conversion, which reports the first such column; so do columns that
    /// cannot form a batch with the schema's fields (see [`batch_problem`]):
    /// no column, a null under a non-nullable column, or a column whose
    /// data type is not its field's (NUMERIC, kept as text, and arrays).
    pub fn to_record_batch(rows: &[PgRow], schema: &PgSchema) -> (r: Result<ArrowRecordBatch>)
        ensures
            (forall|j: int| 0 <= j < schema@.len() ==> rows_column_ok(schema@[j].type_id, rows_view(rows@), j))
                && batch_problem(schema@, rows_types(schema@), rows_values(schema@, rows_view(rows@))) is Some ==> (r matches Err(
                e,
            ) && e matches PgError::ArrowConversionFailed { detail } && Some(detail@) == batch_problem(
                schema@,
                rows_types(schema@),
                rows_values(schema@, rows_view(rows@)),
            )),
            (forall|j: int| 0 <= j < schema@.len() ==> rows_column_ok(schema@[j].type_id, rows_view(rows@), j))
                && batch_problem(schema@, rows_types(schema@), rows_values(schema@, rows_view(rows@))) is None ==> (
            r matches Ok(b) && {
                &&& b.schema.fields@.len() == schema@.len()
                &&& b.columns@.len() == schema@.len()
                &&& forall|j: int| 0 <= j < schema@.len() ==> {
                    &&& (#[trigger] b.schema.fields@[j]).name@ == schema@[j].name@
                    &&& b.schema.fields@[j].data_type == spec_column_arrow_type(schema@[j].type_id, schema@[j].typmod)
                    &&& b.schema.fields@[j].nullable == schema@[j].nullable
                    &&& b.columns@[j].data_type == spec_rows_arrow_type(schema@[j].type_id)
                    &&& values_view(b.columns@[j].values@) == rows_column_values(schema@[j].type_id, rows_view(rows@), j)
                }
            }),
            (exists|j: int| 0 <= j < schema@.len() && !rows_column_ok(schema@[j].type_id, rows_view(rows@), j)) ==> (
            r matches Err(e) && e matches PgError::ArrowConversionFailed { detail } && exists|j: int| {
                &&& 0 <= j < schema@.len()
                &&& !rows_column_ok(schema@[j].type_id, rows_view(rows@), j)
                &&& forall|i: int| 0 <= i < j ==> rows_column_ok(schema@[i].type_id, rows_view(rows@), i)
                &&& reports_first_bad_row(schema@[j].type_id, rows_view(rows@), j, detail@)
            }),
    {
        let arrow_schema = schema.to_arrow_schema();
        let num_cols = schema.num_columns();
        let num_rows = rows.len();
        let mut columns: Vec<ArrowArray> = Vec::with_capacity(num_cols);
        let mut col_idx: usize = 0;
        while col_idx < num_cols
            invariant
                col_idx <= num_cols,
                num_cols == schema@.len(),
                columns@.len() == col_idx,
                forall|j: int| 0 <= j < col_idx ==> rows_column_ok(schema@[j].type_id, rows_view(rows@), j),
                forall|j: int| 0 <= j < col_idx ==> {
                    &&& (#[trigger] columns@[j]).data_type == spec_rows_arrow_type(schema@[j].type_id)
                    &&& values_view(columns@[j].values@) == rows_column_values(schema@[j].type_id, rows_view(rows@), j)
                },
            decreases num_cols - col_idx,
        {
            let col = match schema.column(col_idx) {
                Some(c) => c,
                None => return Err(PgError::ColumnNotFound { column: index_label(col_idx) }),
            };
            let array = match build_arrow_array(col.type_id, rows, col_idx, num_rows) {
                Ok(a) => a,
                Err(e) => {
                    proof {
                        assert(exists|j: int| 0 <= j < schema@.len() && !rows_column_ok(schema@[j].type_id, rows_view(rows@), j));
                    }
                    return Err(e);
                },
            };
            columns.push(array);
            col_idx = col_idx + 1;
        }
        proof {
            assert(array_types(columns@) =~= rows_types(schema@));
            assert(array_values(columns@) =~= rows_values(schema@, rows_view(rows@)));
        }
        match check_batch(schema.columns(), columns.as_slice()) {
            Ok(()) => Ok(ArrowRecordBatch { schema: arrow_schema, columns }),
            Err(e) => Err(e),
        }
    }
}

} // verus!
