//! The Arrow data model that decoded columns are shaped into: data types,
//! fields, and the decoding of PostgreSQL NUMERIC typmods.

use vstd::prelude::*;

pub use crate::types::column_builder::{
    extract_column_bytes, extract_fixed_bytes, ArrowArray, ArrowValue, ColumnBuilder, ColumnKind,
};
pub use crate::types::numeric::{decode_pg_numeric_i128, decode_pg_numeric_i256, I256};

verus! {

/// Time unit of an Arrow temporal type.
#[derive(Debug, Clone, Copy, PartialEq, Eq, Structural)]
pub enum ArrowTimeUnit {
    Second,
    Millisecond,
    Microsecond,
    Nanosecond,
}

/// Unit of an Arrow interval type.
#[derive(Debug, Clone, Copy, PartialEq, Eq, Structural)]
pub enum ArrowIntervalUnit {
    YearMonth,
    DayTime,
    MonthDayNano,
}

/// Time zone attached to an Arrow timestamp type.
#[derive(Debug, Clone, Copy, PartialEq, Eq, Structural)]
pub enum ArrowTimeZone {
    Utc,
}

/// An Arrow data type.
#[derive(Debug, PartialEq)]
pub enum ArrowType {
    Null,
    Boolean,
    Int16,
    Int32,
    Int64,
    UInt8,
    UInt32,
    UInt64,
    Float32,
    Float64,
    Date32,
    Time64(ArrowTimeUnit),
    Timestamp(ArrowTimeUnit, Option<ArrowTimeZone>),
    Interval(ArrowIntervalUnit),
    Utf8,
    Binary,
    FixedSizeBinary(i32),
    Decimal128(u8, i8),
    Decimal256(u8, i8),
    /// A list whose element field is the nullable field named "item".
    List(Box<ArrowType>),
}

/// A named, typed Arrow field.
#[derive(Debug)]
pub struct ArrowField {
    pub name: String,
    pub data_type: ArrowType,
    pub nullable: bool,
}

/// A list of nullable `dt` elements.
pub open spec fn spec_list_of(dt: ArrowType) -> ArrowType {
    ArrowType::List(Box::new(dt))
}

/// Wrap a data type in a list of nullable "item" elements.
pub fn list_of(dt: ArrowType) -> (r: ArrowType)
    ensures
        r == spec_list_of(dt),
{
    ArrowType::List(Box::new(dt))
}

/// An Arrow schema: an ordered list of fields.
#[derive(Debug)]
pub struct ArrowSchema {
    pub fields: Vec<ArrowField>,
}

/// The Arrow decimal type for a PostgreSQL NUMERIC type modifier.
///
/// PostgreSQL encodes `NUMERIC(precision, scale)` as
/// `((precision << 16) | scale) + 4`; unbound NUMERIC has typmod -1.
/// A positive typmod gives `Decimal128(precision, scale)` when the precision
/// is at most 38 and `Decimal256(precision, scale)` otherwise; any other
/// typmod gives `Decimal256(38, 0)`.
pub open spec fn spec_numeric_typmod_to_arrow_type(typmod: i32) -> ArrowType {
    if typmod > 0 {
        let tm = (typmod - 4) as u32;
        let precision = (tm / 65536) as u8;
        let scale = (tm % 65536) as i8;
        if precision <= 38 {
            ArrowType::Decimal128(precision, scale)
        } else {
            ArrowType::Decimal256(precision, scale)
        }
    } else {
        ArrowType::Decimal256(38, 0)
    }
}

/// Decode a PostgreSQL NUMERIC typmod into an Arrow decimal type.
pub fn numeric_typmod_to_arrow_type(typmod: i32) -> (r: ArrowType)
    ensures
        r == spec_numeric_typmod_to_arrow_type(typmod),
{
    if typmod > 0 {
        // ((precision << 16) | scale) + 4
        let tm = (typmod - 4) as u32;
        assert(tm >> 16u32 == tm / 65536) by (bit_vector);
        assert(tm & 0xFFFFu32 == tm % 65536) by (bit_vector);
        let precision = (tm >> 16) as u8;
        let scale = (tm & 0xFFFF) as i8;
        if precision <= 38 {
            ArrowType::Decimal128(precision, scale)
        } else {
            ArrowType::Decimal256(precision, scale)
        }
    } else {
        // Unbound NUMERIC: the widest safe default
        ArrowType::Decimal256(38, 0)
    }
}

} // verus!
