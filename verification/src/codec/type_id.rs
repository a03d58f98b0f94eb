//! PostgreSQL base-type catalogue: type OIDs, on-disk sizes, alignment,
//! static `pg_type` metadata and the Arrow data type each one maps to.

use vstd::prelude::*;

use crate::heap::tuple::PgAlign;
use crate::types::arrow::{
    list_of, spec_list_of, ArrowIntervalUnit, ArrowTimeUnit, ArrowTimeZone, ArrowType,
};

verus! {

/// Known PostgreSQL base type OIDs (and the array types built on them).
///
/// `oid()` gives the `pg_type.oid` of each variant; `PgTypeId::try_from(oid)`
/// maps a raw OID read from disk back to its variant.
#[derive(Debug, Clone, Copy, PartialEq, Eq, Hash, Structural)]
pub enum PgTypeId {
    Bool,
    Bytea,
    Char,
    Name,
    Int8,
    Int2,
    Int4,
    Text,
    Oid,
    Tid,
    Xid,
    Cid,
    Json,
    Xml,
    Point,
    Lseg,
    Path,
    Box,
    Polygon,
    Line,
    Cidr,
    Float4,
    Float8,
    Circle,
    Macaddr8,
    Money,
    Macaddr,
    Inet,
    Aclitem,
    Bpchar,
    Varchar,
    Date,
    Time,
    Timestamp,
    Timestamptz,
    Interval,
    Timetz,
    Bit,
    Varbit,
    Numeric,
    Uuid,
    Jsonb,
    Jsonpath,
    Xid8,
    BoolArray,
    ByteaArray,
    CharArray,
    NameArray,
    Int2Array,
    Int4Array,
    TextArray,
    TidArray,
    XidArray,
    CidArray,
    VarcharArray,
    Int8Array,
    Float4Array,
    Float8Array,
    OidArray,
    TimestampArray,
    DateArray,
    TimeArray,
    TimestamptzArray,
    NumericArray,
    UuidArray,
    JsonbArray,
}

/// On-disk size classification for a PostgreSQL type.
#[derive(Debug, Clone, Copy, PartialEq, Eq, Structural)]
pub enum PgTypeLen {
    /// Fixed-width type: always exactly this many bytes on disk.
    Fixed(u16),
    /// Variable-length (varlena): has a 1-byte or 4-byte length header.
    Varlena,
    /// Null-terminated C string (typlen = -2).
    CString,
}

/// PostgreSQL type categories as defined in `pg_type.typcategory`.
#[derive(Debug, Clone, Copy, PartialEq, Eq, Structural)]
pub enum PgTypeCategory {
    Boolean,
    Numeric,
    String,
    DateTime,
    Timespan,
    Geometric,
    NetworkAddress,
    BitString,
    UserDefined,
    Array,
    Internal,
}

/// TOAST storage strategy for a type (`pg_type.typstorage`).
#[derive(Debug, Clone, Copy, PartialEq, Eq, Structural)]
pub enum PgTypeStorage {
    Plain,
    Extended,
    Main,
    External,
}

/// Static metadata for a PostgreSQL base type, as found in `pg_type`.
#[derive(Debug, Clone, Copy)]
pub struct PgTypeInfo {
    /// pg_type.oid
    pub oid: u32,
    /// pg_type.typname
    pub name: &'static str,
    /// pg_type.typlen: -1 = varlena, -2 = cstring, >0 = fixed width in bytes
    pub typlen: i16,
    /// pg_type.typbyval
    pub typbyval: bool,
    /// pg_type.typcategory
    pub category: PgTypeCategory,
    /// pg_type.typalign
    pub align: PgAlign,
    /// pg_type.typstorage
    pub storage: PgTypeStorage,
}

/// `pg_type.typlen` as implied by an on-disk size classification.
pub open spec fn typlen_of(len: PgTypeLen) -> int {
    match len {
        PgTypeLen::Fixed(n) => n as int,
        PgTypeLen::Varlena => -1,
        PgTypeLen::CString => -2,
    }
}

/// The alignment class for an alignment given in bytes.
pub open spec fn align_class_of(bytes: usize) -> PgAlign {
    if bytes == 1 {
        PgAlign::Char
    } else if bytes == 2 {
        PgAlign::Short
    } else if bytes == 4 {
        PgAlign::Int
    } else {
        PgAlign::Double
    }
}

impl PgTypeId {
    /// The `pg_type.oid` of this type.
    pub open spec fn spec_oid(self) -> u32 {
        match self {
            PgTypeId::Bool => 16,
            PgTypeId::Bytea => 17,
            PgTypeId::Char => 18,
            PgTypeId::Name => 19,
            PgTypeId::Int8 => 20,
            PgTypeId::Int2 => 21,
            PgTypeId::Int4 => 23,
            PgTypeId::Text => 25,
            PgTypeId::Oid => 26,
            PgTypeId::Tid => 27,
            PgTypeId::Xid => 28,
            PgTypeId::Cid => 29,
            PgTypeId::Json => 114,
            PgTypeId::Xml => 142,
            PgTypeId::Point => 600,
            PgTypeId::Lseg => 601,
            PgTypeId::Path => 602,
            PgTypeId::Box => 603,
            PgTypeId::Polygon => 604,
            PgTypeId::Line => 628,
            PgTypeId::Cidr => 650,
            PgTypeId::Float4 => 700,
            PgTypeId::Float8 => 701,
            PgTypeId::Circle => 718,
            PgTypeId::Macaddr8 => 774,
            PgTypeId::Money => 790,
            PgTypeId::Macaddr => 829,
            PgTypeId::Inet => 869,
            PgTypeId::Aclitem => 1033,
            PgTypeId::Bpchar => 1042,
            PgTypeId::Varchar => 1043,
            PgTypeId::Date => 1082,
            PgTypeId::Time => 1083,
            PgTypeId::Timestamp => 1114,
            PgTypeId::Timestamptz => 1184,
            PgTypeId::Interval => 1186,
            PgTypeId::Timetz => 1266,
            PgTypeId::Bit => 1560,
            PgTypeId::Varbit => 1562,
            PgTypeId::Numeric => 1700,
            PgTypeId::Uuid => 2950,
            PgTypeId::Jsonb => 3802,
            PgTypeId::Jsonpath => 4072,
            PgTypeId::Xid8 => 5069,
            PgTypeId::BoolArray => 1000,
            PgTypeId::ByteaArray => 1001,
            PgTypeId::CharArray => 1002,
            PgTypeId::NameArray => 1003,
            PgTypeId::Int2Array => 1005,
            PgTypeId::Int4Array => 1007,
            PgTypeId::TextArray => 1009,
            PgTypeId::TidArray => 1010,
            PgTypeId::XidArray => 1011,
            PgTypeId::CidArray => 1012,
            PgTypeId::VarcharArray => 1015,
            PgTypeId::Int8Array => 1016,
            PgTypeId::Float4Array => 1021,
            PgTypeId::Float8Array => 1022,
            PgTypeId::OidArray => 1028,
            PgTypeId::TimestampArray => 1115,
            PgTypeId::DateArray => 1182,
            PgTypeId::TimeArray => 1183,
            PgTypeId::TimestamptzArray => 1185,
            PgTypeId::NumericArray => 1231,
            PgTypeId::UuidArray => 2951,
            PgTypeId::JsonbArray => 3807,
        }
    }

    /// The variant whose OID is `oid`, if any.
    pub open spec fn spec_from_oid(oid: u32) -> Option<PgTypeId> {
        match oid {
            16 => Some(PgTypeId::Bool),
            17 => Some(PgTypeId::Bytea),
            18 => Some(PgTypeId::Char),
            19 => Some(PgTypeId::Name),
            20 => Some(PgTypeId::Int8),
            21 => Some(PgTypeId::Int2),
            23 => Some(PgTypeId::Int4),
            25 => Some(PgTypeId::Text),
            26 => Some(PgTypeId::Oid),
            27 => Some(PgTypeId::Tid),
            28 => Some(PgTypeId::Xid),
            29 => Some(PgTypeId::Cid),
            114 => Some(PgTypeId::Json),
            142 => Some(PgTypeId::Xml),
            600 => Some(PgTypeId::Point),
            601 => Some(PgTypeId::Lseg),
            602 => Some(PgTypeId::Path),
            603 => Some(PgTypeId::Box),
            604 => Some(PgTypeId::Polygon),
            628 => Some(PgTypeId::Line),
            650 => Some(PgTypeId::Cidr),
            700 => Some(PgTypeId::Float4),
            701 => Some(PgTypeId::Float8),
            718 => Some(PgTypeId::Circle),
            774 => Some(PgTypeId::Macaddr8),
            790 => Some(PgTypeId::Money),
            829 => Some(PgTypeId::Macaddr),
            869 => Some(PgTypeId::Inet),
            1033 => Some(PgTypeId::Aclitem),
            1042 => Some(PgTypeId::Bpchar),
            1043 => Some(PgTypeId::Varchar),
            1082 => Some(PgTypeId::Date),
            1083 => Some(PgTypeId::Time),
            1114 => Some(PgTypeId::Timestamp),
            1184 => Some(PgTypeId::Timestamptz),
            1186 => Some(PgTypeId::Interval),
            1266 => Some(PgTypeId::Timetz),
            1560 => Some(PgTypeId::Bit),
            1562 => Some(PgTypeId::Varbit),
            1700 => Some(PgTypeId::Numeric),
            2950 => Some(PgTypeId::Uuid),
            3802 => Some(PgTypeId::Jsonb),
            4072 => Some(PgTypeId::Jsonpath),
            5069 => Some(PgTypeId::Xid8),
            1000 => Some(PgTypeId::BoolArray),
            1001 => Some(PgTypeId::ByteaArray),
            1002 => Some(PgTypeId::CharArray),
            1003 => Some(PgTypeId::NameArray),
            1005 => Some(PgTypeId::Int2Array),
            1007 => Some(PgTypeId::Int4Array),
            1009 => Some(PgTypeId::TextArray),
            1010 => Some(PgTypeId::TidArray),
            1011 => Some(PgTypeId::XidArray),
            1012 => Some(PgTypeId::CidArray),
            1015 => Some(PgTypeId::VarcharArray),
            1016 => Some(PgTypeId::Int8Array),
            1021 => Some(PgTypeId::Float4Array),
            1022 => Some(PgTypeId::Float8Array),
            1028 => Some(PgTypeId::OidArray),
            1115 => Some(PgTypeId::TimestampArray),
            1182 => Some(PgTypeId::DateArray),
            1183 => Some(PgTypeId::TimeArray),
            1185 => Some(PgTypeId::TimestamptzArray),
            1231 => Some(PgTypeId::NumericArray),
            2951 => Some(PgTypeId::UuidArray),
            3807 => Some(PgTypeId::JsonbArray),
            _ => None,
        }
    }

    /// True for the array types (`typcategory = 'A'`).
    pub open spec fn is_array(self) -> bool {
        match self {
            PgTypeId::BoolArray
            | PgTypeId::ByteaArray
            | PgTypeId::CharArray
            | PgTypeId::NameArray
            | PgTypeId::Int2Array
            | PgTypeId::Int4Array
            | PgTypeId::TextArray
            | PgTypeId::TidArray
            | PgTypeId::XidArray
            | PgTypeId::CidArray
            | PgTypeId::VarcharArray
            | PgTypeId::Int8Array
            | PgTypeId::Float4Array
            | PgTypeId::Float8Array
            | PgTypeId::OidArray
            | PgTypeId::TimestampArray
            | PgTypeId::DateArray
            | PgTypeId::TimeArray
            | PgTypeId::TimestamptzArray
            | PgTypeId::NumericArray
            | PgTypeId::UuidArray
            | PgTypeId::JsonbArray => true,
            _ => false,
        }
    }

    /// The element type of an array type.
    pub open spec fn array_element(self) -> Option<PgTypeId> {
        match self {
            PgTypeId::BoolArray => Some(PgTypeId::Bool),
            PgTypeId::ByteaArray => Some(PgTypeId::Bytea),
            PgTypeId::CharArray => Some(PgTypeId::Char),
            PgTypeId::NameArray => Some(PgTypeId::Name),
            PgTypeId::Int2Array => Some(PgTypeId::Int2),
            PgTypeId::Int4Array => Some(PgTypeId::Int4),
            PgTypeId::TextArray => Some(PgTypeId::Text),
            PgTypeId::TidArray => Some(PgTypeId::Tid),
            PgTypeId::XidArray => Some(PgTypeId::Xid),
            PgTypeId::CidArray => Some(PgTypeId::Cid),
            PgTypeId::VarcharArray => Some(PgTypeId::Varchar),
            PgTypeId::Int8Array => Some(PgTypeId::Int8),
            PgTypeId::Float4Array => Some(PgTypeId::Float4),
            PgTypeId::Float8Array => Some(PgTypeId::Float8),
            PgTypeId::OidArray => Some(PgTypeId::Oid),
            PgTypeId::TimestampArray => Some(PgTypeId::Timestamp),
            PgTypeId::DateArray => Some(PgTypeId::Date),
            PgTypeId::TimeArray => Some(PgTypeId::Time),
            PgTypeId::TimestamptzArray => Some(PgTypeId::Timestamptz),
            PgTypeId::NumericArray => Some(PgTypeId::Numeric),
            PgTypeId::UuidArray => Some(PgTypeId::Uuid),
            PgTypeId::JsonbArray => Some(PgTypeId::Jsonb),
            _ => None,
        }
    }

    /// On-disk size classification of this type.
    pub open spec fn spec_type_len(self) -> PgTypeLen {
        match self {
            PgTypeId::Bool
            | PgTypeId::Char => PgTypeLen::Fixed(1),
            PgTypeId::Int2 => PgTypeLen::Fixed(2),
            PgTypeId::Int4
            | PgTypeId::Oid
            | PgTypeId::Xid
            | PgTypeId::Cid
            | PgTypeId::Float4
            | PgTypeId::Date => PgTypeLen::Fixed(4),
            PgTypeId::Tid
            | PgTypeId::Macaddr => PgTypeLen::Fixed(6),
            PgTypeId::Int8
            | PgTypeId::Float8
            | PgTypeId::Money
            | PgTypeId::Time
            | PgTypeId::Timestamp
            | PgTypeId::Timestamptz
            | PgTypeId::Xid8
            | PgTypeId::Macaddr8 => PgTypeLen::Fixed(8),
            PgTypeId::Timetz => PgTypeLen::Fixed(12),
            PgTypeId::Interval
            | PgTypeId::Point
            | PgTypeId::Uuid
            | PgTypeId::Aclitem => PgTypeLen::Fixed(16),
            PgTypeId::Line
            | PgTypeId::Circle => PgTypeLen::Fixed(24),
            PgTypeId::Lseg
            | PgTypeId::Box => PgTypeLen::Fixed(32),
            PgTypeId::Name => PgTypeLen::Fixed(64),
            _ => PgTypeLen::Varlena,
        }
    }

    /// Required alignment in bytes.
    pub open spec fn spec_align(self) -> usize {
        match self {
            PgTypeId::Bool
            | PgTypeId::Char
            | PgTypeId::Name
            | PgTypeId::Uuid => 1,
            PgTypeId::Int2
            | PgTypeId::Tid => 2,
            PgTypeId::Int8
            | PgTypeId::Float8
            | PgTypeId::Money
            | PgTypeId::Xid8
            | PgTypeId::Time
            | PgTypeId::Timestamp
            | PgTypeId::Timestamptz
            | PgTypeId::Interval
            | PgTypeId::Timetz
            | PgTypeId::Point
            | PgTypeId::Line
            | PgTypeId::Lseg
            | PgTypeId::Box
            | PgTypeId::Circle
            | PgTypeId::Path
            | PgTypeId::Polygon
            | PgTypeId::Aclitem => 8,
            _ => 4,
        }
    }

    /// The Arrow data type of a non-array type.
    pub open spec fn scalar_arrow_type(self) -> ArrowType {
        match self {
            PgTypeId::Bool => ArrowType::Boolean,
            PgTypeId::Bytea => ArrowType::Binary,
            PgTypeId::Char => ArrowType::UInt8,
            PgTypeId::Name => ArrowType::Utf8,
            PgTypeId::Int8 => ArrowType::Int64,
            PgTypeId::Int2 => ArrowType::Int16,
            PgTypeId::Int4 => ArrowType::Int32,
            PgTypeId::Text => ArrowType::Utf8,
            PgTypeId::Oid => ArrowType::UInt32,
            PgTypeId::Tid => ArrowType::Binary,
            PgTypeId::Xid => ArrowType::UInt32,
            PgTypeId::Cid => ArrowType::UInt32,
            PgTypeId::Json => ArrowType::Utf8,
            PgTypeId::Xml => ArrowType::Utf8,
            PgTypeId::Point => ArrowType::FixedSizeBinary(16),
            PgTypeId::Lseg => ArrowType::FixedSizeBinary(32),
            PgTypeId::Path => ArrowType::Binary,
            PgTypeId::Box => ArrowType::FixedSizeBinary(32),
            PgTypeId::Polygon => ArrowType::Binary,
            PgTypeId::Line => ArrowType::FixedSizeBinary(24),
            PgTypeId::Cidr => ArrowType::Binary,
            PgTypeId::Float4 => ArrowType::Float32,
            PgTypeId::Float8 => ArrowType::Float64,
            PgTypeId::Circle => ArrowType::FixedSizeBinary(24),
            PgTypeId::Macaddr8 => ArrowType::FixedSizeBinary(8),
            PgTypeId::Money => ArrowType::Int64,
            PgTypeId::Macaddr => ArrowType::FixedSizeBinary(6),
            PgTypeId::Inet => ArrowType::Binary,
            PgTypeId::Aclitem => ArrowType::Binary,
            PgTypeId::Bpchar => ArrowType::Utf8,
            PgTypeId::Varchar => ArrowType::Utf8,
            PgTypeId::Date => ArrowType::Date32,
            PgTypeId::Time => ArrowType::Time64(ArrowTimeUnit::Microsecond),
            PgTypeId::Timestamp => ArrowType::Timestamp(ArrowTimeUnit::Microsecond, None),
            PgTypeId::Timestamptz => ArrowType::Timestamp(ArrowTimeUnit::Microsecond, Some(ArrowTimeZone::Utc)),
            PgTypeId::Interval => ArrowType::Interval(ArrowIntervalUnit::MonthDayNano),
            PgTypeId::Timetz => ArrowType::Time64(ArrowTimeUnit::Microsecond),
            PgTypeId::Bit => ArrowType::Binary,
            PgTypeId::Varbit => ArrowType::Binary,
            PgTypeId::Numeric => ArrowType::Decimal256(38, 0),
            PgTypeId::Uuid => ArrowType::FixedSizeBinary(16),
            PgTypeId::Jsonb => ArrowType::Binary,
            PgTypeId::Jsonpath => ArrowType::Binary,
            PgTypeId::Xid8 => ArrowType::UInt64,
            _ => ArrowType::Binary,
        }
    }

    /// The Arrow data type this PostgreSQL type maps to: arrays map to a
    /// list of their element's Arrow type.
    pub open spec fn spec_arrow_type(self) -> ArrowType {
        match self.array_element() {
            Some(e) => spec_list_of(e.scalar_arrow_type()),
            None => self.scalar_arrow_type(),
        }
    }

    /// `pg_type.typname` of this type ("array" for all the array types).
    pub open spec fn spec_type_name(self) -> Seq<char> {
        match self {
            PgTypeId::Bool => "bool"@,
            PgTypeId::Bytea => "bytea"@,
            PgTypeId::Char => "char"@,
            PgTypeId::Name => "name"@,
            PgTypeId::Int8 => "int8"@,
            PgTypeId::Int2 => "int2"@,
            PgTypeId::Int4 => "int4"@,
            PgTypeId::Text => "text"@,
            PgTypeId::Oid => "oid"@,
            PgTypeId::Tid => "tid"@,
            PgTypeId::Xid => "xid"@,
            PgTypeId::Cid => "cid"@,
            PgTypeId::Json => "json"@,
            PgTypeId::Xml => "xml"@,
            PgTypeId::Point => "point"@,
            PgTypeId::Lseg => "lseg"@,
            PgTypeId::Path => "path"@,
            PgTypeId::Box => "box"@,
            PgTypeId::Polygon => "polygon"@,
            PgTypeId::Line => "line"@,
            PgTypeId::Cidr => "cidr"@,
            PgTypeId::Float4 => "float4"@,
            PgTypeId::Float8 => "float8"@,
            PgTypeId::Circle => "circle"@,
            PgTypeId::Macaddr8 => "macaddr8"@,
            PgTypeId::Money => "money"@,
            PgTypeId::Macaddr => "macaddr"@,
            PgTypeId::Inet => "inet"@,
            PgTypeId::Aclitem => "aclitem"@,
            PgTypeId::Bpchar => "bpchar"@,
            PgTypeId::Varchar => "varchar"@,
            PgTypeId::Date => "date"@,
            PgTypeId::Time => "time"@,
            PgTypeId::Timestamp => "timestamp"@,
            PgTypeId::Timestamptz => "timestamptz"@,
            PgTypeId::Interval => "interval"@,
            PgTypeId::Timetz => "timetz"@,
            PgTypeId::Bit => "bit"@,
            PgTypeId::Varbit => "varbit"@,
            PgTypeId::Numeric => "numeric"@,
            PgTypeId::Uuid => "uuid"@,
            PgTypeId::Jsonb => "jsonb"@,
            PgTypeId::Jsonpath => "jsonpath"@,
            PgTypeId::Xid8 => "xid8"@,
            _ => "array"@,
        }
    }

    /// `pg_type.typbyval` of this type.
    pub open spec fn spec_typbyval(self) -> bool {
        match self {
            PgTypeId::Bool
            | PgTypeId::Char
            | PgTypeId::Int8
            | PgTypeId::Int2
            | PgTypeId::Int4
            | PgTypeId::Oid
            | PgTypeId::Xid
            | PgTypeId::Cid
            | PgTypeId::Float4
            | PgTypeId::Float8
            | PgTypeId::Money
            | PgTypeId::Date
            | PgTypeId::Time
            | PgTypeId::Timestamp
            | PgTypeId::Timestamptz
            | PgTypeId::Xid8 => true,
            _ => false,
        }
    }

    /// `pg_type.typcategory` of this type.
    pub open spec fn spec_category(self) -> PgTypeCategory {
        match self {
            PgTypeId::Bool => PgTypeCategory::Boolean,
            PgTypeId::Bytea
            | PgTypeId::Tid
            | PgTypeId::Xid
            | PgTypeId::Cid
            | PgTypeId::Json
            | PgTypeId::Xml
            | PgTypeId::Macaddr8
            | PgTypeId::Macaddr
            | PgTypeId::Aclitem
            | PgTypeId::Uuid
            | PgTypeId::Jsonb
            | PgTypeId::Jsonpath
            | PgTypeId::Xid8 => PgTypeCategory::UserDefined,
            PgTypeId::Char => PgTypeCategory::Internal,
            PgTypeId::Name
            | PgTypeId::Text
            | PgTypeId::Bpchar
            | PgTypeId::Varchar => PgTypeCategory::String,
            PgTypeId::Int8
            | PgTypeId::Int2
            | PgTypeId::Int4
            | PgTypeId::Oid
            | PgTypeId::Float4
            | PgTypeId::Float8
            | PgTypeId::Money
            | PgTypeId::Numeric => PgTypeCategory::Numeric,
            PgTypeId::Point
            | PgTypeId::Lseg
            | PgTypeId::Path
            | PgTypeId::Box
            | PgTypeId::Polygon
            | PgTypeId::Line
            | PgTypeId::Circle => PgTypeCategory::Geometric,
            PgTypeId::Cidr
            | PgTypeId::Inet => PgTypeCategory::NetworkAddress,
            PgTypeId::Date
            | PgTypeId::Time
            | PgTypeId::Timestamp
            | PgTypeId::Timestamptz
            | PgTypeId::Timetz => PgTypeCategory::DateTime,
            PgTypeId::Interval => PgTypeCategory::Timespan,
            PgTypeId::Bit
            | PgTypeId::Varbit => PgTypeCategory::BitString,
            _ => PgTypeCategory::Array,
        }
    }

    /// `pg_type.typstorage` of this type.
    pub open spec fn spec_storage(self) -> PgTypeStorage {
        match self {
            PgTypeId::Bool
            | PgTypeId::Char
            | PgTypeId::Name
            | PgTypeId::Int8
            | PgTypeId::Int2
            | PgTypeId::Int4
            | PgTypeId::Oid
            | PgTypeId::Tid
            | PgTypeId::Xid
            | PgTypeId::Cid
            | PgTypeId::Point
            | PgTypeId::Lseg
            | PgTypeId::Box
            | PgTypeId::Line
            | PgTypeId::Float4
            | PgTypeId::Float8
            | PgTypeId::Circle
            | PgTypeId::Macaddr8
            | PgTypeId::Money
            | PgTypeId::Macaddr
            | PgTypeId::Aclitem
            | PgTypeId::Date
            | PgTypeId::Time
            | PgTypeId::Timestamp
            | PgTypeId::Timestamptz
            | PgTypeId::Interval
            | PgTypeId::Timetz
            | PgTypeId::Uuid
            | PgTypeId::Xid8 => PgTypeStorage::Plain,
            PgTypeId::Cidr
            | PgTypeId::Inet
            | PgTypeId::Numeric => PgTypeStorage::Main,
            _ => PgTypeStorage::Extended,
        }
    }

    /// The raw OID value as `u32`.
    pub fn oid(self) -> (r: u32)
        ensures
            r == self.spec_oid(),
    {
        match self {
            PgTypeId::Bool => 16,
            PgTypeId::Bytea => 17,
            PgTypeId::Char => 18,
            PgTypeId::Name => 19,
            PgTypeId::Int8 => 20,
            PgTypeId::Int2 => 21,
            PgTypeId::Int4 => 23,
            PgTypeId::Text => 25,
            PgTypeId::Oid => 26,
            PgTypeId::Tid => 27,
            PgTypeId::Xid => 28,
            PgTypeId::Cid => 29,
            PgTypeId::Json => 114,
            PgTypeId::Xml => 142,
            PgTypeId::Point => 600,
            PgTypeId::Lseg => 601,
            PgTypeId::Path => 602,
            PgTypeId::Box => 603,
            PgTypeId::Polygon => 604,
            PgTypeId::Line => 628,
            PgTypeId::Cidr => 650,
            PgTypeId::Float4 => 700,
            PgTypeId::Float8 => 701,
            PgTypeId::Circle => 718,
            PgTypeId::Macaddr8 => 774,
            PgTypeId::Money => 790,
            PgTypeId::Macaddr => 829,
            PgTypeId::Inet => 869,
            PgTypeId::Aclitem => 1033,
            PgTypeId::Bpchar => 1042,
            PgTypeId::Varchar => 1043,
            PgTypeId::Date => 1082,
            PgTypeId::Time => 1083,
            PgTypeId::Timestamp => 1114,
            PgTypeId::Timestamptz => 1184,
            PgTypeId::Interval => 1186,
            PgTypeId::Timetz => 1266,
            PgTypeId::Bit => 1560,
            PgTypeId::Varbit => 1562,
            PgTypeId::Numeric => 1700,
            PgTypeId::Uuid => 2950,
            PgTypeId::Jsonb => 3802,
            PgTypeId::Jsonpath => 4072,
            PgTypeId::Xid8 => 5069,
            PgTypeId::BoolArray => 1000,
            PgTypeId::ByteaArray => 1001,
            PgTypeId::CharArray => 1002,
            PgTypeId::NameArray => 1003,
            PgTypeId::Int2Array => 1005,
            PgTypeId::Int4Array => 1007,
            PgTypeId::TextArray => 1009,
            PgTypeId::TidArray => 1010,
            PgTypeId::XidArray => 1011,
            PgTypeId::CidArray => 1012,
            PgTypeId::VarcharArray => 1015,
            PgTypeId::Int8Array => 1016,
            PgTypeId::Float4Array => 1021,
            PgTypeId::Float8Array => 1022,
            PgTypeId::OidArray => 1028,
            PgTypeId::TimestampArray => 1115,
            PgTypeId::DateArray => 1182,
            PgTypeId::TimeArray => 1183,
            PgTypeId::TimestamptzArray => 1185,
            PgTypeId::NumericArray => 1231,
            PgTypeId::UuidArray => 2951,
            PgTypeId::JsonbArray => 3807,
        }
    }

    /// Convert a raw OID from disk into a known type; `Err(oid)` for an
    /// unrecognised OID.
    pub fn try_from_oid(oid: u32) -> (r: Result<PgTypeId, u32>)
        ensures
            r == (match Self::spec_from_oid(oid) {
                Some(t) => Ok::<PgTypeId, u32>(t),
                None => Err::<PgTypeId, u32>(oid),
            }),
    {
        match oid {
            16 => Ok(PgTypeId::Bool),
            17 => Ok(PgTypeId::Bytea),
            18 => Ok(PgTypeId::Char),
            19 => Ok(PgTypeId::Name),
            20 => Ok(PgTypeId::Int8),
            21 => Ok(PgTypeId::Int2),
            23 => Ok(PgTypeId::Int4),
            25 => Ok(PgTypeId::Text),
            26 => Ok(PgTypeId::Oid),
            27 => Ok(PgTypeId::Tid),
            28 => Ok(PgTypeId::Xid),
            29 => Ok(PgTypeId::Cid),
            114 => Ok(PgTypeId::Json),
            142 => Ok(PgTypeId::Xml),
            600 => Ok(PgTypeId::Point),
            601 => Ok(PgTypeId::Lseg),
            602 => Ok(PgTypeId::Path),
            603 => Ok(PgTypeId::Box),
            604 => Ok(PgTypeId::Polygon),
            628 => Ok(PgTypeId::Line),
            650 => Ok(PgTypeId::Cidr),
            700 => Ok(PgTypeId::Float4),
            701 => Ok(PgTypeId::Float8),
            718 => Ok(PgTypeId::Circle),
            774 => Ok(PgTypeId::Macaddr8),
            790 => Ok(PgTypeId::Money),
            829 => Ok(PgTypeId::Macaddr),
            869 => Ok(PgTypeId::Inet),
            1033 => Ok(PgTypeId::Aclitem),
            1042 => Ok(PgTypeId::Bpchar),
            1043 => Ok(PgTypeId::Varchar),
            1082 => Ok(PgTypeId::Date),
            1083 => Ok(PgTypeId::Time),
            1114 => Ok(PgTypeId::Timestamp),
            1184 => Ok(PgTypeId::Timestamptz),
            1186 => Ok(PgTypeId::Interval),
            1266 => Ok(PgTypeId::Timetz),
            1560 => Ok(PgTypeId::Bit),
            1562 => Ok(PgTypeId::Varbit),
            1700 => Ok(PgTypeId::Numeric),
            2950 => Ok(PgTypeId::Uuid),
            3802 => Ok(PgTypeId::Jsonb),
            4072 => Ok(PgTypeId::Jsonpath),
            5069 => Ok(PgTypeId::Xid8),
            1000 => Ok(PgTypeId::BoolArray),
            1001 => Ok(PgTypeId::ByteaArray),
            1002 => Ok(PgTypeId::CharArray),
            1003 => Ok(PgTypeId::NameArray),
            1005 => Ok(PgTypeId::Int2Array),
            1007 => Ok(PgTypeId::Int4Array),
            1009 => Ok(PgTypeId::TextArray),
            1010 => Ok(PgTypeId::TidArray),
            1011 => Ok(PgTypeId::XidArray),
            1012 => Ok(PgTypeId::CidArray),
            1015 => Ok(PgTypeId::VarcharArray),
            1016 => Ok(PgTypeId::Int8Array),
            1021 => Ok(PgTypeId::Float4Array),
            1022 => Ok(PgTypeId::Float8Array),
            1028 => Ok(PgTypeId::OidArray),
            1115 => Ok(PgTypeId::TimestampArray),
            1182 => Ok(PgTypeId::DateArray),
            1183 => Ok(PgTypeId::TimeArray),
            1185 => Ok(PgTypeId::TimestamptzArray),
            1231 => Ok(PgTypeId::NumericArray),
            2951 => Ok(PgTypeId::UuidArray),
            3807 => Ok(PgTypeId::JsonbArray),
            other => Err(other),
        }
    }

    /// On-disk size classification: how many bytes to read, or whether a
    /// varlena header has to be parsed.
    pub fn type_len(self) -> (r: PgTypeLen)
        ensures
            r == self.spec_type_len(),
    {
        match self {
            Self::Bool
            | Self::Char => PgTypeLen::Fixed(1),
            Self::Int2 => PgTypeLen::Fixed(2),
            Self::Int4
            | Self::Oid
            | Self::Xid
            | Self::Cid
            | Self::Float4
            | Self::Date => PgTypeLen::Fixed(4),
            Self::Tid
            | Self::Macaddr => PgTypeLen::Fixed(6),
            Self::Int8
            | Self::Float8
            | Self::Money
            | Self::Time
            | Self::Timestamp
            | Self::Timestamptz
            | Self::Xid8
            | Self::Macaddr8 => PgTypeLen::Fixed(8),
            Self::Timetz => PgTypeLen::Fixed(12),
            Self::Interval
            | Self::Point
            | Self::Uuid
            | Self::Aclitem => PgTypeLen::Fixed(16),
            Self::Line
            | Self::Circle => PgTypeLen::Fixed(24),
            Self::Lseg
            | Self::Box => PgTypeLen::Fixed(32),
            Self::Name => PgTypeLen::Fixed(64),
            Self::Bytea
            | Self::Text
            | Self::Json
            | Self::Xml
            | Self::Path
            | Self::Polygon
            | Self::Cidr
            | Self::Inet
            | Self::Bpchar
            | Self::Varchar
            | Self::Bit
            | Self::Varbit
            | Self::Numeric
            | Self::Jsonb
            | Self::Jsonpath
            | Self::BoolArray
            | Self::ByteaArray
            | Self::CharArray
            | Self::NameArray
            | Self::Int2Array
            | Self::Int4Array
            | Self::TextArray
            | Self::TidArray
            | Self::XidArray
            | Self::CidArray
            | Self::VarcharArray
            | Self::Int8Array
            | Self::Float4Array
            | Self::Float8Array
            | Self::OidArray
            | Self::TimestampArray
            | Self::DateArray
            | Self::TimeArray
            | Self::TimestamptzArray
            | Self::NumericArray
            | Self::UuidArray
            | Self::JsonbArray => PgTypeLen::Varlena,
        }
    }

    /// Required alignment in bytes (1, 2, 4 or 8).
    pub fn align(self) -> (r: usize)
        ensures
            r == self.spec_align(),
    {
        match self {
            Self::Bool
            | Self::Char
            | Self::Name
            | Self::Uuid => 1,
            Self::Int2
            | Self::Tid => 2,
            Self::Int4
            | Self::Oid
            | Self::Xid
            | Self::Cid
            | Self::Float4
            | Self::Date
            | Self::Text
            | Self::Varchar
            | Self::Bpchar
            | Self::Bytea
            | Self::Json
            | Self::Xml
            | Self::Jsonb
            | Self::Jsonpath
            | Self::Numeric
            | Self::Inet
            | Self::Cidr
            | Self::Macaddr
            | Self::Macaddr8
            | Self::Bit
            | Self::Varbit
            | Self::BoolArray
            | Self::ByteaArray
            | Self::CharArray
            | Self::NameArray
            | Self::Int2Array
            | Self::Int4Array
            | Self::TextArray
            | Self::TidArray
            | Self::XidArray
            | Self::CidArray
            | Self::VarcharArray
            | Self::Int8Array
            | Self::Float4Array
            | Self::Float8Array
            | Self::OidArray
            | Self::TimestampArray
            | Self::DateArray
            | Self::TimeArray
            | Self::TimestamptzArray
            | Self::NumericArray
            | Self::UuidArray
            | Self::JsonbArray => 4,
            Self::Int8
            | Self::Float8
            | Self::Money
            | Self::Xid8
            | Self::Time
            | Self::Timestamp
            | Self::Timestamptz
            | Self::Interval
            | Self::Timetz
            | Self::Point
            | Self::Line
            | Self::Lseg
            | Self::Box
            | Self::Circle
            | Self::Path
            | Self::Polygon
            | Self::Aclitem => 8,
        }
    }

    /// Maps this PostgreSQL type to its Arrow data type.
    pub fn arrow_type(self) -> (r: ArrowType)
        ensures
            r == self.spec_arrow_type(),
    {
        match self {
            Self::Bool => ArrowType::Boolean,
            Self::Bytea => ArrowType::Binary,
            Self::Char => ArrowType::UInt8,
            Self::Name => ArrowType::Utf8,
            Self::Int8 => ArrowType::Int64,
            Self::Int2 => ArrowType::Int16,
            Self::Int4 => ArrowType::Int32,
            Self::Text => ArrowType::Utf8,
            Self::Oid => ArrowType::UInt32,
            Self::Tid => ArrowType::Binary,
            Self::Xid => ArrowType::UInt32,
            Self::Cid => ArrowType::UInt32,
            Self::Json => ArrowType::Utf8,
            Self::Xml => ArrowType::Utf8,
            Self::Point => ArrowType::FixedSizeBinary(16),
            Self::Lseg => ArrowType::FixedSizeBinary(32),
            Self::Path => ArrowType::Binary,
            Self::Box => ArrowType::FixedSizeBinary(32),
            Self::Polygon => ArrowType::Binary,
            Self::Line => ArrowType::FixedSizeBinary(24),
            Self::Cidr => ArrowType::Binary,
            Self::Float4 => ArrowType::Float32,
            Self::Float8 => ArrowType::Float64,
            Self::Circle => ArrowType::FixedSizeBinary(24),
            Self::Macaddr8 => ArrowType::FixedSizeBinary(8),
            Self::Money => ArrowType::Int64,
            Self::Macaddr => ArrowType::FixedSizeBinary(6),
            Self::Inet => ArrowType::Binary,
            Self::Aclitem => ArrowType::Binary,
            Self::Bpchar => ArrowType::Utf8,
            Self::Varchar => ArrowType::Utf8,
            Self::Date => ArrowType::Date32,
            Self::Time => ArrowType::Time64(ArrowTimeUnit::Microsecond),
            Self::Timestamp => ArrowType::Timestamp(ArrowTimeUnit::Microsecond, None),
            Self::Timestamptz => ArrowType::Timestamp(ArrowTimeUnit::Microsecond, Some(ArrowTimeZone::Utc)),
            Self::Interval => ArrowType::Interval(ArrowIntervalUnit::MonthDayNano),
            Self::Timetz => ArrowType::Time64(ArrowTimeUnit::Microsecond),
            Self::Bit => ArrowType::Binary,
            Self::Varbit => ArrowType::Binary,
            Self::Numeric => ArrowType::Decimal256(38, 0),
            Self::Uuid => ArrowType::FixedSizeBinary(16),
            Self::Jsonb => ArrowType::Binary,
            Self::Jsonpath => ArrowType::Binary,
            Self::Xid8 => ArrowType::UInt64,
            Self::BoolArray => list_of(ArrowType::Boolean),
            Self::ByteaArray => list_of(ArrowType::Binary),
            Self::CharArray => list_of(ArrowType::UInt8),
            Self::NameArray => list_of(ArrowType::Utf8),
            Self::Int2Array => list_of(ArrowType::Int16),
            Self::Int4Array => list_of(ArrowType::Int32),
            Self::TextArray => list_of(ArrowType::Utf8),
            Self::TidArray => list_of(ArrowType::Binary),
            Self::XidArray => list_of(ArrowType::UInt32),
            Self::CidArray => list_of(ArrowType::UInt32),
            Self::VarcharArray => list_of(ArrowType::Utf8),
            Self::Int8Array => list_of(ArrowType::Int64),
            Self::Float4Array => list_of(ArrowType::Float32),
            Self::Float8Array => list_of(ArrowType::Float64),
            Self::OidArray => list_of(ArrowType::UInt32),
            Self::TimestampArray => list_of(ArrowType::Timestamp(ArrowTimeUnit::Microsecond, None)),
            Self::DateArray => list_of(ArrowType::Date32),
            Self::TimeArray => list_of(ArrowType::Time64(ArrowTimeUnit::Microsecond)),
            Self::TimestamptzArray => list_of(ArrowType::Timestamp(ArrowTimeUnit::Microsecond, Some(ArrowTimeZone::Utc))),
            Self::NumericArray => list_of(ArrowType::Decimal256(38, 0)),
            Self::UuidArray => list_of(ArrowType::FixedSizeBinary(16)),
            Self::JsonbArray => list_of(ArrowType::Binary),
        }
    }

    /// Returns the `PgTypeInfo` metadata bundle for this type.
    pub fn info(self) -> (r: PgTypeInfo)
        ensures
            r.oid == self.spec_oid(),
            r.name@ == self.spec_type_name(),
            r.typlen == typlen_of(self.spec_type_len()),
            r.typbyval == self.spec_typbyval(),
            r.category == self.spec_category(),
            r.align == align_class_of(self.spec_align()),
            r.storage == self.spec_storage(),
    {
        match self {
            Self::Bool => PgTypeInfo {
                oid: 16,
                name: "bool",
                typlen: 1,
                typbyval: true,
                category: PgTypeCategory::Boolean,
                align: PgAlign::Char,
                storage: PgTypeStorage::Plain,
            },
            Self::Bytea => PgTypeInfo {
                oid: 17,
                name: "bytea",
                typlen: -1,
                typbyval: false,
                category: PgTypeCategory::UserDefined,
                align: PgAlign::Int,
                storage: PgTypeStorage::Extended,
            },
            Self::Char => PgTypeInfo {
                oid: 18,
                name: "char",
                typlen: 1,
                typbyval: true,
                category: PgTypeCategory::Internal,
                align: PgAlign::Char,
                storage: PgTypeStorage::Plain,
            },
            Self::Name => PgTypeInfo {
                oid: 19,
                name: "name",
                typlen: 64,
                typbyval: false,
                category: PgTypeCategory::String,
                align: PgAlign::Char,
                storage: PgTypeStorage::Plain,
            },
            Self::Int8 => PgTypeInfo {
                oid: 20,
                name: "int8",
                typlen: 8,
                typbyval: true,
                category: PgTypeCategory::Numeric,
                align: PgAlign::Double,
                storage: PgTypeStorage::Plain,
            },
            Self::Int2 => PgTypeInfo {
                oid: 21,
                name: "int2",
                typlen: 2,
                typbyval: true,
                category: PgTypeCategory::Numeric,
                align: PgAlign::Short,
                storage: PgTypeStorage::Plain,
            },
            Self::Int4 => PgTypeInfo {
                oid: 23,
                name: "int4",
                typlen: 4,
                typbyval: true,
                category: PgTypeCategory::Numeric,
                align: PgAlign::Int,
                storage: PgTypeStorage::Plain,
            },
            Self::Text => PgTypeInfo {
                oid: 25,
                name: "text",
                typlen: -1,
                typbyval: false,
                category: PgTypeCategory::String,
                align: PgAlign::Int,
                storage: PgTypeStorage::Extended,
            },
            Self::Oid => PgTypeInfo {
                oid: 26,
                name: "oid",
                typlen: 4,
                typbyval: true,
                category: PgTypeCategory::Numeric,
                align: PgAlign::Int,
                storage: PgTypeStorage::Plain,
            },
            Self::Tid => PgTypeInfo {
                oid: 27,
                name: "tid",
                typlen: 6,
                typbyval: false,
                category: PgTypeCategory::UserDefined,
                align: PgAlign::Short,
                storage: PgTypeStorage::Plain,
            },
            Self::Xid => PgTypeInfo {
                oid: 28,
                name: "xid",
                typlen: 4,
                typbyval: true,
                category: PgTypeCategory::UserDefined,
                align: PgAlign::Int,
                storage: PgTypeStorage::Plain,
            },
            Self::Cid => PgTypeInfo {
                oid: 29,
                name: "cid",
                typlen: 4,
                typbyval: true,
                category: PgTypeCategory::UserDefined,
                align: PgAlign::Int,
                storage: PgTypeStorage::Plain,
            },
            Self::Json => PgTypeInfo {
                oid: 114,
                name: "json",
                typlen: -1,
                typbyval: false,
                category: PgTypeCategory::UserDefined,
                align: PgAlign::Int,
                storage: PgTypeStorage::Extended,
            },
            Self::Xml => PgTypeInfo {
                oid: 142,
                name: "xml",
                typlen: -1,
                typbyval: false,
                category: PgTypeCategory::UserDefined,
                align: PgAlign::Int,
                storage: PgTypeStorage::Extended,
            },
            Self::Point => PgTypeInfo {
                oid: 600,
                name: "point",
                typlen: 16,
                typbyval: false,
                category: PgTypeCategory::Geometric,
                align: PgAlign::Double,
                storage: PgTypeStorage::Plain,
            },
            Self::Lseg => PgTypeInfo {
                oid: 601,
                name: "lseg",
                typlen: 32,
                typbyval: false,
                category: PgTypeCategory::Geometric,
                align: PgAlign::Double,
                storage: PgTypeStorage::Plain,
            },
            Self::Path => PgTypeInfo {
                oid: 602,
                name: "path",
                typlen: -1,
                typbyval: false,
                category: PgTypeCategory::Geometric,
                align: PgAlign::Double,
                storage: PgTypeStorage::Extended,
            },
            Self::Box => PgTypeInfo {
                oid: 603,
                name: "box",
                typlen: 32,
                typbyval: false,
                category: PgTypeCategory::Geometric,
                align: PgAlign::Double,
                storage: PgTypeStorage::Plain,
            },
            Self::Polygon => PgTypeInfo {
                oid: 604,
                name: "polygon",
                typlen: -1,
                typbyval: false,
                category: PgTypeCategory::Geometric,
                align: PgAlign::Double,
                storage: PgTypeStorage::Extended,
            },
            Self::Line => PgTypeInfo {
                oid: 628,
                name: "line",
                typlen: 24,
                typbyval: false,
                category: PgTypeCategory::Geometric,
                align: PgAlign::Double,
                storage: PgTypeStorage::Plain,
            },
            Self::Cidr => PgTypeInfo {
                oid: 650,
                name: "cidr",
                typlen: -1,
                typbyval: false,
                category: PgTypeCategory::NetworkAddress,
                align: PgAlign::Int,
                storage: PgTypeStorage::Main,
            },
            Self::Float4 => PgTypeInfo {
                oid: 700,
                name: "float4",
                typlen: 4,
                typbyval: true,
                category: PgTypeCategory::Numeric,
                align: PgAlign::Int,
                storage: PgTypeStorage::Plain,
            },
            Self::Float8 => PgTypeInfo {
                oid: 701,
                name: "float8",
                typlen: 8,
                typbyval: true,
                category: PgTypeCategory::Numeric,
                align: PgAlign::Double,
                storage: PgTypeStorage::Plain,
            },
            Self::Circle => PgTypeInfo {
                oid: 718,
                name: "circle",
                typlen: 24,
                typbyval: false,
                category: PgTypeCategory::Geometric,
                align: PgAlign::Double,
                storage: PgTypeStorage::Plain,
            },
            Self::Macaddr8 => PgTypeInfo {
                oid: 774,
                name: "macaddr8",
                typlen: 8,
                typbyval: false,
                category: PgTypeCategory::UserDefined,
                align: PgAlign::Int,
                storage: PgTypeStorage::Plain,
            },
            Self::Money => PgTypeInfo {
                oid: 790,
                name: "money",
                typlen: 8,
                typbyval: true,
                category: PgTypeCategory::Numeric,
                align: PgAlign::Double,
                storage: PgTypeStorage::Plain,
            },
            Self::Macaddr => PgTypeInfo {
                oid: 829,
                name: "macaddr",
                typlen: 6,
                typbyval: false,
                category: PgTypeCategory::UserDefined,
                align: PgAlign::Int,
                storage: PgTypeStorage::Plain,
            },
            Self::Inet => PgTypeInfo {
                oid: 869,
                name: "inet",
                typlen: -1,
                typbyval: false,
                category: PgTypeCategory::NetworkAddress,
                align: PgAlign::Int,
                storage: PgTypeStorage::Main,
            },
            Self::Aclitem => PgTypeInfo {
                oid: 1033,
                name: "aclitem",
                typlen: 16,
                typbyval: false,
                category: PgTypeCategory::UserDefined,
                align: PgAlign::Double,
                storage: PgTypeStorage::Plain,
            },
            Self::Bpchar => PgTypeInfo {
                oid: 1042,
                name: "bpchar",
                typlen: -1,
                typbyval: false,
                category: PgTypeCategory::String,
                align: PgAlign::Int,
                storage: PgTypeStorage::Extended,
            },
            Self::Varchar => PgTypeInfo {
                oid: 1043,
                name: "varchar",
                typlen: -1,
                typbyval: false,
                category: PgTypeCategory::String,
                align: PgAlign::Int,
                storage: PgTypeStorage::Extended,
            },
            Self::Date => PgTypeInfo {
                oid: 1082,
                name: "date",
                typlen: 4,
                typbyval: true,
                category: PgTypeCategory::DateTime,
                align: PgAlign::Int,
                storage: PgTypeStorage::Plain,
            },
            Self::Time => PgTypeInfo {
                oid: 1083,
                name: "time",
                typlen: 8,
                typbyval: true,
                category: PgTypeCategory::DateTime,
                align: PgAlign::Double,
                storage: PgTypeStorage::Plain,
            },
            Self::Timestamp => PgTypeInfo {
                oid: 1114,
                name: "timestamp",
                typlen: 8,
                typbyval: true,
                category: PgTypeCategory::DateTime,
                align: PgAlign::Double,
                storage: PgTypeStorage::Plain,
            },
            Self::Timestamptz => PgTypeInfo {
                oid: 1184,
                name: "timestamptz",
                typlen: 8,
                typbyval: true,
                category: PgTypeCategory::DateTime,
                align: PgAlign::Double,
                storage: PgTypeStorage::Plain,
            },
            Self::Interval => PgTypeInfo {
                oid: 1186,
                name: "interval",
                typlen: 16,
                typbyval: false,
                category: PgTypeCategory::Timespan,
                align: PgAlign::Double,
                storage: PgTypeStorage::Plain,
            },
            Self::Timetz => PgTypeInfo {
                oid: 1266,
                name: "timetz",
                typlen: 12,
                typbyval: false,
                category: PgTypeCategory::DateTime,
                align: PgAlign::Double,
                storage: PgTypeStorage::Plain,
            },
            Self::Bit => PgTypeInfo {
                oid: 1560,
                name: "bit",
                typlen: -1,
                typbyval: false,
                category: PgTypeCategory::BitString,
                align: PgAlign::Int,
                storage: PgTypeStorage::Extended,
            },
            Self::Varbit => PgTypeInfo {
                oid: 1562,
                name: "varbit",
                typlen: -1,
                typbyval: false,
                category: PgTypeCategory::BitString,
                align: PgAlign::Int,
                storage: PgTypeStorage::Extended,
            },
            Self::Numeric => PgTypeInfo {
                oid: 1700,
                name: "numeric",
                typlen: -1,
                typbyval: false,
                category: PgTypeCategory::Numeric,
                align: PgAlign::Int,
                storage: PgTypeStorage::Main,
            },
            Self::Uuid => PgTypeInfo {
                oid: 2950,
                name: "uuid",
                typlen: 16,
                typbyval: false,
                category: PgTypeCategory::UserDefined,
                align: PgAlign::Char,
                storage: PgTypeStorage::Plain,
            },
            Self::Jsonb => PgTypeInfo {
                oid: 3802,
                name: "jsonb",
                typlen: -1,
                typbyval: false,
                category: PgTypeCategory::UserDefined,
                align: PgAlign::Int,
                storage: PgTypeStorage::Extended,
            },
            Self::Jsonpath => PgTypeInfo {
                oid: 4072,
                name: "jsonpath",
                typlen: -1,
                typbyval: false,
                category: PgTypeCategory::UserDefined,
                align: PgAlign::Int,
                storage: PgTypeStorage::Extended,
            },
            Self::Xid8 => PgTypeInfo {
                oid: 5069,
                name: "xid8",
                typlen: 8,
                typbyval: true,
                category: PgTypeCategory::UserDefined,
                align: PgAlign::Double,
                storage: PgTypeStorage::Plain,
            },
            _ => PgTypeInfo {
                oid: self.oid(),
                name: "array",
                typlen: -1,
                typbyval: false,
                category: PgTypeCategory::Array,
                align: PgAlign::Int,
                storage: PgTypeStorage::Extended,
            },
        }
    }
}

impl TryFrom<u32> for PgTypeId {
    type Error = u32;

    /// Convert a raw OID from disk into a known type; `Err(oid)` for an
    /// unrecognised OID.
    fn try_from(oid: u32) -> (r: Result<Self, u32>) {
        Self::try_from_oid(oid)
    }
}

impl vstd::std_specs::convert::TryFromSpecImpl<u32> for PgTypeId {
    open spec fn obeys_try_from_spec() -> bool {
        true
    }

    open spec fn try_from_spec(oid: u32) -> Result<Self, u32> {
        match Self::spec_from_oid(oid) {
            Some(t) => Ok(t),
            None => Err(oid),
        }
    }
}

/// Every type's OID converts back to the same type, and an OID that
/// converts to a type is that type's OID.
pub proof fn lemma_oid_round_trip(t: PgTypeId, oid: u32)
    ensures
        PgTypeId::spec_from_oid(t.spec_oid()) == Some(t),
        PgTypeId::spec_from_oid(oid) matches Some(u) ==> u.spec_oid() == oid,
{
}

/// The `pg_type` metadata agrees with the decoder's size and alignment
/// tables: `typlen` is the fixed width (or -1 for varlena), `typalign` is the
/// alignment in bytes, pass-by-value types are fixed-width of at most 8
/// bytes, and exactly the fixed-width types use plain storage.
pub proof fn lemma_info_consistent(t: PgTypeId)
    ensures
        t.spec_type_len() is Fixed <==> typlen_of(t.spec_type_len()) > 0,
        t.spec_type_len() is Varlena <==> typlen_of(t.spec_type_len()) == -1,
        t.spec_align() == 1 || t.spec_align() == 2 || t.spec_align() == 4 || t.spec_align() == 8,
        t.spec_typbyval() ==> (t.spec_type_len() matches PgTypeLen::Fixed(n) && n <= 8),
        (t.spec_storage() == PgTypeStorage::Plain) <==> (t.spec_type_len() is Fixed),
{
}

/// Array types are varlena, int-aligned, in the array category, and map to
/// an Arrow list of their element type's Arrow type.
pub proof fn lemma_array_types(t: PgTypeId)
    requires
        t.is_array(),
    ensures
        t.spec_type_len() == PgTypeLen::Varlena,
        t.spec_align() == 4,
        t.spec_category() == PgTypeCategory::Array,
        t.array_element() matches Some(e) && !e.is_array()
            && t.spec_arrow_type() == crate::types::arrow::spec_list_of(e.spec_arrow_type()),
{
}

} // verus!
