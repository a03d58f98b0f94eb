use arrow::datatypes::{DataType, Field, Fields, Schema};

use pg_arrow::codec::{PgTypeId, PgTypeLen};
use pg_arrow::file::error::PgError;
use pg_arrow::types::arrow::{
    decode_pg_numeric_i128, decode_pg_numeric_i256, extract_column_bytes, extract_fixed_bytes,
    numeric_typmod_to_arrow_type, ArrowTimeUnit, ArrowType, ArrowValue, ColumnBuilder, I256,
};
use pg_arrow::types::column_builder::{append_bytes_fails, append_bytes_is_defined, ColumnKind};
use pg_arrow::types::numeric::{numeric_i128_is_defined, numeric_i256_is_defined};
use pg_arrow::types::pg_type::PgCatalogRelation;
use pg_arrow::types::{PgAttribute, PgClass, PgColumn, PgSchema};

fn attribute(attname: &str, atttypid: u32, attnum: i16, attisdropped: bool, attnotnull: bool) -> PgAttribute {
    PgAttribute {
        attrelid: 16385,
        attname: attname.to_string(),
        atttypid,
        attlen: -1,
        attnum,
        atttypmod: -1,
        attndims: 0,
        attbyval: false,
        attalign: b'i',
        attstorage: b'x',
        attcompression: 0,
        attnotnull,
        atthasdef: false,
        atthasmissing: false,
        attidentity: 0,
        attgenerated: 0,
        attisdropped,
        attislocal: true,
        attinhcount: 0,
        attcollation: 0,
    }
}

/// A long-form NUMERIC payload.
fn numeric_long(negative: bool, dscale: u16, weight: i16, digits: &[i16]) -> Vec<u8> {
    let mut b = Vec::new();
    let word = if negative { 0x4000 | dscale } else { dscale };
    b.extend_from_slice(&word.to_le_bytes());
    b.extend_from_slice(&weight.to_le_bytes());
    for d in digits {
        b.extend_from_slice(&d.to_le_bytes());
    }
    b
}

#[test]
fn test_arrow_schema() {
    let schema = Schema::new(vec![
        Field::new("id", DataType::Int32, false),
        Field::new(
            "nested",
            DataType::Struct(Fields::from(vec![
                Field::new("a", DataType::Utf8, false),
                Field::new("b", DataType::Float64, false),
                Field::new("c", DataType::Float64, false),
            ])),
            false,
        ),
    ]);

    println!("{:?}", schema.fields());
}

#[test]
fn numeric_decoding() {
    // 12.5: digits 12 and 5000, display scale 1.
    let b = numeric_long(false, 1, 0, &[12, 5000]);
    assert_eq!(decode_pg_numeric_i128(&b), Some((125, 1)));
    assert_eq!(decode_pg_numeric_i256(&b), Some((I256 { low: 125, high: 0 }, 1)));
    // -3.25
    let b = numeric_long(true, 2, 0, &[3, 2500]);
    assert_eq!(decode_pg_numeric_i128(&b), Some((-325, 2)));
    assert_eq!(decode_pg_numeric_i256(&b), Some((I256 { low: (-325i128) as u128, high: -1 }, 2)));
    // 1.000000: scaled up to the display scale.
    let b = numeric_long(false, 6, 0, &[1]);
    assert_eq!(decode_pg_numeric_i128(&b), Some((1_000_000, 6)));
    // 123456789: two digits, weight 2 (10000^2).
    let b = numeric_long(false, 0, 2, &[1, 2345, 6789]);
    assert_eq!(decode_pg_numeric_i128(&b), Some((123_456_789, 0)));
    // Zero: no digits.
    let b = numeric_long(false, 3, 0, &[]);
    assert_eq!(decode_pg_numeric_i128(&b), Some((0, 3)));
    // Short form: 42.
    assert_eq!(decode_pg_numeric_i128(&[0x00, 0x80, 42, 0]), Some((42, 0)));
    // NaN and infinities.
    assert_eq!(decode_pg_numeric_i128(&[0x00, 0xC0]), None);
    assert_eq!(decode_pg_numeric_i256(&[0x00, 0xD0]), None);
    assert_eq!(decode_pg_numeric_i128(&[0x05]), None);
}

#[test]
fn numeric_saturates_at_128_bits() {
    // 10^36 with 10 more places: past i128, so the 128-bit value saturates.
    let mut digits = vec![1i16];
    digits.extend(std::iter::repeat(0).take(9));
    let b = numeric_long(false, 10, 9, &digits);
    assert_eq!(decode_pg_numeric_i128(&b), Some((i128::MAX, 10)));
    let (v, s) = decode_pg_numeric_i256(&b).unwrap();
    assert_eq!(s, 10);
    // 10^46 = high * 2^128 + low
    assert!(v.high > 0);
}

#[test]
fn numeric_typmods() {
    assert_eq!(numeric_typmod_to_arrow_type(((10 << 16) | 2) + 4), ArrowType::Decimal128(10, 2));
    assert_eq!(numeric_typmod_to_arrow_type(((50 << 16) | 5) + 4), ArrowType::Decimal256(50, 5));
    assert_eq!(numeric_typmod_to_arrow_type(-1), ArrowType::Decimal256(38, 0));
}

#[test]
fn schema_from_attributes() {
    let attrs = vec![
        attribute("b", 25, 2, false, false),
        attribute("ctid", 27, -1, false, true),
        attribute("gone", 23, 3, true, false),
        attribute("a", 23, 1, false, true),
        attribute("odd", 99999, 4, false, false),
    ];
    let schema = PgSchema::from_attributes("t", &attrs);
    assert_eq!(schema.name(), "t");
    let cols: Vec<(&str, PgTypeId, bool)> =
        schema.columns().iter().map(|c| (c.name.as_str(), c.type_id, c.nullable)).collect();
    assert_eq!(
        cols,
        vec![("a", PgTypeId::Int4, false), ("b", PgTypeId::Text, true), ("odd", PgTypeId::Text, true)]
    );
    assert_eq!(schema.position_of("b"), Some(1));
    assert_eq!(schema.position_of("ctid"), None);
    assert_eq!(schema.column_by_name("a").unwrap().type_id, PgTypeId::Int4);
    assert!(schema.column(3).is_none());
    let p = schema.project(&[2, 0]);
    assert_eq!(p.num_columns(), 2);
    assert_eq!(p.columns()[0].name, "odd");
}

#[test]
fn arrow_schema_of_columns() {
    let schema = PgSchema::new(
        "t",
        vec![
            PgColumn::new("n", PgTypeId::Numeric, true, ((12 << 16) | 3) + 4),
            PgColumn::new("ts", PgTypeId::Timestamp, false, -1),
        ],
    );
    let a = schema.to_arrow_schema();
    assert_eq!(a.fields.len(), 2);
    assert_eq!(a.fields[0].name, "n");
    assert_eq!(a.fields[0].data_type, ArrowType::Decimal128(12, 3));
    assert!(a.fields[0].nullable);
    assert_eq!(a.fields[1].data_type, ArrowType::Timestamp(ArrowTimeUnit::Microsecond, None));
    assert!(!a.fields[1].nullable);
}

#[test]
fn catalog_schemas() {
    let schema = PgClass::catalog_schema();
    assert_eq!(schema.num_columns(), PgClass::NUM_FIXED_ATTRS);
    assert_eq!(schema.columns()[PgClass::ANUM_RELNAME].name, "relname");
    assert_eq!(schema.columns()[PgClass::ANUM_RELNAME].type_id, PgTypeId::Name);
    assert_eq!(PgClass::relation_oid(), 1259);
    assert_eq!(PgAttribute::relation_oid(), 1249);
}

#[test]
fn column_builder_values() {
    let mut d = ColumnBuilder::new(PgTypeId::Date, 2);
    d.append_bytes(&0i32.to_le_bytes()).unwrap();
    d.append_null();
    let a = d.finish();
    assert_eq!(a.data_type, ArrowType::Date32);
    assert_eq!(a.values, vec![Some(ArrowValue::Int32(10957)), None]);

    let mut t = ColumnBuilder::new(PgTypeId::Timestamptz, 1);
    t.append_bytes(&1i64.to_le_bytes()).unwrap();
    assert_eq!(t.finish().values, vec![Some(ArrowValue::Int64(946_684_800_000_001))]);

    let mut n = ColumnBuilder::for_column(&PgColumn::new("n", PgTypeId::Numeric, true, ((10 << 16) | 2) + 4), 1);
    n.append_bytes(&numeric_long(false, 1, 0, &[12, 5000])).unwrap();
    n.append_bytes(&[0x00, 0xC0]).unwrap();
    let a = n.finish();
    assert_eq!(a.data_type, ArrowType::Decimal128(10, 2));
    assert_eq!(a.values, vec![Some(ArrowValue::Decimal128(1250)), None]);

    let mut name = ColumnBuilder::new(PgTypeId::Name, 1);
    let mut field = [0u8; 64];
    field[..3].copy_from_slice(b"abc");
    name.append_bytes(&field).unwrap();
    assert_eq!(name.finish().values, vec![Some(ArrowValue::Utf8("abc".to_string()))]);

    let mut text = ColumnBuilder::new(PgTypeId::Text, 1);
    text.append_bytes(&[b'a', 0xff]).unwrap();
    assert_eq!(text.finish().values, vec![Some(ArrowValue::Utf8("a\u{FFFD}".to_string()))]);
}

#[test]
fn column_builder_interval() {
    let col = PgColumn::new("i", PgTypeId::Interval, true, -1);
    let mut b = ColumnBuilder::for_column(&col, 2);
    let mut raw = Vec::new();
    raw.extend_from_slice(&1_000_000i64.to_le_bytes());
    raw.extend_from_slice(&2i32.to_le_bytes());
    raw.extend_from_slice(&3i32.to_le_bytes());
    b.append_bytes(&raw).unwrap();
    let mut huge = Vec::new();
    huge.extend_from_slice(&i64::MAX.to_le_bytes());
    huge.extend_from_slice(&[0u8; 8]);
    assert_eq!(
        b.append_bytes(&huge).unwrap_err(),
        PgError::ArrowConversionFailed { detail: "interval microseconds out of range for nanoseconds".to_string() }
    );
    let a = b.finish();
    assert_eq!(a.data_type, col.to_arrow_field().data_type);
    assert_eq!(
        a.values,
        vec![Some(ArrowValue::IntervalMonthDayNano { months: 3, days: 2, nanoseconds: 1_000_000_000 })]
    );
}

#[test]
fn column_builder_array() {
    let col = PgColumn::new("xs", PgTypeId::Int4Array, true, -1);
    let mut b = ColumnBuilder::for_column(&col, 2);
    b.append_null();
    assert_eq!(
        b.append_bytes(&[0u8; 24]).unwrap_err(),
        PgError::ArrowConversionFailed { detail: "array values are not supported".to_string() }
    );
    let a = b.finish();
    assert_eq!(a.data_type, col.to_arrow_field().data_type);
    assert_eq!(a.values, vec![None]);
}

#[test]
fn column_builder_types_match_fields() {
    for t in [
        PgTypeId::Bool,
        PgTypeId::Interval,
        PgTypeId::Timetz,
        PgTypeId::Uuid,
        PgTypeId::Box,
        PgTypeId::Tid,
        PgTypeId::Name,
        PgTypeId::Numeric,
        PgTypeId::TextArray,
        PgTypeId::Jsonb,
    ] {
        let col = PgColumn::new("c", t, true, -1);
        assert_eq!(ColumnBuilder::for_column(&col, 0).finish().data_type, col.to_arrow_field().data_type);
    }
}

#[test]
fn column_builder_fixed_width_mismatch() {
    let mut u = ColumnBuilder::new(PgTypeId::Uuid, 1);
    assert_eq!(u.len(), 0);
    let e = u.append_bytes(&[1, 2, 3]).unwrap_err();
    assert_eq!(
        e,
        PgError::ArrowConversionFailed {
            detail: "Invalid argument error: Byte slice does not have the same length as FixedSizeBinaryBuilder value lengths"
                .to_string()
        }
    );
    u.append_bytes(&[7u8; 16]).unwrap();
    let a = u.finish();
    assert_eq!(a.data_type, ArrowType::FixedSizeBinary(16));
    assert_eq!(a.values, vec![Some(ArrowValue::Binary(vec![7u8; 16]))]);
}

#[test]
fn column_bytes() {
    let data = [9u8, 0x07, b'h', b'i', b'a', 0, 1, 2, 3, 4];
    assert_eq!(extract_column_bytes(PgTypeLen::Varlena, &data, 1), Ok((&data[2..4], 3)));
    assert_eq!(extract_column_bytes(PgTypeLen::CString, &data, 2), Ok((&data[2..5], 4)));
    assert_eq!(extract_column_bytes(PgTypeLen::Fixed(4), &data, 6), Ok((&data[6..10], 4)));
    assert_eq!(
        extract_column_bytes(PgTypeLen::Fixed(4), &data, 8),
        Err(PgError::DecodeError("buffer too short for fixed column".to_string()))
    );
    assert_eq!(
        extract_column_bytes(PgTypeLen::CString, &[1, 2], 0),
        Err(PgError::DecodeError("missing null terminator in cstring".to_string()))
    );
    assert_eq!(
        extract_column_bytes(PgTypeLen::Varlena, &[0x01, 5], 0),
        Err(PgError::DecodeError("invalid varlena header at offset 0: first byte = 0x01".to_string()))
    );
    assert_eq!(extract_fixed_bytes(&data, 2, 3), (&data[2..5], 3));
}

#[test]
fn append_definedness() {
    assert!(append_bytes_is_defined(ColumnKind::Int4, &[1, 2, 3, 4]));
    assert!(!append_bytes_is_defined(ColumnKind::Int4, &[1, 2]));
    assert!(!append_bytes_is_defined(ColumnKind::Date, &i32::MAX.to_le_bytes()));
    assert!(append_bytes_is_defined(ColumnKind::Date, &0i32.to_le_bytes()));
    assert!(!append_bytes_is_defined(ColumnKind::Timestamp, &i64::MAX.to_le_bytes()));
    assert!(append_bytes_fails(ColumnKind::FixedBinary(16), &[1, 2, 3]));
    assert!(!append_bytes_fails(ColumnKind::FixedBinary(3), &[1, 2, 3]));
    assert!(append_bytes_fails(ColumnKind::List(PgTypeId::Int4Array), &[]));
    // 12.50 in the long NUMERIC form: weight 0, dscale 2, digits 12 and 5000
    let mut n = vec![0x02, 0x00, 0x00, 0x00];
    n.extend_from_slice(&12i16.to_le_bytes());
    n.extend_from_slice(&5000i16.to_le_bytes());
    assert!(numeric_i128_is_defined(&n));
    assert!(numeric_i256_is_defined(&n));
    // forty digits of 9999 overflow an i128 while accumulating
    let mut wide = vec![0x00, 0x00, 0x27, 0x00];
    for _ in 0..40 {
        wide.extend_from_slice(&9999i16.to_le_bytes());
    }
    assert!(!numeric_i128_is_defined(&wide));
}
