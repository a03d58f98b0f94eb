use pg_arrow::codec::{PgDatum, PgTypeId};
use pg_arrow::file::error::PgError;
use pg_arrow::heap::tuple::HeapTupleData;
use pg_arrow::table::{decode_row, decode_row_projected, projection_decodable, ColumnBuilder, PgRow, PgTableReader};
use pg_arrow::types::arrow::{ArrowType, ArrowValue};
use pg_arrow::types::{PgAttribute, PgClass, PgColumn, PgSchema};

fn class(oid: u32, relname: &str, relkind: u8) -> PgClass {
    PgClass {
        oid,
        relname: relname.to_string(),
        relnamespace: 11,
        reltype: 0,
        reloftype: 0,
        relowner: 10,
        relam: 2,
        relfilenode: oid,
        reltablespace: 0,
        relpages: 1,
        reltuples: 0,
        relallvisible: 0,
        relallfrozen: 0,
        reltoastrelid: 0,
        relhasindex: false,
        relisshared: false,
        relpersistence: b'p',
        relkind,
        relnatts: 2,
        relchecks: 0,
        relhasrules: false,
        relhastriggers: false,
        relhassubclass: false,
        relrowsecurity: false,
        relforcerowsecurity: false,
        relispopulated: true,
        relreplident: b'd',
        relispartition: false,
        relrewrite: 0,
        relfrozenxid: 3,
        relminmxid: 1,
    }
}

fn attribute(attrelid: u32, attname: &str, atttypid: u32, attnum: i16) -> PgAttribute {
    PgAttribute {
        attrelid,
        attname: attname.to_string(),
        atttypid,
        attlen: 4,
        attnum,
        atttypmod: -1,
        attndims: 0,
        attbyval: true,
        attalign: b'i',
        attstorage: b'p',
        attcompression: 0,
        attnotnull: false,
        atthasdef: false,
        atthasmissing: false,
        attidentity: 0,
        attgenerated: 0,
        attisdropped: false,
        attislocal: true,
        attinhcount: 0,
        attcollation: 0,
    }
}

fn reader() -> PgTableReader {
    let classes = vec![class(1259, "pg_class", b'r'), class(2662, "pg_class_oid_index", b'i'), class(16385, "accounts", b'r')];
    let attrs = vec![
        attribute(16385, "balance", 23, 2),
        attribute(1259, "oid", 26, 1),
        attribute(16385, "id", 20, 1),
        attribute(1259, "relname", 19, 2),
        attribute(16385, "ctid", 27, -1),
    ];
    PgTableReader::new(16384, classes, attrs)
}

/// Raw bytes of a heap tuple without a null bitmap.
fn tuple(natts: u16, data: &[u8]) -> HeapTupleData {
    let mut t = vec![0u8; 24];
    t[16..18].copy_from_slice(&1u16.to_le_bytes());
    t[18..20].copy_from_slice(&natts.to_le_bytes());
    t[22] = 24;
    t.extend_from_slice(data);
    HeapTupleData::parse_and_build(&t).unwrap()
}

fn schema3() -> PgSchema {
    PgSchema::new(
        "t",
        vec![
            PgColumn::new("a", PgTypeId::Int2, true, -1),
            PgColumn::new("b", PgTypeId::Text, true, -1),
            PgColumn::new("c", PgTypeId::Int4, true, -1),
        ],
    )
}

/// Int2 5, text "ok" (short varlena), Int4 9 (aligned to 4).
fn data3() -> Vec<u8> {
    vec![5, 0, 0x07, b'o', b'k', 0, 0, 0, 9, 0, 0, 0]
}

#[test]
fn test_pg_row_is_null() {
    let row = PgRow::new(vec![PgDatum::Int4(42), PgDatum::Null, PgDatum::Bool(true)]);
    assert!(!row.is_null(0));
    assert!(row.is_null(1));
    assert!(!row.is_null(2));
    assert!(row.is_null(99)); // out of bounds → treated as null
}

#[test]
fn pg_row_accessors() {
    let row = PgRow::new(vec![PgDatum::Int4(42), PgDatum::Null]);
    assert_eq!(row.num_columns(), 2);
    assert_eq!(row.get(0), Some(&PgDatum::Int4(42)));
    assert_eq!(row.get(5), None);
    assert_eq!(row.columns().len(), 2);
}

#[test]
fn decode_rows() {
    let t = tuple(3, &data3());
    let row = decode_row(&t, &schema3()).unwrap();
    assert_eq!(row.columns(), &[PgDatum::Int2(5), PgDatum::Text("ok".to_string()), PgDatum::Int4(9)]);

    let projected = decode_row_projected(&t, &schema3(), &[2, 0]).unwrap();
    assert_eq!(projected.columns(), &[PgDatum::Int4(9), PgDatum::Int2(5)]);
    assert!(projection_decodable(&t, &schema3(), &[2, 0]));
    assert!(projection_decodable(&t, &schema3(), &[0, 7]));
    assert!(projection_decodable(&t, &schema3(), &[]));
    let repeated = decode_row_projected(&t, &schema3(), &[1, 0, 1]).unwrap();
    assert_eq!(
        repeated.columns(),
        &[PgDatum::Text("ok".to_string()), PgDatum::Int2(5), PgDatum::Text("ok".to_string())]
    );
    let empty = decode_row_projected(&t, &schema3(), &[]).unwrap();
    assert_eq!(empty.num_columns(), 0);
    assert_eq!(
        decode_row_projected(&t, &schema3(), &[0, 7]).unwrap_err(),
        PgError::ColumnNotFound { column: "index 7 (schema has 3 columns)".to_string() }
    );
}

#[test]
fn decode_row_errors() {
    // The int4 column runs past the end of the data.
    let t = tuple(3, &data3()[..10]);
    assert_eq!(
        decode_row(&t, &schema3()).unwrap_err(),
        PgError::DecodeError("buffer too short for int4: need 4 bytes, got 2".to_string())
    );
}

#[test]
fn rows_to_record_batch() {
    let rows = vec![
        PgRow::new(vec![PgDatum::Int2(1), PgDatum::Text("a".to_string()), PgDatum::Int4(10)]),
        PgRow::new(vec![PgDatum::Int2(2), PgDatum::Null]),
    ];
    let batch = PgRow::to_record_batch(&rows, &schema3()).unwrap();
    assert_eq!(batch.columns.len(), 3);
    assert_eq!(batch.schema.fields[1].name, "b");
    assert_eq!(batch.columns[0].data_type, ArrowType::Int16);
    assert_eq!(batch.columns[0].values, vec![Some(ArrowValue::Int16(1)), Some(ArrowValue::Int16(2))]);
    assert_eq!(batch.columns[1].values, vec![Some(ArrowValue::Utf8("a".to_string())), None]);
    // The second row is shorter than the schema: its last column is NULL.
    assert_eq!(batch.columns[2].values, vec![Some(ArrowValue::Int32(10)), None]);

    let bad = vec![PgRow::new(vec![PgDatum::Text("x".to_string()), PgDatum::Null, PgDatum::Null])];
    match PgRow::to_record_batch(&bad, &schema3()).unwrap_err() {
        PgError::ArrowConversionFailed { detail } => assert!(detail.starts_with("column 0: expected Int2, got ")),
        other => panic!("unexpected {other:?}"),
    }
}

#[test]
fn rows_to_record_batch_name_and_checks() {
    let names = PgSchema::new("t", vec![PgColumn::new("n", PgTypeId::Name, true, -1)]);
    let rows = vec![PgRow::new(vec![PgDatum::Text("abc".to_string())])];
    let batch = PgRow::to_record_batch(&rows, &names).unwrap();
    assert_eq!(batch.columns.len(), 1);
    assert_eq!(batch.columns[0].values, vec![Some(ArrowValue::Utf8("abc".to_string()))]);

    // NUMERIC rows are kept as text, which is not the Decimal type of the field.
    let numeric = PgSchema::new("t", vec![PgColumn::new("x", PgTypeId::Numeric, true, -1)]);
    let rows = vec![PgRow::new(vec![PgDatum::Numeric(b"1.5".to_vec())])];
    assert_eq!(
        PgRow::to_record_batch(&rows, &numeric).unwrap_err(),
        PgError::ArrowConversionFailed { detail: "column 'x' does not have its field's data type".to_string() }
    );

    let strict = PgSchema::new("t", vec![PgColumn::new("v", PgTypeId::Int4, false, -1)]);
    let rows = vec![PgRow::new(vec![PgDatum::Int4(1)]), PgRow::new(vec![])];
    assert_eq!(
        PgRow::to_record_batch(&rows, &strict).unwrap_err(),
        PgError::ArrowConversionFailed { detail: "column 'v' is not nullable but holds nulls".to_string() }
    );
    let intervals = PgSchema::new("t", vec![PgColumn::new("i", PgTypeId::Interval, true, -1)]);
    let rows = vec![PgRow::new(vec![PgDatum::Interval { microseconds: 7, days: 1, months: 2 }])];
    let batch = PgRow::to_record_batch(&rows, &intervals).unwrap();
    assert_eq!(
        batch.columns[0].values,
        vec![Some(ArrowValue::IntervalMonthDayNano { months: 2, days: 1, nanoseconds: 7000 })]
    );
    let arrays = PgSchema::new("t", vec![PgColumn::new("a", PgTypeId::Int4Array, true, -1)]);
    let rows = vec![PgRow::new(vec![PgDatum::RawBytes { oid: 1007, data: vec![0] }])];
    assert_eq!(
        PgRow::to_record_batch(&rows, &arrays).unwrap_err(),
        PgError::ArrowConversionFailed { detail: "column 'a' does not have its field's data type".to_string() }
    );
    let rows = vec![PgRow::new(vec![PgDatum::Int4(1)]), PgRow::new(vec![])];
    assert_eq!(
        PgRow::to_record_batch(&rows, &PgSchema::new("t", vec![])).unwrap_err(),
        PgError::ArrowConversionFailed { detail: "a record batch needs at least one column".to_string() }
    );
}

#[test]
fn row_reader_column_builder() {
    let mut b = ColumnBuilder::new(PgTypeId::Numeric, 4);
    b.append_bytes(b"12.5").unwrap();
    b.append_null();
    b.append_bytes(&[0xff, 0x01]).unwrap();
    let a = b.finish();
    assert_eq!(a.data_type, ArrowType::Utf8);
    assert_eq!(
        a.values,
        vec![Some(ArrowValue::Utf8("12.5".to_string())), None, Some(ArrowValue::Utf8("ff01".to_string()))]
    );

    let mut i = ColumnBuilder::new(PgTypeId::Int4, 1);
    i.append_bytes(&[7, 0, 0, 0]).unwrap();
    assert_eq!(i.finish().values, vec![Some(ArrowValue::Int32(7))]);
}

#[test]
fn test_table_reader_set_table() {
    let mut reader = reader();
    reader.set_table("pg_class").unwrap();
    assert_eq!(reader.table_name(), Some("pg_class"));
    assert!(reader.schema().is_some());
    assert!(reader.schema().unwrap().num_columns() > 0);
    let names: Vec<&str> = reader.schema().unwrap().columns().iter().map(|c| c.name.as_str()).collect();
    assert_eq!(names, vec!["oid", "relname"]);
}

#[test]
fn test_table_reader_table_not_found() {
    let mut reader = reader();
    let result = reader.set_table("nonexistent_table_xyz");
    assert!(result.is_err());
    assert!(
        matches!(result.unwrap_err(), PgError::TableNotFound { .. }),
        "expected TableNotFound error"
    );
    // An index is not an ordinary table.
    assert_eq!(
        reader.set_table("pg_class_oid_index").unwrap_err(),
        PgError::TableNotFound { name: "pg_class_oid_index".to_string() }
    );
}

#[test]
fn test_table_reader_no_table_selected() {
    let reader = reader();
    let result = reader.require_table();
    assert!(result.is_err());
    assert!(matches!(result.unwrap_err(), PgError::NoTableSelected), "expected NoTableSelected error");
}

#[test]
fn test_table_reader_accessors() {
    let reader = reader();
    assert_eq!(reader.db_id(), 16384);
    assert_eq!(reader.table_name(), None);
    assert!(reader.schema().is_none());
}

#[test]
fn table_schema_in_attnum_order() {
    let mut reader = reader();
    reader.set_table("accounts").unwrap();
    let schema = reader.schema().unwrap();
    let cols: Vec<(&str, PgTypeId)> = schema.columns().iter().map(|c| (c.name.as_str(), c.type_id)).collect();
    assert_eq!(cols, vec![("id", PgTypeId::Int8), ("balance", PgTypeId::Int4)]);
    let (t, s) = reader.require_table().unwrap();
    assert_eq!(t.oid, 16385);
    assert_eq!(s.num_columns(), 2);
}

#[test]
fn all_tables() {
    let reader = reader();
    let tables = reader.get_all_tables().unwrap();
    let names: Vec<&str> = tables.iter().map(|(c, _)| c.relname.as_str()).collect();
    assert_eq!(names, vec!["pg_class", "accounts"]);
    assert_eq!(tables[1].1.num_columns(), 2);
}
