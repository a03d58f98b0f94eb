use pg_arrow::codec::{PgDatum, PgTypeId, PgTypeLen};
use pg_arrow::file::error::PgError;
use pg_arrow::heap::page::{HeapPageData, ItemIdData, PageHeaderData, PAGE_BUFFER_SIZE};
use pg_arrow::heap::snapshot::PgSnapshot;
use pg_arrow::heap::tuple::{align_to, BlockIdData, ColumnSearchArg, HeapTupleData, InfoMask};
use pg_arrow::types::arrow::{ArrowType, ArrowValue};
use pg_arrow::types::pg_type::PgCatalogRelation;
use pg_arrow::types::{PgClass, PgColumn, PgSchema};

/// Raw bytes of a heap tuple: a 23-byte header, the null bitmap (if any),
/// padding up to `t_hoff` (a multiple of 8), then the attribute data.
fn tuple_bytes(xmin: u32, infomask: u16, natts: u16, bitmap: Option<&[u8]>, data: &[u8]) -> Vec<u8> {
    let mut t = Vec::new();
    t.extend_from_slice(&xmin.to_le_bytes());
    t.extend_from_slice(&0u32.to_le_bytes());
    t.extend_from_slice(&0u32.to_le_bytes());
    t.extend_from_slice(&0u16.to_le_bytes());
    t.extend_from_slice(&0u16.to_le_bytes());
    t.extend_from_slice(&1u16.to_le_bytes());
    t.extend_from_slice(&natts.to_le_bytes());
    let mask = if bitmap.is_some() { infomask | 0x0001 } else { infomask };
    t.extend_from_slice(&mask.to_le_bytes());
    let bitmap_len = bitmap.map(|b| b.len()).unwrap_or(0);
    let t_hoff = (23 + bitmap_len + 7) / 8 * 8;
    t.push(t_hoff as u8);
    if let Some(b) = bitmap {
        t.extend_from_slice(b);
    }
    while t.len() < t_hoff {
        t.push(0);
    }
    t.extend_from_slice(data);
    t
}

/// The attribute data of a row: each non-NULL value placed at its type's
/// alignment (short varlena values, with a 1-byte header, are not aligned),
/// and the null bitmap when some value is NULL.
fn row_data(schema: &PgSchema, values: &[Option<Vec<u8>>]) -> (Option<Vec<u8>>, Vec<u8>) {
    let mut data: Vec<u8> = Vec::new();
    let mut bitmap = vec![0u8; (values.len() + 7) / 8];
    let mut any_null = false;
    for (i, v) in values.iter().enumerate() {
        match v {
            None => any_null = true,
            Some(bytes) => {
                bitmap[i / 8] |= 1 << (i % 8);
                let t = schema.columns()[i].type_id;
                if t.type_len() != PgTypeLen::Varlena {
                    let a = t.align();
                    while data.len() % a != 0 {
                        data.push(0);
                    }
                }
                data.extend_from_slice(bytes);
            },
        }
    }
    (if any_null { Some(bitmap) } else { None }, data)
}

/// A short varlena value: 1-byte header, then the payload.
fn short_varlena(payload: &[u8]) -> Vec<u8> {
    let mut v = vec![(((payload.len() + 1) << 1) | 1) as u8];
    v.extend_from_slice(payload);
    v
}

/// An 8 KiB heap page holding `tuples`, placed from the end of the page.
fn page_with(tuples: &[Vec<u8>]) -> [u8; PAGE_BUFFER_SIZE] {
    let mut page = [0u8; PAGE_BUFFER_SIZE];
    let pd_lower = 24 + 4 * tuples.len();
    let mut upper = PAGE_BUFFER_SIZE;
    for (i, t) in tuples.iter().enumerate() {
        let off = (upper - t.len()) / 8 * 8;
        page[off..off + t.len()].copy_from_slice(t);
        let lp: u32 = (off as u32) | (1 << 15) | ((t.len() as u32) << 17);
        page[24 + 4 * i..28 + 4 * i].copy_from_slice(&lp.to_le_bytes());
        upper = off;
    }
    page[12..14].copy_from_slice(&(pd_lower as u16).to_le_bytes());
    page[14..16].copy_from_slice(&(upper as u16).to_le_bytes());
    page[16..18].copy_from_slice(&(PAGE_BUFFER_SIZE as u16).to_le_bytes());
    page[18..20].copy_from_slice(&0x2004u16.to_le_bytes());
    page
}

/// A pg_class row with the given oid, name and namespace (other columns
/// zero).
fn pg_class_row(schema: &PgSchema, oid: u32, relname: &str, relnamespace: u32) -> Vec<u8> {
    let mut values: Vec<Option<Vec<u8>>> = Vec::new();
    for (i, col) in schema.columns().iter().enumerate() {
        let v = match i {
            0 => oid.to_le_bytes().to_vec(),
            1 => {
                let mut name = vec![0u8; 64];
                name[..relname.len()].copy_from_slice(relname.as_bytes());
                name
            },
            2 => relnamespace.to_le_bytes().to_vec(),
            _ => match col.type_id.type_len() {
                PgTypeLen::Fixed(n) => vec![0u8; n as usize],
                _ => short_varlena(b""),
            },
        };
        values.push(Some(v));
    }
    let (bitmap, data) = row_data(schema, &values);
    tuple_bytes(3, 0x0900, schema.num_columns() as u16, bitmap.as_deref(), &data)
}

fn pg_class_page() -> HeapPageData {
    let schema = PgClass::catalog_schema();
    let rows = vec![
        pg_class_row(&schema, 1259, "pg_class", 11),
        pg_class_row(&schema, 1247, "pg_type", 11),
        pg_class_row(&schema, 16385, "accounts", 2200),
    ];
    HeapPageData::parse(page_with(&rows)).unwrap()
}

fn utf8_at(values: &[Option<ArrowValue>], i: usize) -> String {
    match &values[i] {
        Some(ArrowValue::Utf8(s)) => s.clone(),
        other => panic!("expected a string, got {other:?}"),
    }
}

#[test]
fn test_basic_tuple_header() {
    let raw = tuple_bytes(100, 0x0100, 3, Some(&[0b0000_0101]), &[7, 0, 0, 0, 9, 0]);
    let tuple = HeapTupleData::parse_and_build(&raw).unwrap();
    let h = tuple.header;
    assert_eq!(h.t_xmin, 100);
    assert_eq!(h.t_xmax, 0);
    assert_eq!(h.t_ctid.ip_posid, 1);
    assert_eq!(h.t_ctid.ip_blkid.block_number(), 0);
    assert_eq!(h.t_infomask2, 3);
    assert_eq!(h.t_infomask, 0x0101);
    assert_eq!(h.t_hoff, 24);
    assert!(h.has_flag(u16::from(InfoMask::HasNull)));
    assert!(h.has_flag(u16::from(InfoMask::XminCommitted)));
    assert!(!h.has_flag(u16::from(InfoMask::XmaxInvalid)));
    assert!(!h.has_flag(InfoMask::XMIN_FROZEN));
    assert_eq!(tuple.null_bitmap, vec![0b0000_0101]);
    assert_eq!(tuple.data, vec![7, 0, 0, 0, 9, 0]);
    assert!(!tuple.is_null(0));
    assert!(tuple.is_null(1));
    assert!(!tuple.is_null(2));
    assert!(!tuple.is_null(40));
}

#[test]
fn tuple_header_errors() {
    assert_eq!(
        HeapTupleData::parse_and_build(&[0u8; 10]).unwrap_err(),
        PgError::TupleBufferTooShort { actual: 10, expected: 23 }
    );
    let mut raw = tuple_bytes(1, 0, 1, None, &[]);
    raw[22] = 40;
    assert_eq!(
        HeapTupleData::parse_and_build(&raw).unwrap_err(),
        PgError::InvalidTupleHoff { t_hoff: 40, min: 23, buf_len: 24 }
    );
    // 20 attributes need a 3-byte bitmap, which does not fit before t_hoff = 24.
    let raw = tuple_bytes(1, 0x0001, 20, None, &[]);
    assert_eq!(
        HeapTupleData::parse_and_build(&raw).unwrap_err(),
        PgError::NullBitmapOverflow { bitmap_end: 26, t_hoff: 24 }
    );
}

#[test]
fn tuple_descriptions() {
    let raw = tuple_bytes(100, 0x0100, 3, Some(&[0b0000_0101]), &[7, 0, 0, 0, 9, 0]);
    let tuple = HeapTupleData::parse_and_build(&raw).unwrap();
    let header_text = "HeapTupleHeader {\n  xmin:      100\n  xmax:      0\n  field3:    0  (cid/xvac)\n  ctid:      (0, 1)\n  natts:     3\n  t_hoff:    24\n  infomask2: 0x0003  (natts=3)\n  infomask:  0x0101  [ HASNULL | XMIN_COMMITTED ]\n}";
    assert_eq!(tuple.header.to_string(), header_text);
    let full = format!(
        "{header_text}\n  t_bits (3 attrs):\n    attr[  0]: NOT NULL\n    attr[  1]: NULL    \n    attr[  2]: NOT NULL\n"
    );
    assert_eq!(tuple.to_string(), full);

    let plain = tuple_bytes(5, 0x0800, 0x6002, None, &[]);
    let plain = HeapTupleData::parse_and_build(&plain).unwrap();
    assert_eq!(plain.header.t_infomask2, 0x6002);
    let text = plain.to_string();
    assert!(text.contains("  infomask2: 0x6002  [ KEYS_UPDATED | HOT_UPDATED ]  (natts=2)\n"));
    assert!(text.contains("  infomask:  0x0800  [ XMAX_INVALID ]\n"));
    assert!(!text.contains("frozen"));
    assert!(text.ends_with("}\n  t_bits: (no null bitmap \u{2014} all 2 attrs NOT NULL)"));

    let none = tuple_bytes(5, 0, 1, None, &[]);
    let none = HeapTupleData::parse_and_build(&none).unwrap();
    assert!(none.header.to_string().contains("  infomask:  0x0000  (none)\n"));
}

#[test]
fn info_mask_names() {
    assert_eq!(InfoMask::HasNull.short_name(), "HASNULL");
    assert_eq!(InfoMask::XmaxKeyshrLock.short_name(), "XMAX_KEYSHR_LOCK");
    assert_eq!(InfoMask::XminInvalid.to_string(), "InfoMask::XMIN_INVALID");
    assert_eq!(u16::from(InfoMask::MovedIn), 0x8000);
    assert_eq!(u16::from(InfoMask::XmaxLockOnly), 0x0080);
    assert_eq!(InfoMask::XMIN_FROZEN, 0x0300);
}

#[test]
fn item_ids() {
    let lp = ItemIdData(100 | (1 << 15) | (40 << 17));
    assert_eq!(lp.lp_off(), 100);
    assert_eq!(lp.lp_flags(), 1);
    assert_eq!(lp.lp_len(), 40);
    assert_eq!(lp.to_string(), "ItemId(off=100, flags=NORMAL, len=40)");
    assert_eq!(ItemIdData(3 << 15).to_string(), "ItemId(off=0, flags=DEAD, len=0)");
    assert_eq!(ItemIdData(2 << 15 | 7).to_string(), "ItemId(off=7, flags=REDIRECT, len=0)");
    assert_eq!(ItemIdData(0).to_string(), "ItemId(off=0, flags=UNUSED, len=0)");
}

#[test]
fn block_ids_round_trip() {
    let b = BlockIdData::from(0x0001_0002u32);
    assert_eq!(b.bi_hi, 1);
    assert_eq!(b.bi_lo, 2);
    assert_eq!(b.block_number(), 65538);
    assert_eq!(u32::from(b), 65538);
    assert_eq!(BlockIdData::from(u32::MAX).block_number(), u32::MAX);
}

#[test]
fn alignment() {
    assert_eq!(align_to(13, 8), 16);
    assert_eq!(align_to(16, 8), 16);
    assert_eq!(align_to(0, 4), 0);
    assert_eq!(align_to(5, 1), 5);
    assert_eq!(align_to(5, 4), 8);
    assert_eq!(align_to(8, 4), 8);
    assert_eq!(align_to(0, 8), 0);
    assert_eq!(align_to(usize::MAX - 7, 8), usize::MAX - 7);
}

#[test]
fn snapshot_parse_and_visibility() {
    let s = PgSnapshot::parse("100:105:101,103").unwrap();
    assert_eq!(s.xmin, 100);
    assert_eq!(s.xmax, 105);
    assert_eq!(s.xip, vec![101, 103]);
    assert!(s.xmin_visible(2));
    assert!(s.xmin_visible(50));
    assert!(!s.xmin_visible(101));
    assert!(s.xmin_visible(102));
    assert!(!s.xmin_visible(105));
    assert!(!s.xmin_visible(200));

    let t = PgSnapshot::parse(" 7 : 9 ").unwrap();
    assert_eq!((t.xmin, t.xmax), (7, 9));
    assert!(t.xip.is_empty());
    let u = PgSnapshot::parse("1:20:x, 4 ,+5").unwrap();
    assert_eq!(u.xip, vec![4, 5]);
    assert!(PgSnapshot::parse("abc:5").is_none());
    assert!(PgSnapshot::parse("5").is_none());
    assert!(PgSnapshot::parse("1:99999999999").is_none());
}

#[test]
fn page_header_and_line_pointers() {
    let raw = tuple_bytes(1, 0, 1, None, &[1, 0, 0, 0]);
    let bytes = page_with(&[raw.clone(), raw]);
    let h = PageHeaderData::parse(&bytes).unwrap();
    assert_eq!(h.pd_lower, 32);
    assert_eq!(h.num_line_pointers(), 2);
    assert_eq!(h.page_size(), 0x2000);
    assert_eq!(h.page_version(), 4);
    assert_eq!(PageHeaderData::parse(&[0u8; 10]).unwrap_err(), PgError::PageBufferTooShort { actual: 10, expected: 24 });

    let page = HeapPageData::parse(bytes).unwrap();
    assert_eq!(page.lp_num, 2);
    let t = page.get_row_data(1).unwrap();
    assert_eq!(t.data, vec![1, 0, 0, 0]);
    assert_eq!(page.get_row_data(2).unwrap_err(), PgError::Generic);
}

#[test]
fn dead_line_pointer() {
    let raw = tuple_bytes(1, 0, 1, None, &[1, 0, 0, 0]);
    let mut bytes = page_with(&[raw]);
    // Mark the line pointer dead.
    let lp = u32::from_le_bytes(bytes[24..28].try_into().unwrap());
    let dead = (lp & !(3 << 15)) | (3 << 15);
    bytes[24..28].copy_from_slice(&dead.to_le_bytes());
    let page = HeapPageData::parse(bytes).unwrap();
    assert_eq!(page.get_row_data(0).unwrap_err(), PgError::DeadTupleLinePointer { ip_posid: 0 });
}

#[test]
fn tuple_columns() {
    let schema = PgSchema::new(
        "t",
        vec![
            PgColumn::new("a", PgTypeId::Int2, true, -1),
            PgColumn::new("b", PgTypeId::Int4, true, -1),
            PgColumn::new("c", PgTypeId::Text, true, -1),
            PgColumn::new("d", PgTypeId::Int8, true, -1),
        ],
    );
    let values = vec![
        Some(5i16.to_le_bytes().to_vec()),
        Some(70000i32.to_le_bytes().to_vec()),
        Some(short_varlena(b"hey")),
        None,
    ];
    let (bitmap, data) = row_data(&schema, &values);
    let raw = tuple_bytes(1, 0, 4, bitmap.as_deref(), &data);
    let tuple = HeapTupleData::parse_and_build(&raw).unwrap();
    assert_eq!(tuple.get_column(ColumnSearchArg::ColumnIndex(0), &schema, 0), Ok((PgDatum::Int2(5), 2)));
    assert_eq!(
        tuple.get_column(ColumnSearchArg::ColumnName("b".to_string()), &schema, 4),
        Ok((PgDatum::Int4(70000), 4))
    );
    assert_eq!(tuple.get_column(ColumnSearchArg::ColumnIndex(2), &schema, 8), Ok((PgDatum::Text("hey".to_string()), 4)));
    assert_eq!(
        tuple.get_column(ColumnSearchArg::ColumnIndex(3), &schema, 12),
        Err(PgError::NullColumnValue { id: 3 })
    );
    assert_eq!(
        tuple.get_column(ColumnSearchArg::ColumnName("zz".to_string()), &schema, 0),
        Err(PgError::ColumnNotFound { column: "zz".to_string() })
    );
    assert_eq!(
        tuple.get_column(ColumnSearchArg::ColumnIndex(9), &schema, 0),
        Err(PgError::ColumnNotFound { column: "index 9".to_string() })
    );
    assert_eq!(tuple.skip_column(2, &schema, 8), Ok(4));
    assert_eq!(tuple.skip_column(9, &schema, 0), Err(PgError::ColumnNotFound { column: "index 9".to_string() }));
    assert_eq!(
        tuple.get_column(ColumnSearchArg::ColumnIndex(1), &schema, 10),
        Err(PgError::DecodeError("buffer too short for int4: need 4 bytes, got 2".to_string()))
    );
}

#[test]
fn test_page_to_record_batch_all_columns() {
    let schema = PgClass::catalog_schema();
    let page = pg_class_page();
    let batch = page.to_record_batch(&schema, None).unwrap();
    assert!(batch.columns[0].values.len() > 0, "pg_class page 0 should have rows");
    assert_eq!(batch.columns.len(), schema.num_columns(), "batch should have all schema columns");
    let relname = &batch.columns[1];
    assert_eq!(relname.data_type, ArrowType::Utf8, "relname column should be StringArray");
    assert!(!utf8_at(&relname.values, 0).is_empty(), "first relname should be non-empty");
    assert_eq!(utf8_at(&relname.values, 0), "pg_class");
    assert_eq!(utf8_at(&relname.values, 2), "accounts");
}

#[test]
fn test_page_to_record_batch_projected() {
    let schema = PgClass::catalog_schema();
    let page = pg_class_page();
    let projection = &[0, 1, 2];
    let batch = page.to_record_batch(&schema, Some(projection)).unwrap();
    assert!(batch.columns[0].values.len() > 0);
    assert_eq!(batch.columns.len(), 3, "projected batch should have 3 columns");
    assert_eq!(batch.schema.fields[0].name, "oid");
    assert_eq!(batch.schema.fields[1].name, "relname");
    assert_eq!(batch.schema.fields[2].name, "relnamespace");
    let oid = &batch.columns[0];
    assert_eq!(oid.data_type, ArrowType::UInt32, "oid column should be UInt32Array");
    match &oid.values[0] {
        Some(ArrowValue::UInt32(v)) => assert!(*v > 0, "first OID should be non-zero"),
        other => panic!("unexpected {other:?}"),
    }
    assert_eq!(batch.columns[2].values[2], Some(ArrowValue::UInt32(2200)));
}

#[test]
fn test_page_to_record_batch_single_column() {
    let schema = PgClass::catalog_schema();
    let page = pg_class_page();
    let batch = page.to_record_batch(&schema, Some(&[1])).unwrap();
    assert_eq!(batch.columns.len(), 1);
    assert_eq!(batch.schema.fields[0].name, "relname");
    let relname = &batch.columns[0];
    assert_eq!(relname.data_type, ArrowType::Utf8, "relname column should be StringArray");
    assert!(relname.values.len() > 0);
    for i in 0..relname.values.len() {
        if relname.values[i].is_some() {
            assert!(!utf8_at(&relname.values, i).is_empty(), "relname at row {i} should be non-empty");
        }
    }
}

#[test]
fn test_page_to_record_batch_empty_projection() {
    let schema = PgClass::catalog_schema();
    let page = pg_class_page();
    let batch = page.to_record_batch(&schema, Some(&[])).unwrap();
    assert_eq!(batch.columns.len(), 0);
    assert_eq!(batch.schema.fields.len(), 0);
}

#[test]
fn page_batch_nulls_and_repeats() {
    let schema = PgSchema::new(
        "t",
        vec![
            PgColumn::new("a", PgTypeId::Int4, true, -1),
            PgColumn::new("b", PgTypeId::Text, true, -1),
            PgColumn::new("c", PgTypeId::Bool, true, -1),
        ],
    );
    let rows: Vec<Vec<u8>> = [
        vec![Some(1i32.to_le_bytes().to_vec()), Some(short_varlena(b"x")), Some(vec![1])],
        vec![Some(2i32.to_le_bytes().to_vec()), None, Some(vec![0])],
    ]
    .iter()
    .map(|values| {
        let (bitmap, data) = row_data(&schema, values);
        tuple_bytes(1, 0, 3, bitmap.as_deref(), &data)
    })
    .collect();
    let page = HeapPageData::parse(page_with(&rows)).unwrap();
    // A column named twice feeds only its last output, so the columns
    // differ in length and form no batch.
    assert_eq!(
        page.to_record_batch(&schema, Some(&[2, 0, 2])).unwrap_err(),
        PgError::ArrowConversionFailed { detail: "the columns of a record batch differ in length".to_string() }
    );
    let batch = page.to_record_batch(&schema, Some(&[2, 0])).unwrap();
    assert_eq!(batch.columns[0].values, vec![Some(ArrowValue::Boolean(true)), Some(ArrowValue::Boolean(false))]);
    assert_eq!(batch.columns[1].values, vec![Some(ArrowValue::Int32(1)), Some(ArrowValue::Int32(2))]);
    // One row per readable tuple, in every column of either batch.
    assert_eq!(batch.schema.fields[0].name, "c");
    let all = page.to_record_batch(&schema, None).unwrap();
    assert_eq!(all.columns[1].values, vec![Some(ArrowValue::Utf8("x".to_string())), None]);
    assert!(all.columns.iter().all(|c| c.values.len() == 2));
    assert_eq!((page.get_row_data(0).is_ok(), page.get_row_data(1).is_ok()), (true, true));
    assert!(page.get_row_data(2).is_err());

    // A NULL under a column that is not nullable fails the batch.
    let strict = PgSchema::new(
        "t",
        vec![
            PgColumn::new("a", PgTypeId::Int4, true, -1),
            PgColumn::new("b", PgTypeId::Text, false, -1),
            PgColumn::new("c", PgTypeId::Bool, true, -1),
        ],
    );
    assert_eq!(
        page.to_record_batch(&strict, None).unwrap_err(),
        PgError::ArrowConversionFailed { detail: "column 'b' is not nullable but holds nulls".to_string() }
    );
    // A schema without columns gives no batch; an empty projection does.
    assert_eq!(
        page.to_record_batch(&PgSchema::new("t", vec![]), None).unwrap_err(),
        PgError::ArrowConversionFailed { detail: "a record batch needs at least one column".to_string() }
    );
}

#[test]
fn page_conversion_checks() {
    let schema = PgClass::catalog_schema();
    let page = pg_class_page();
    assert!(page.conversion_defined(&schema, None));
    assert!(page.conversion_defined(&schema, Some(&[2, 0])));
    assert!(page.conversion_defined(&schema, Some(&[])));
    assert!(!page.conversion_defined(&schema, Some(&[0, 500])));
    assert!(HeapPageData::parse_defined(&[0u8; 100]));
    let mut bad = [0u8; PAGE_BUFFER_SIZE];
    bad[12..14].copy_from_slice(&u16::MAX.to_le_bytes());
    assert!(!HeapPageData::parse_defined(&bad));
    assert!(HeapPageData::parse_defined(&[0u8; PAGE_BUFFER_SIZE]));
}

#[test]
fn info_mask_names_are_distinct() {
    let flags = [
        InfoMask::HasNull,
        InfoMask::HasVarWidth,
        InfoMask::HasExternal,
        InfoMask::HasOidOld,
        InfoMask::XmaxKeyshrLock,
        InfoMask::ComboCid,
        InfoMask::XmaxExclLock,
        InfoMask::XmaxLockOnly,
        InfoMask::XminCommitted,
        InfoMask::XminInvalid,
        InfoMask::XmaxCommitted,
        InfoMask::XmaxInvalid,
        InfoMask::XmaxIsMulti,
        InfoMask::Updated,
        InfoMask::MovedOff,
        InfoMask::MovedIn,
    ];
    for (i, a) in flags.iter().enumerate() {
        for (j, b) in flags.iter().enumerate() {
            assert_eq!(a.short_name() == b.short_name(), i == j);
        }
        assert_eq!(a.to_string(), format!("InfoMask::{}", a.short_name()));
    }
    assert_eq!(InfoMask::HasOidOld.short_name(), "HASOID_OLD");
}

#[test]
fn projected_batch_matches_full() {
    let schema = PgClass::catalog_schema();
    let page = pg_class_page();
    let full = page.to_record_batch(&schema, None).unwrap();
    let projected = page.to_record_batch(&schema, Some(&[2, 0, 1])).unwrap();
    assert_eq!(projected.columns[0].values, full.columns[2].values);
    assert_eq!(projected.columns[1].values, full.columns[0].values);
    assert_eq!(projected.columns[2].values, full.columns[1].values);
}
