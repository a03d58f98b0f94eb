use bytes::Bytes;

use pg_arrow::codec::PgTypeId;
use pg_arrow::file::reader::{
    page_location, pages_conversion_defined, pages_to_batches, BatchCursor, BulkRead, PageRowCursor, ReadRequest, DEFAULT_PAGES_PER_BATCH,
};
use pg_arrow::file::config::config_data_dir;
use pg_arrow::file::relation::{parse_relmap, RelMapping, RELMAPPER_MAGIC};
use pg_arrow::heap::page::{PAGES_PER_SEGMENT, PAGE_BUFFER_SIZE};
use pg_arrow::types::arrow::ArrowValue;
use pg_arrow::types::{PgColumn, PgSchema};

fn relmap(magic: u32, entries: &[(u32, u32)], count: u32) -> Vec<u8> {
    let mut b = vec![0u8; 512];
    b[0..4].copy_from_slice(&magic.to_le_bytes());
    b[4..8].copy_from_slice(&count.to_le_bytes());
    for (i, (oid, node)) in entries.iter().enumerate() {
        b[8 + 8 * i..12 + 8 * i].copy_from_slice(&oid.to_le_bytes());
        b[12 + 8 * i..16 + 8 * i].copy_from_slice(&node.to_le_bytes());
    }
    b
}

/// An 8 KiB page holding one tuple per value, each a single int4 column.
fn int4_page(values: &[i32]) -> Vec<u8> {
    let mut page = vec![0u8; PAGE_BUFFER_SIZE];
    let mut upper = PAGE_BUFFER_SIZE;
    for (i, v) in values.iter().enumerate() {
        let mut t = vec![0u8; 24];
        t[16..18].copy_from_slice(&1u16.to_le_bytes());
        t[18..20].copy_from_slice(&1u16.to_le_bytes());
        t[22] = 24;
        t.extend_from_slice(&v.to_le_bytes());
        let off = (upper - t.len()) / 8 * 8;
        page[off..off + t.len()].copy_from_slice(&t);
        let lp: u32 = (off as u32) | (1 << 15) | ((t.len() as u32) << 17);
        page[24 + 4 * i..28 + 4 * i].copy_from_slice(&lp.to_le_bytes());
        upper = off;
    }
    page[12..14].copy_from_slice(&((24 + 4 * values.len()) as u16).to_le_bytes());
    page[14..16].copy_from_slice(&(upper as u16).to_le_bytes());
    page
}

#[test]
fn test_parse_filenode_map() {
    let buf = relmap(RELMAPPER_MAGIC, &[(1262, 1262), (1260, 1260), (1261, 1261), (1213, 1213)], 4);
    let relmap = parse_relmap(&buf).unwrap();

    assert!(relmap.num_mappings > 0);
    assert_eq!(relmap.mappings.len(), relmap.num_mappings as usize);
    let oids: Vec<u32> = relmap.mappings.iter().map(|m| m.mapoid).collect();
    assert_eq!(oids, vec![1213, 1260, 1261, 1262]);
    assert_eq!(relmap.mappings[0], RelMapping { mapoid: 1213, mapfilenode: 1213 });
    assert_eq!(relmap.crc, 0);
}

#[test]
fn relmap_crc_and_errors() {
    let mut buf = relmap(RELMAPPER_MAGIC, &[(5, 50)], 1);
    buf[508..512].copy_from_slice(&0xDEADBEEFu32.to_le_bytes());
    let m = parse_relmap(&buf).unwrap();
    assert_eq!(m.crc, 0xDEADBEEF);
    assert_eq!(m.mappings, vec![RelMapping { mapoid: 5, mapfilenode: 50 }]);

    assert_eq!(
        parse_relmap(&relmap(0x1234, &[], 0)).unwrap_err(),
        "pg_filenode.map: bad magic 0x00001234, expected 0x00592717"
    );
    assert_eq!(
        parse_relmap(&relmap(RELMAPPER_MAGIC, &[], 200)).unwrap_err(),
        "pg_filenode.map: num_mappings 200 exceeds max 63"
    );
    assert!(parse_relmap(&relmap(RELMAPPER_MAGIC, &[], 63)).is_ok());
    assert_eq!(
        parse_relmap(&relmap(RELMAPPER_MAGIC, &[], 64)).unwrap_err(),
        "pg_filenode.map: num_mappings 64 exceeds max 63"
    );
}

#[test]
fn relmap_without_mappings() {
    let buf = relmap(RELMAPPER_MAGIC, &[], 0);
    let m = parse_relmap(&buf).unwrap();
    assert_eq!(m.num_mappings, 0);
    assert!(m.mappings.is_empty());
}

#[test]
fn page_locations() {
    assert_eq!(page_location(0), (0, 0));
    assert_eq!(page_location(3), (0, 3 * PAGE_BUFFER_SIZE));
    assert_eq!(page_location(PAGES_PER_SEGMENT + 2), (1, 2 * PAGE_BUFFER_SIZE));
}

#[test]
fn bulk_read_across_segments() {
    let start = PAGES_PER_SEGMENT - 2;
    let mut bulk = BulkRead::new(start, 4);
    let first = bulk.next_request().unwrap();
    assert_eq!(
        first,
        ReadRequest {
            segment: 0,
            offset_in_segment: start * PAGE_BUFFER_SIZE,
            read_bytes: 2 * PAGE_BUFFER_SIZE,
            buf_offset: 0,
        }
    );
    bulk.record_read(first, (2 * PAGE_BUFFER_SIZE) as i64);
    let second = bulk.next_request().unwrap();
    assert_eq!(
        second,
        ReadRequest { segment: 1, offset_in_segment: 0, read_bytes: 2 * PAGE_BUFFER_SIZE, buf_offset: 2 * PAGE_BUFFER_SIZE }
    );
    // A short read keeps the whole pages it got and ends the bulk read.
    bulk.record_read(second, (PAGE_BUFFER_SIZE + 100) as i64);
    assert_eq!(bulk.pages_read(), 3);
    assert_eq!(bulk.buf_offset(), 3 * PAGE_BUFFER_SIZE);
    assert!(bulk.next_request().is_none());
}

#[test]
fn bulk_read_failure() {
    let mut bulk = BulkRead::new(0, 2);
    let req = bulk.next_request().unwrap();
    bulk.record_read(req, -1);
    assert_eq!(bulk.pages_read(), 0);
    assert!(bulk.next_request().is_none());
}

#[test]
fn batch_cursor_range() {
    let mut c = BatchCursor::new().with_pages_per_batch(0).with_page_range(5, 8);
    assert_eq!(c.pages_per_batch, DEFAULT_PAGES_PER_BATCH);
    assert_eq!(c.begin_fill(), Some(3));
    c.finish_fill(3, 3);
    assert_eq!(c.next_page_index, 8);
    assert!(!c.exhausted);
    assert_eq!(c.begin_fill(), None);
    assert!(c.exhausted);
}

#[test]
fn batch_cursor_short_read() {
    let mut c = BatchCursor::new().with_pages_per_batch(4);
    assert_eq!(c.begin_fill(), Some(4));
    c.finish_fill(4, 2);
    assert_eq!(c.next_page_index, 2);
    assert!(c.exhausted);
    assert_eq!(c.begin_fill(), None);

    let mut d = BatchCursor::new();
    assert_eq!(d.begin_fill(), Some(DEFAULT_PAGES_PER_BATCH));
    d.finish_fill(DEFAULT_PAGES_PER_BATCH, 0);
    assert!(d.exhausted);
    assert_eq!(d.next_page_index, 0);
}

#[test]
fn page_row_cursor_walk() {
    let mut c = PageRowCursor::new();
    assert_eq!(c.next_page(5), None);
    assert_eq!(c.advance(), 0);
    // A page with one line pointer is done after it.
    assert_eq!(c.next_page(1), Some(1));
    c.enter_page(1);
    assert_eq!(c.advance(), 0);
    assert_eq!(c.next_page(3), None);
    assert_eq!(c.advance(), 1);
    assert_eq!(c.advance(), 2);
    assert_eq!(c.next_page(3), Some(2));
}

#[test]
fn bulk_pages_to_batches() {
    let schema = PgSchema::new("t", vec![PgColumn::new("v", PgTypeId::Int4, true, -1)]);
    let mut bulk = int4_page(&[1, 2]);
    bulk.extend_from_slice(&int4_page(&[3]));
    let bulk = Bytes::from(bulk);
    let batches = pages_to_batches(&bulk, 2, &schema, None).unwrap();
    assert_eq!(batches.len(), 2);
    assert_eq!(batches[0].columns[0].values, vec![Some(ArrowValue::Int32(1)), Some(ArrowValue::Int32(2))]);
    assert_eq!(batches[1].columns[0].values, vec![Some(ArrowValue::Int32(3))]);
    let first_only = pages_to_batches(&bulk, 1, &schema, Some(&[0])).unwrap();
    assert_eq!(first_only.len(), 1);
}

#[test]
fn bulk_conversion_checks() {
    let schema = PgSchema::new("t", vec![PgColumn::new("v", PgTypeId::Int4, true, -1)]);
    let mut bulk = int4_page(&[1, 2]);
    bulk.extend_from_slice(&int4_page(&[3]));
    let bulk = Bytes::from(bulk);
    assert!(pages_conversion_defined(&bulk, 2, &schema, None));
    assert!(pages_conversion_defined(&bulk, 2, &schema, Some(&[0])));
    // more pages than the buffer holds, or a projection past the schema
    assert!(!pages_conversion_defined(&bulk, 3, &schema, None));
    assert!(!pages_conversion_defined(&bulk, 1, &schema, Some(&[1])));
    // a header announcing more line pointers than a page holds
    let mut bad = int4_page(&[1]);
    bad[12..14].copy_from_slice(&u16::MAX.to_le_bytes());
    assert!(!pages_conversion_defined(&Bytes::from(bad), 1, &schema, None));
    // a date past the range of the shifted epoch
    let dates = PgSchema::new("t", vec![PgColumn::new("d", PgTypeId::Date, true, -1)]);
    let big = int4_page(&[i32::MAX]);
    assert!(!pages_conversion_defined(&Bytes::from(big), 1, &dates, None));
}

#[test]
fn config_data_dirs() {
    assert_eq!(
        config_data_dir("[postgres.pg18]\ndata_dir = \"/srv/pg/data\"\n"),
        Ok("/srv/pg/data".to_string())
    );
    assert_eq!(config_data_dir("[postgres.latest]\ndata_dir = \"/x\"\n"), Ok(String::new()));
    assert_eq!(config_data_dir("[postgres.pg18]\ndata_dir = 5\n"), Ok(String::new()));
    assert!(config_data_dir("[postgres.pg18\n").is_err());
}
