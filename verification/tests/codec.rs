use pg_arrow::codec::display::datum_text;
use pg_arrow::codec::{
    decode_datum, decode_fixed, decode_varlena, read_varlena_header, skip_datum, DecodeError, PgDatum,
    PgTypeCategory, PgTypeId, PgTypeLen,
};
use pg_arrow::types::arrow::{ArrowIntervalUnit, ArrowTimeUnit, ArrowTimeZone, ArrowType};

#[test]
fn type_oids_round_trip() {
    assert_eq!(PgTypeId::Int4.oid(), 23);
    assert_eq!(PgTypeId::Text.oid(), 25);
    assert_eq!(PgTypeId::Numeric.oid(), 1700);
    assert_eq!(PgTypeId::try_from_oid(25), Ok(PgTypeId::Text));
    assert_eq!(PgTypeId::try_from_oid(PgTypeId::Jsonb.oid()), Ok(PgTypeId::Jsonb));
    assert_eq!(PgTypeId::try_from_oid(99999), Err(99999));
}

#[test]
fn type_lengths_and_alignment() {
    assert_eq!(PgTypeId::Int4.type_len(), PgTypeLen::Fixed(4));
    assert_eq!(PgTypeId::Name.type_len(), PgTypeLen::Fixed(64));
    assert_eq!(PgTypeId::Text.type_len(), PgTypeLen::Varlena);
    assert_eq!(PgTypeId::Int8.align(), 8);
    assert_eq!(PgTypeId::Int2.align(), 2);
    assert_eq!(PgTypeId::Bool.align(), 1);
    let info = PgTypeId::Int4.info();
    assert_eq!(info.oid, 23);
    assert_eq!(info.name, "int4");
    assert_eq!(info.typlen, 4);
}

#[test]
fn decode_fixed_integers() {
    assert_eq!(decode_fixed(PgTypeId::Int4, &[0x2a, 0, 0, 0]), Ok(PgDatum::Int4(42)));
    assert_eq!(decode_fixed(PgTypeId::Int2, &[0xfe, 0xff]), Ok(PgDatum::Int2(-2)));
    assert_eq!(
        decode_fixed(PgTypeId::Int8, &[1, 0, 0, 0, 0, 0, 0, 0x80]),
        Ok(PgDatum::Int8(i64::MIN + 1))
    );
    assert_eq!(decode_fixed(PgTypeId::Bool, &[1]), Ok(PgDatum::Bool(true)));
    assert_eq!(decode_fixed(PgTypeId::Bool, &[0]), Ok(PgDatum::Bool(false)));
    assert_eq!(decode_fixed(PgTypeId::Oid, &[0xeb, 0x04, 0, 0]), Ok(PgDatum::Oid(1259)));
    assert_eq!(decode_fixed(PgTypeId::Char, &[b'r']), Ok(PgDatum::Char(b'r')));
    assert_eq!(
        decode_fixed(PgTypeId::Tid, &[5, 0, 0, 0, 7, 0]),
        Ok(PgDatum::Tid { block: 5, offset: 7 })
    );
}

#[test]
fn decode_fixed_interval_and_uuid() {
    let mut b = Vec::new();
    b.extend_from_slice(&1_000_000i64.to_le_bytes());
    b.extend_from_slice(&2i32.to_le_bytes());
    b.extend_from_slice(&3i32.to_le_bytes());
    assert_eq!(
        decode_fixed(PgTypeId::Interval, &b),
        Ok(PgDatum::Interval { microseconds: 1_000_000, days: 2, months: 3 })
    );
    let u: Vec<u8> = (0u8..16).collect();
    let mut arr = [0u8; 16];
    arr.copy_from_slice(&u);
    assert_eq!(decode_fixed(PgTypeId::Uuid, &u), Ok(PgDatum::Uuid(arr)));
}

#[test]
fn decode_fixed_name_stops_at_nul() {
    let mut field = [0u8; 64];
    field[..7].copy_from_slice(b"pg_proc");
    assert_eq!(decode_fixed(PgTypeId::Name, &field), Ok(PgDatum::Text("pg_proc".to_string())));
}

#[test]
fn decode_fixed_name_errors() {
    assert_eq!(decode_fixed(PgTypeId::Name, &[0x61u8; 64]), Err(DecodeError::MissingNulTerminator));
    let mut field = [0u8; 64];
    field[..3].copy_from_slice(&[b'a', 0xff, b'b']);
    assert_eq!(
        decode_fixed(PgTypeId::Name, &field),
        Err(DecodeError::InvalidUtf8 { typname: "name", offset: 1 })
    );
}

#[test]
fn decode_fixed_too_short() {
    let e = decode_fixed(PgTypeId::Int4, &[1, 2]).unwrap_err();
    assert_eq!(e, DecodeError::BufferTooShort { typname: "int4", expected: 4, actual: 2 });
    assert_eq!(e.message(), "buffer too short for int4: need 4 bytes, got 2");
}

#[test]
fn decode_varlena_text_and_bytes() {
    assert_eq!(decode_varlena(PgTypeId::Text, b"hello"), Ok(PgDatum::Text("hello".to_string())));
    assert_eq!(decode_varlena(PgTypeId::Varchar, b"ab"), Ok(PgDatum::Varchar("ab".to_string())));
    assert_eq!(decode_varlena(PgTypeId::Bytea, &[0, 255]), Ok(PgDatum::Bytea(vec![0, 255])));
    assert_eq!(decode_varlena(PgTypeId::Numeric, &[1, 2]), Ok(PgDatum::Numeric(vec![1, 2])));
}

#[test]
fn decode_varlena_invalid_utf8() {
    let e = decode_varlena(PgTypeId::Text, &[b'a', 0xff, b'b']).unwrap_err();
    assert_eq!(e, DecodeError::InvalidUtf8 { typname: "text", offset: 1 });
    assert_eq!(e.message(), "invalid UTF-8 in text at offset 1");
}

#[test]
fn varlena_headers() {
    // 1-byte header: total length 5 (header included), payload 4 bytes.
    assert_eq!(read_varlena_header(&[0x0b, b'a', b'b', b'c', b'd'], 0), Ok((1, 4)));
    // 4-byte header: total length 7, payload 3 bytes.
    assert_eq!(read_varlena_header(&[28, 0, 0, 0, b'x', b'y', b'z'], 0), Ok((4, 3)));
    // TOAST pointer tag 18: the 18-byte pointer is skipped.
    assert_eq!(read_varlena_header(&[0x01, 18], 0), Ok((18, 0)));
    let e = read_varlena_header(&[0x01, 7], 0).unwrap_err();
    assert_eq!(e, DecodeError::InvalidVarlenaHeader { offset: 0, first_byte: 1 });
    assert_eq!(e.message(), "invalid varlena header at offset 0: first byte = 0x01");
    let e = read_varlena_header(&[], 0).unwrap_err();
    assert_eq!(e.message(), "buffer too short for varlena header: need 1 bytes, got 0");
}

#[test]
fn decode_datum_consumes_header_and_payload() {
    let data = [0u8, 0x07, b'h', b'i'];
    assert_eq!(decode_datum(PgTypeId::Text, &data, 1), Ok((PgDatum::Text("hi".to_string()), 3)));
    assert_eq!(decode_datum(PgTypeId::Int2, &[9, 0], 0), Ok((PgDatum::Int2(9), 2)));
    let cstr = [b'a', b'b', 0, 9];
    assert_eq!(skip_datum(PgTypeLen::CString, &cstr, 0), Ok(3));
    assert_eq!(skip_datum(PgTypeLen::Fixed(4), &[0; 8], 2), Ok(4));
    assert_eq!(skip_datum(PgTypeLen::Varlena, &data, 1), Ok(3));
}

#[test]
fn missing_nul_message() {
    assert_eq!(
        DecodeError::MissingNulTerminator.message(),
        "missing null terminator in name/cstring column"
    );
}

#[test]
fn datum_arrow_types() {
    assert_eq!(PgDatum::Int4(1).arrow_type(), ArrowType::Int32);
    assert_eq!(
        PgDatum::TimestampTz(0).arrow_type(),
        ArrowType::Timestamp(ArrowTimeUnit::Microsecond, Some(ArrowTimeZone::Utc))
    );
    assert_eq!(PgDatum::Timestamp(0).arrow_type(), ArrowType::Timestamp(ArrowTimeUnit::Microsecond, None));
    assert_eq!(
        PgDatum::Interval { microseconds: 0, days: 0, months: 0 }.arrow_type(),
        ArrowType::Interval(ArrowIntervalUnit::MonthDayNano)
    );
    assert_eq!(PgDatum::Numeric(vec![]).arrow_type(), ArrowType::Decimal256(38, 0));
    assert_eq!(PgDatum::Uuid([0; 16]).arrow_type(), ArrowType::FixedSizeBinary(16));
    assert_eq!(PgDatum::Line { a: 0, b: 0, c: 0 }.arrow_type(), ArrowType::FixedSizeBinary(24));
    assert_eq!(PgDatum::Tid { block: 0, offset: 0 }.arrow_type(), ArrowType::Binary);
    assert_eq!(PgDatum::Text(String::new()).arrow_type(), ArrowType::Utf8);
    assert_eq!(PgDatum::Null.arrow_type(), ArrowType::Null);
}

#[test]
fn array_types_are_lists() {
    assert_eq!(PgTypeId::Int4Array.type_len(), PgTypeLen::Varlena);
    assert_eq!(PgTypeId::Int4Array.align(), 4);
    assert_eq!(PgTypeId::Int4Array.info().category, PgTypeCategory::Array);
    assert_eq!(PgTypeId::Int4Array.arrow_type(), ArrowType::List(Box::new(ArrowType::Int32)));
    assert_eq!(PgTypeId::TextArray.arrow_type(), ArrowType::List(Box::new(ArrowType::Utf8)));
    assert_eq!(PgTypeId::Int4Array.oid(), 1007);
}

#[test]
fn skip_agrees_with_decode() {
    let data = [0x0b, b'a', b'b', b'c', b'd', 7, 0, 0, 0];
    let (_, n) = decode_datum(PgTypeId::Text, &data, 0).unwrap();
    assert_eq!(skip_datum(PgTypeId::Text.type_len(), &data, 0), Ok(n));
    let (_, m) = decode_datum(PgTypeId::Int4, &data, 5).unwrap();
    assert_eq!(skip_datum(PgTypeId::Int4.type_len(), &data, 5), Ok(m));
}

#[test]
fn datum_texts() {
    let text = |d: PgDatum| datum_text(&d);
    assert_eq!(text(PgDatum::Bool(true)), Some("true".to_string()));
    assert_eq!(text(PgDatum::Int2(-7)), Some("-7".to_string()));
    assert_eq!(text(PgDatum::Int4(42)), Some("42".to_string()));
    assert_eq!(text(PgDatum::Int8(i64::MIN)), Some("-9223372036854775808".to_string()));
    assert_eq!(text(PgDatum::Oid(1259)), Some("1259".to_string()));
    assert_eq!(text(PgDatum::Xid8(u64::MAX)), Some("18446744073709551615".to_string()));
    assert_eq!(text(PgDatum::Char(b'r')), Some("r".to_string()));
    assert_eq!(text(PgDatum::Char(0xE9)), Some("\u{e9}".to_string()));
    let mut name = [0u8; 64];
    name[..7].copy_from_slice(b"pg_proc");
    assert_eq!(text(PgDatum::Name(name)), Some("pg_proc".to_string()));
    assert_eq!(text(PgDatum::Name([b'a'; 64])), None);
    assert_eq!(text(PgDatum::Tid { block: 3, offset: 12 }), Some("(3,12)".to_string()));
    assert_eq!(
        text(PgDatum::MacAddr([0x08, 0x00, 0x2b, 0x01, 0x02, 0x03])),
        Some("08:00:2b:01:02:03".to_string())
    );
    let uuid: [u8; 16] = [
        0xa0, 0xee, 0xbc, 0x99, 0x9c, 0x0b, 0x4e, 0xf8, 0xbb, 0x6d, 0x6b, 0xb9, 0xbd, 0x38, 0x0a, 0x11,
    ];
    assert_eq!(text(PgDatum::Uuid(uuid)), Some("a0eebc99-9c0b-4ef8-bb6d-6bb9bd380a11".to_string()));
    assert_eq!(
        text(PgDatum::Interval { microseconds: -5, days: 2, months: 1 }),
        Some("1 mons 2 days -5 usecs".to_string())
    );
    assert_eq!(text(PgDatum::TimeTz { time_usec: 10, tz_offset: -3600 }), Some("10 usecs tz=-3600".to_string()));
    assert_eq!(text(PgDatum::Text("hi".to_string())), Some("hi".to_string()));
    assert_eq!(text(PgDatum::Bytea(vec![0x0a, 0xff])), Some("\\x0aff".to_string()));
    assert_eq!(text(PgDatum::RawBytes { oid: 9, data: vec![1] }), Some("(oid=9)\\x01".to_string()));
    assert_eq!(text(PgDatum::Null), Some("NULL".to_string()));
    assert_eq!(text(PgDatum::Float8(0)), None);
}
