//! The text of a datum, in a PostgreSQL-like output form: numbers in
//! decimal, byte strings in `\x` hexadecimal, MAC addresses and UUIDs in
//! their usual notation. Floating-point datums (and the geometric types,
//! which hold floats) have no text here.

use vstd::prelude::*;
use vstd::slice::slice_subrange;
use vstd::utf8::{decode_utf8, valid_utf8};

use crate::codec::datum::{find_nul, first_nul, has_nul, PgDatumView};
use crate::codec::text::utf8_to_string;
use crate::codec::PgDatum;
use crate::render::{decimal_text, push_decimal};
use crate::types::column_builder::{hex_digit, hex_digit_str, hex_string, hex_text};

verus! {

/// `v` in decimal, with a leading `-` when negative.
pub open spec fn signed_text(v: int) -> Seq<char> {
    if v < 0 {
        "-"@ + decimal_text((-v) as nat)
    } else {
        decimal_text(v as nat)
    }
}

/// The bytes of `b` in two-digit lower-case hexadecimal, separated by `:`.
pub open spec fn colon_hex_text(b: Seq<u8>) -> Seq<char>
    decreases b.len(),
{
    if b.len() == 0 {
        Seq::empty()
    } else if b.len() == 1 {
        hex_text(b)
    } else {
        colon_hex_text(b.drop_last()) + ":"@ + hex_text(seq![b.last()])
    }
}

/// A 16-byte UUID as `8-4-4-4-12` lower-case hexadecimal digits.
pub open spec fn uuid_text(b: Seq<u8>) -> Seq<char> {
    hex_text(b.subrange(0, 4)) + "-"@ + hex_text(b.subrange(4, 6)) + "-"@ + hex_text(b.subrange(6, 8)) + "-"@
        + hex_text(b.subrange(8, 10)) + "-"@ + hex_text(b.subrange(10, 16))
}

/// The text of datum `d`, or `None` for a floating-point or geometric
/// datum, and for a `name` without a NUL or whose bytes before it are not
/// UTF-8.
pub open spec fn spec_datum_text(d: PgDatumView) -> Option<Seq<char>> {
    match d {
        PgDatumView::Bool(v) => Some(if v { "true"@ } else { "false"@ }),
        PgDatumView::Int2(v) => Some(signed_text(v as int)),
        PgDatumView::Int4(v) | PgDatumView::Date(v) => Some(signed_text(v as int)),
        PgDatumView::Int8(v) | PgDatumView::Time(v) | PgDatumView::Timestamp(v) | PgDatumView::TimestampTz(v)
        | PgDatumView::Money(v) => Some(signed_text(v as int)),
        PgDatumView::Oid(v) | PgDatumView::Xid(v) | PgDatumView::Cid(v) => Some(decimal_text(v as nat)),
        PgDatumView::Xid8(v) => Some(decimal_text(v as nat)),
        PgDatumView::Char(v) => Some(seq![(v as int) as char]),
        PgDatumView::Name(b) => if has_nul(b) && valid_utf8(b.subrange(0, first_nul(b))) {
            Some(decode_utf8(b.subrange(0, first_nul(b))))
        } else {
            None
        },
        PgDatumView::Tid { block, offset } => Some(
            "("@ + decimal_text(block as nat) + ","@ + decimal_text(offset as nat) + ")"@,
        ),
        PgDatumView::MacAddr(b) | PgDatumView::MacAddr8(b) => Some(colon_hex_text(b)),
        PgDatumView::Uuid(b) => Some(uuid_text(b)),
        PgDatumView::Interval { microseconds, days, months } => Some(
            signed_text(months as int) + " mons "@ + signed_text(days as int) + " days "@ + signed_text(
                microseconds as int,
            ) + " usecs"@,
        ),
        PgDatumView::TimeTz { time_usec, tz_offset } => Some(
            signed_text(time_usec as int) + " usecs tz="@ + signed_text(tz_offset as int),
        ),
        PgDatumView::Text(s) | PgDatumView::Varchar(s) | PgDatumView::BpChar(s) | PgDatumView::Json(s)
        | PgDatumView::Xml(s) => Some(s),
        PgDatumView::Bytea(b) | PgDatumView::Jsonb(b) | PgDatumView::JsonPath(b) | PgDatumView::Numeric(b)
        | PgDatumView::Inet(b) | PgDatumView::Cidr(b) | PgDatumView::Bit(b) | PgDatumView::VarBit(b)
        | PgDatumView::Path(b) | PgDatumView::Polygon(b) => Some("\\x"@ + hex_text(b)),
        PgDatumView::RawBytes { oid, data } => Some("(oid="@ + decimal_text(oid as nat) + ")\\x"@ + hex_text(data)),
        PgDatumView::Null => Some("NULL"@),
        _ => None,
    }
}

/// `std`'s `ToString` for `char`: a string of that one character.
#[verifier::external_body]
fn char_to_string(c: char) -> (r: String)
    ensures
        r@ == seq![c],
{
    c.to_string()
}

/// Appends `v` in decimal, with a leading `-` when negative.
fn push_signed(s: &mut String, v: i64)
    ensures
        final(s)@ == old(s)@ + signed_text(v as int),
{
    if v < 0 {
        s.append("-");
        let m: u64 = (-(v as i128)) as u64;
        push_decimal(s, m);
        proof {
            reveal_strlit("-");
            assert(final(s)@ =~= old(s)@ + signed_text(v as int));
        }
    } else {
        push_decimal(s, v as u64);
    }
}

/// The bytes of `b` in two-digit hexadecimal, separated by `:`.
fn colon_hex_string(b: &[u8]) -> (r: String)
    ensures
        r@ == colon_hex_text(b@),
{
    let mut s = String::new();
    let mut i: usize = 0;
    while i < b.len()
        invariant
            i <= b@.len(),
            s@ == colon_hex_text(b@.subrange(0, i as int)),
        decreases b@.len() - i,
    {
        let x = b[i];
        proof {
            let p = b@.subrange(0, i as int + 1);
            assert(p.drop_last() =~= b@.subrange(0, i as int));
            assert(p.last() == x);
            assert(seq![x].drop_last() =~= Seq::<u8>::empty());
            assert(hex_text(seq![x]) =~= hex_text(Seq::<u8>::empty()) + seq![hex_digit(x as int / 16), hex_digit(x as int % 16)]);
            reveal_strlit(":");
        }
        if i > 0 {
            s.append(":");
        }
        s.append(hex_digit_str(x / 16));
        s.append(hex_digit_str(x % 16));
        i = i + 1;
        proof {
            let p = b@.subrange(0, i as int);
            if i == 1 {
                assert(b@.subrange(0, 0) =~= Seq::<u8>::empty());
                assert(p =~= seq![x]);
            }
            assert(s@ =~= colon_hex_text(p));
        }
    }
    proof {
        assert(b@.subrange(0, b@.len() as int) =~= b@);
    }
    s
}

/// The text of datum `d` (see [`spec_datum_text`]): `None` for the datums
/// that hold floating-point values, and for a `name` that has no NUL or is
/// not UTF-8 before it.
pub fn datum_text(d: &PgDatum) -> (r: Option<String>)
    ensures
        match spec_datum_text(d@) {
            Some(t) => r matches Some(s) && s@ == t,
            None => r is None,
        },
{
    proof {
        reveal_strlit("true");
        reveal_strlit("false");
        reveal_strlit("(");
        reveal_strlit(",");
        reveal_strlit(")");
        reveal_strlit("-");
        reveal_strlit(" mons ");
        reveal_strlit(" days ");
        reveal_strlit(" usecs");
        reveal_strlit(" usecs tz=");
        reveal_strlit("\\x");
        reveal_strlit("(oid=");
        reveal_strlit(")\\x");
        reveal_strlit("NULL");
    }
    let mut s = String::new();
    match d {
        PgDatum::Bool(v) => {
            if *v {
                s.append("true");
            } else {
                s.append("false");
            }
        },
        PgDatum::Int2(v) => push_signed(&mut s, *v as i64),
        PgDatum::Int4(v) | PgDatum::Date(v) => push_signed(&mut s, *v as i64),
        PgDatum::Int8(v) | PgDatum::Time(v) | PgDatum::Timestamp(v) | PgDatum::TimestampTz(v) | PgDatum::Money(v) => {
            push_signed(&mut s, *v)
        },
        PgDatum::Oid(v) | PgDatum::Xid(v) | PgDatum::Cid(v) => push_decimal(&mut s, *v as u64),
        PgDatum::Xid8(v) => push_decimal(&mut s, *v),
        PgDatum::Char(v) => {
            s = char_to_string(*v as char);
        },
        PgDatum::Name(b) => {
            // the bytes before the first NUL, as UTF-8
            match find_nul(b.as_slice()) {
                Some(n) => {
                    proof {
                        crate::codec::datum::lemma_first_nul(b@, n as int);
                    }
                    match utf8_to_string(slice_subrange(b.as_slice(), 0, n)) {
                        Ok(t) => s = t,
                        Err(_) => return None,
                    }
                },
                None => return None,
            }
        },
        PgDatum::Tid { block, offset } => {
            s.append("(");
            push_decimal(&mut s, *block as u64);
            s.append(",");
            push_decimal(&mut s, *offset as u64);
            s.append(")");
        },
        PgDatum::MacAddr(b) => s = colon_hex_string(b.as_slice()),
        PgDatum::MacAddr8(b) => s = colon_hex_string(b.as_slice()),
        PgDatum::Uuid(b) => {
            let b = b.as_slice();
            s = hex_string(slice_subrange(b, 0, 4));
            s.append("-");
            s.append(hex_string(slice_subrange(b, 4, 6)).as_str());
            s.append("-");
            s.append(hex_string(slice_subrange(b, 6, 8)).as_str());
            s.append("-");
            s.append(hex_string(slice_subrange(b, 8, 10)).as_str());
            s.append("-");
            s.append(hex_string(slice_subrange(b, 10, 16)).as_str());
        },
        PgDatum::Interval { microseconds, days, months } => {
            push_signed(&mut s, *months as i64);
            s.append(" mons ");
            push_signed(&mut s, *days as i64);
            s.append(" days ");
            push_signed(&mut s, *microseconds);
            s.append(" usecs");
        },
        PgDatum::TimeTz { time_usec, tz_offset } => {
            push_signed(&mut s, *time_usec);
            s.append(" usecs tz=");
            push_signed(&mut s, *tz_offset as i64);
        },
        PgDatum::Text(t) | PgDatum::Varchar(t) | PgDatum::BpChar(t) | PgDatum::Json(t) | PgDatum::Xml(t) => {
            s = t.clone()
        },
        PgDatum::Bytea(b) | PgDatum::Jsonb(b) | PgDatum::JsonPath(b) | PgDatum::Numeric(b) | PgDatum::Inet(b)
        | PgDatum::Cidr(b) | PgDatum::Bit(b) | PgDatum::VarBit(b) | PgDatum::Path(b) | PgDatum::Polygon(b) => {
            s.append("\\x");
            s.append(hex_string(b.as_slice()).as_str());
        },
        PgDatum::RawBytes { oid, data } => {
            s.append("(oid=");
            push_decimal(&mut s, *oid as u64);
            s.append(")\\x");
            s.append(hex_string(data.as_slice()).as_str());
        },
        PgDatum::Null => s.append("NULL"),
        _ => return None,
    }
    Some(s)
}

} // verus!
