//! Human-readable error messages.

use vstd::prelude::*;

use crate::codec::datum::{DecodeErrorView, PgDatumView};
use crate::codec::{DecodeError, PgDatum, PgTypeId};
use crate::render::{decimal_text, hex4_text, push_decimal, push_hex4};
use crate::types::column_builder::{hex_digit, hex_digit_str, hex_text};

verus! {

/// `v` as eight upper-case hexadecimal digits (`{:08X}`).
pub open spec fn hex8_text(v: u32) -> Seq<char> {
    hex4_text((v / 65536) as u16) + hex4_text((v % 65536) as u16)
}

/// The label of a column looked up by position.
pub open spec fn index_text(index: nat) -> Seq<char> {
    "index "@ + decimal_text(index)
}

/// The label of a projected column that the schema does not have.
pub open spec fn projection_text(index: nat, num_columns: nat) -> Seq<char> {
    "index "@ + decimal_text(index) + " (schema has "@ + decimal_text(num_columns) + " columns)"@
}

/// The message of a relation mapper file with the wrong magic number.
pub open spec fn relmap_magic_text(magic: u32, expected: u32) -> Seq<char> {
    "pg_filenode.map: bad magic 0x"@ + hex8_text(magic) + ", expected 0x"@ + hex8_text(expected)
}

/// The message of a relation mapper file with too many mappings.
pub open spec fn relmap_count_text(num_mappings: nat, max_possible: nat) -> Seq<char> {
    "pg_filenode.map: num_mappings "@ + decimal_text(num_mappings) + " exceeds max "@
        + decimal_text(max_possible)
}

/// The message of a datum decoding error.
pub open spec fn decode_error_text(e: DecodeErrorView) -> Seq<char> {
    match e {
        DecodeErrorView::BufferTooShort { typname, expected, actual } => "buffer too short for "@
            + typname + ": need "@ + decimal_text(expected as nat) + " bytes, got "@
            + decimal_text(actual as nat),
        DecodeErrorView::InvalidUtf8 { typname, offset } => "invalid UTF-8 in "@ + typname
            + " at offset "@ + decimal_text(offset as nat),
        DecodeErrorView::MissingNulTerminator => "missing null terminator in name/cstring column"@,
        DecodeErrorView::InvalidVarlenaHeader { offset, first_byte } => "invalid varlena header at offset "@
            + decimal_text(offset as nat) + ": first byte = 0x"@ + hex_text(seq![first_byte]),
    }
}

/// Appends `v` as eight upper-case hexadecimal digits.
fn push_hex8(s: &mut String, v: u32)
    ensures
        final(s)@ == old(s)@ + hex8_text(v),
{
    push_hex4(s, (v / 65536) as u16);
    push_hex4(s, (v % 65536) as u16);
    assert(final(s)@ =~= old(s)@ + hex8_text(v));
}

/// "index N" label of a column looked up by position.
pub(crate) fn index_label(index: usize) -> (r: String)
    ensures
        r@ == index_text(index as nat),
{
    let mut s = String::new();
    s.append("index ");
    push_decimal(&mut s, index as u64);
    s
}

/// "index N (schema has M columns)" label of a projected column that the
/// schema does not have.
pub(crate) fn projection_label(index: usize, num_columns: usize) -> (r: String)
    ensures
        r@ == projection_text(index as nat, num_columns as nat),
{
    let mut s = String::new();
    s.append("index ");
    push_decimal(&mut s, index as u64);
    s.append(" (schema has ");
    push_decimal(&mut s, num_columns as u64);
    s.append(" columns)");
    s
}

/// Error message of a relation mapper file with the wrong magic number.
pub(crate) fn relmap_magic_message(magic: u32, expected: u32) -> (r: String)
    ensures
        r@ == relmap_magic_text(magic, expected),
{
    let mut s = String::new();
    s.append("pg_filenode.map: bad magic 0x");
    push_hex8(&mut s, magic);
    s.append(", expected 0x");
    push_hex8(&mut s, expected);
    s
}

/// Error message of a relation mapper file with too many mappings.
pub(crate) fn relmap_count_message(num_mappings: u32, max_possible: usize) -> (r: String)
    ensures
        r@ == relmap_count_text(num_mappings as nat, max_possible as nat),
{
    let mut s = String::new();
    s.append("pg_filenode.map: num_mappings ");
    push_decimal(&mut s, num_mappings as u64);
    s.append(" exceeds max ");
    push_decimal(&mut s, max_possible as u64);
    s
}

/// The derived `Debug` text of a datum (floating-point values appear as
/// their bit patterns, as the datum holds them).
pub uninterp spec fn datum_debug(d: PgDatumView) -> Seq<char>;

/// The derived `Debug` text of a type id.
pub uninterp spec fn type_id_debug(t: PgTypeId) -> Seq<char>;

/// Calls `format!` with `{:?}` on a datum: its derived `Debug` text, which
/// depends on the datum alone and is named [`datum_debug`].
#[verifier::external_body]
fn datum_debug_text(d: &PgDatum) -> (r: String)
    ensures
        r@ == datum_debug(d@),
{
    format!("{d:?}")
}

/// Calls `format!` with `{:?}` on a type id: its derived `Debug` text (the
/// variant's name), named [`type_id_debug`].
#[verifier::external_body]
fn type_id_debug_text(t: PgTypeId) -> (r: String)
    ensures
        r@ == type_id_debug(t),
{
    format!("{t:?}")
}

/// The start of the detail of a conversion error: a column holds a datum of
/// another kind than the `expected` one its type takes.
pub open spec fn mismatch_prefix(col_idx: nat, expected: Seq<char>) -> Seq<char> {
    "column "@ + decimal_text(col_idx) + ": expected "@ + expected + ", got "@
}

/// The start of the detail of a conversion error: a column of a type with
/// no Arrow conversion holds a datum other than raw bytes.
pub open spec fn unsupported_prefix(col_idx: nat) -> Seq<char> {
    "column "@ + decimal_text(col_idx) + ": unsupported type "@
}

/// Detail of a conversion error: a column holds a datum of another kind
/// than its type expects; the datum's `Debug` text ends it.
pub(crate) fn mismatch_detail(col_idx: usize, expected: &str, got: &PgDatum) -> (r: String)
    ensures
        r@ == mismatch_prefix(col_idx as nat, expected@) + datum_debug(got@),
{
    let mut s = String::new();
    s.append("column ");
    push_decimal(&mut s, col_idx as u64);
    s.append(": expected ");
    s.append(expected);
    s.append(", got ");
    let ghost prefix = s@;
    let d = datum_debug_text(got);
    s.append(d.as_str());
    assert(s@ =~= prefix + d@);
    assert(prefix =~= mismatch_prefix(col_idx as nat, expected@));
    s
}

/// Detail of a conversion error: a column of a type with no Arrow
/// conversion holds a datum other than raw bytes; the type's and the
/// datum's `Debug` texts end it.
pub(crate) fn unsupported_detail(col_idx: usize, type_id: PgTypeId, got: &PgDatum) -> (r: String)
    ensures
        r@ == unsupported_prefix(col_idx as nat) + type_id_debug(type_id) + " with datum "@ + datum_debug(got@),
{
    let mut s = String::new();
    s.append("column ");
    push_decimal(&mut s, col_idx as u64);
    s.append(": unsupported type ");
    let ghost prefix = s@;
    let tn = type_id_debug_text(type_id);
    s.append(tn.as_str());
    s.append(" with datum ");
    let d = datum_debug_text(got);
    s.append(d.as_str());
    proof {
        reveal_strlit(" with datum ");
    }
    assert(prefix =~= unsupported_prefix(col_idx as nat));
    assert(s@ =~= unsupported_prefix(col_idx as nat) + type_id_debug(type_id) + " with datum "@ + datum_debug(got@));
    s
}

impl DecodeError {
    /// The error's message.
    pub fn message(&self) -> (r: String)
        ensures
            r@ == decode_error_text(self@),
    {
        let mut s = String::new();
        match self {
            DecodeError::BufferTooShort { typname, expected, actual } => {
                s.append("buffer too short for ");
                s.append(typname);
                s.append(": need ");
                push_decimal(&mut s, *expected as u64);
                s.append(" bytes, got ");
                push_decimal(&mut s, *actual as u64);
            },
            DecodeError::InvalidUtf8 { typname, offset } => {
                s.append("invalid UTF-8 in ");
                s.append(typname);
                s.append(" at offset ");
                push_decimal(&mut s, *offset as u64);
            },
            DecodeError::MissingNulTerminator => {
                s.append("missing null terminator in name/cstring column");
            },
            DecodeError::InvalidVarlenaHeader { offset, first_byte } => {
                let b = *first_byte;
                s.append("invalid varlena header at offset ");
                push_decimal(&mut s, *offset as u64);
                s.append(": first byte = 0x");
                s.append(hex_digit_str(b / 16));
                s.append(hex_digit_str(b % 16));
                assert(seq![b].drop_last() =~= Seq::<u8>::empty());
                assert(hex_text(Seq::<u8>::empty()) =~= Seq::<char>::empty());
                assert(hex_text(seq![b]) =~= seq![hex_digit(b as int / 16), hex_digit(b as int % 16)]);
            },
        }
        assert(s@ =~= decode_error_text(self@));
        s
    }
}

} // verus!
