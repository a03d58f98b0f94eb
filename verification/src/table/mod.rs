//! Decoded rows: turning heap tuples into rows of datums, whole or
//! projected.

pub mod arrow_rows;
pub mod reader;

pub use crate::table::arrow_rows::ColumnBuilder;
pub use crate::table::reader::{Oid, PgTableReader};
pub use crate::types::column_builder::{extract_column_bytes, extract_fixed_bytes};

use vstd::prelude::*;

use crate::codec::datum::{
    lemma_skip_agrees_with_decode, decode_datum_ok, spec_decode_datum, spec_skip_datum, DecodeErrorView, PgDatumView,
};
use crate::codec::PgDatum;
use crate::file::error::{PgError, Result};
use crate::heap::tuple::{
    att_align, bitmap_says_null, lemma_columns_ok_within, spec_att_align, spec_columns_ok, spec_decode_columns,
    ColumnSearchArg, HeapTupleData,
};
use crate::messages::{decode_error_text, projection_label, projection_text};
use crate::types::{PgColumn, PgSchema};

verus! {

/// A single decoded row from a PostgreSQL heap table: one datum per schema
/// column, in tuple order, with NULL values as [`PgDatum::Null`].
#[derive(Debug)]
pub struct PgRow {
    columns: Vec<PgDatum>,
}

impl View for PgRow {
    type V = Seq<PgDatumView>;

    /// The values of the row's columns.
    closed spec fn view(&self) -> Seq<PgDatumView> {
        self.columns@.map_values(|d: PgDatum| d@)
    }
}

impl PgRow {
    /// A row holding `columns`.
    pub fn new(columns: Vec<PgDatum>) -> (r: PgRow)
        ensures
            r@ == columns@.map_values(|d: PgDatum| d@),
    {
        PgRow { columns }
    }

    /// The datum at the given column index (0-based).
    pub fn get(&self, index: usize) -> (r: Option<&PgDatum>)
        ensures
            index < self@.len() ==> (r matches Some(d) && d@ == self@[index as int]),
            index >= self@.len() ==> r is None,
    {
        if index < self.columns.len() {
            Some(&self.columns[index])
        } else {
            None
        }
    }

    /// All column datums.
    pub fn columns(&self) -> (r: &[PgDatum])
        ensures
            r@.map_values(|d: PgDatum| d@) == self@,
    {
        self.columns.as_slice()
    }

    /// Number of columns in this row.
    pub fn num_columns(&self) -> (r: usize)
        ensures
            r == self@.len(),
    {
        self.columns.len()
    }

    /// Whether the column at `index` is NULL; an index past the end of the
    /// row counts as NULL.
    pub fn is_null(&self, index: usize) -> (r: bool)
        ensures
            r == (index >= self@.len() || self@[index as int] is Null),
    {
        if index < self.columns.len() {
            match &self.columns[index] {
                PgDatum::Null => true,
                _ => false,
            }
        } else {
            true
        }
    }
}

/// `r` is `prefix` followed by the values of `rest`, or `rest`'s error.
pub open spec fn prepend(prefix: Seq<PgDatumView>, rest: Result<Seq<PgDatumView>, DecodeErrorView>) -> Result<Seq<PgDatumView>, DecodeErrorView> {
    match rest {
        Ok(w) => Ok(prefix + w),
        Err(e) => Err(e),
    }
}

pub proof fn lemma_prepend_push(prefix: Seq<PgDatumView>, d: PgDatumView, rest: Result<Seq<PgDatumView>, DecodeErrorView>)
    ensures
        prepend(prefix, prepend(seq![d], rest)) == prepend(prefix.push(d), rest),
{
    if let Ok(w) = rest {
        assert(prefix + (seq![d] + w) =~= prefix.push(d) + w);
    }
}

/// A decoded column ends within the data.
pub proof fn lemma_decode_within(t: crate::codec::PgTypeId, data: Seq<u8>, offset: int)
    requires
        offset >= 0,
    ensures
        spec_decode_datum(t, data, offset) matches Ok((_, n)) ==> n >= 0 && offset + n <= data.len(),
{
}

/// Decode a heap tuple into a [`PgRow`] using the given schema.
///
/// Walks the columns left to right: NULL columns produce `Null` and take no
/// space; every other column is aligned (`att_align_pointer`) and decoded.
/// The first decoding error is returned.
pub fn decode_row(tuple: &HeapTupleData, schema: &PgSchema) -> (r: Result<PgRow>)
    requires
        tuple.data@.len() <= isize::MAX,
    ensures
        match spec_decode_columns(tuple.null_bitmap@, tuple.data@, schema@, 0, 0) {
            Ok(vals) => r matches Ok(row) && row@ == vals,
            Err(de) => r matches Err(e) && e matches PgError::DecodeError(m) && m@ == decode_error_text(de),
        },
{
    proof {
        lemma_columns_ok_within(tuple.null_bitmap@, tuple.data@, schema@, 0, 0);
    }
    let ghost bitmap = tuple.null_bitmap@;
    let ghost data = tuple.data@;
    let ghost cols = schema@;
    let n = schema.num_columns();
    let mut columns: Vec<PgDatum> = Vec::with_capacity(n);
    let mut offset: usize = 0;
    let mut col_index: usize = 0;
    while col_index < n
        invariant
            n == cols.len(),
            bitmap == tuple.null_bitmap@,
            data == tuple.data@,
            cols == schema@,
            data.len() <= isize::MAX,
            col_index <= n,
            offset <= data.len(),
            columns@.len() == col_index,
            spec_columns_ok(bitmap, data, cols, col_index as int, offset as int),
            spec_decode_columns(bitmap, data, cols, 0, 0) == prepend(
                columns@.map_values(|d: PgDatum| d@),
                spec_decode_columns(bitmap, data, cols, col_index as int, offset as int),
            ),
        decreases n - col_index,
    {
        let ghost before = columns@.map_values(|d: PgDatum| d@);
        // NULL columns take no space: no alignment, no data.
        if tuple.is_null(col_index) {
            proof {
                lemma_prepend_push(before, PgDatumView::Null, spec_decode_columns(bitmap, data, cols, col_index + 1, offset as int));
            }
            columns.push(PgDatum::Null);
            assert(columns@.map_values(|d: PgDatum| d@) =~= before.push(PgDatumView::Null));
            col_index = col_index + 1;
            continue;
        }
        let col = &schema.columns()[col_index];
        let aligned = att_align(col.type_id, tuple.data.as_slice(), offset);
        match tuple.get_column(ColumnSearchArg::ColumnIndex(col_index), schema, aligned) {
            Ok((datum, size)) => {
                proof {
                    lemma_decode_within(col.type_id, data, aligned as int);
                    lemma_prepend_push(before, datum@, spec_decode_columns(bitmap, data, cols, col_index + 1, aligned + size));
                }
                offset = aligned + size;
                columns.push(datum);
                assert(columns@.map_values(|d: PgDatum| d@) =~= before.push(datum@));
            },
            Err(PgError::NullColumnValue { .. }) => {
                assert(false);
                columns.push(PgDatum::Null);
            },
            Err(e) => return Err(e),
        }
        col_index = col_index + 1;
    }
    proof {
        assert(spec_decode_columns(bitmap, data, cols, n as int, offset as int) == Ok::<Seq<PgDatumView>, DecodeErrorView>(Seq::empty()));
        assert(columns@.map_values(|d: PgDatum| d@) + Seq::<PgDatumView>::empty() =~= columns@.map_values(|d: PgDatum| d@));
    }
    Ok(PgRow { columns })
}

/// The largest of the first `k` entries of `s` (0 when `k == 0`).
pub open spec fn seq_max(s: Seq<usize>, k: int) -> int
    decreases k,
{
    if k <= 0 {
        0
    } else {
        let m = seq_max(s, k - 1);
        if s[k - 1] as int > m { s[k - 1] as int } else { m }
    }
}

/// Entry `k` of `proj` is the last entry naming its column.
pub open spec fn last_occurrence(proj: Seq<usize>, k: int) -> bool {
    forall|j: int| k < j < proj.len() ==> proj[j] != proj[k]
}

/// Walk columns `i..=last` of a tuple starting at `offset`, as
/// `decode_row_projected` does: NULL columns take no space; every other
/// column is aligned, then decoded if it is in `projected` or only sized
/// (`skip_datum`) if not, and the next column starts where it ends.
///
/// Gives the decoded values of the projected non-NULL columns, or the first
/// error; `None` where the walk would panic (an offset past `usize::MAX`,
/// or a projected value that `decode_datum` does not accept).
pub open spec fn spec_projected_walk(bitmap: Seq<u8>, data: Seq<u8>, cols: Seq<PgColumn>, projected: Set<int>, i: int, last: int, offset: int) -> Option<Result<Map<int, PgDatumView>, DecodeErrorView>>
    decreases last + 1 - i,
{
    if i > last || i < 0 || i >= cols.len() {
        Some(Ok(Map::empty()))
    } else if bitmap_says_null(bitmap, i) {
        spec_projected_walk(bitmap, data, cols, projected, i + 1, last, offset)
    } else if offset + 8 > usize::MAX {
        None
    } else {
        let t = cols[i].type_id;
        let off = spec_att_align(t, data, offset);
        if projected.contains(i) {
            if !decode_datum_ok(t, data, off) {
                None
            } else {
                match spec_decode_datum(t, data, off) {
                    Err(e) => Some(Err(e)),
                    Ok((d, n)) => match spec_projected_walk(bitmap, data, cols, projected, i + 1, last, off + n) {
                        Some(Ok(m)) => Some(Ok(m.insert(i, d))),
                        other => other,
                    },
                }
            }
        } else {
            match spec_skip_datum(t.spec_type_len(), data, off) {
                Err(e) => Some(Err(e)),
                Ok(n) => if off + n > usize::MAX {
                    None
                } else {
                    spec_projected_walk(bitmap, data, cols, projected, i + 1, last, off + n)
                },
            }
        }
    }
}

/// The set of columns that `proj` names.
pub open spec fn projected_set(proj: Seq<usize>) -> Set<int> {
    Set::new(|c: int| exists|k: int| 0 <= k < proj.len() && proj[k] == c)
}

/// The projected row assembled from the walk's values: entry `k` holds the
/// value of column `proj[k]`, or `Null` where that column is NULL.
pub open spec fn assemble_projected(proj: Seq<usize>, m: Map<int, PgDatumView>) -> Seq<PgDatumView> {
    Seq::new(
        proj.len(),
        |k: int|
            if m.contains_key(proj[k] as int) {
                m[proj[k] as int]
            } else {
                PgDatumView::Null
            },
    )
}

/// `decode_row_projected` does not panic on these inputs.
pub open spec fn projection_ok(bitmap: Seq<u8>, data: Seq<u8>, cols: Seq<PgColumn>, proj: Seq<usize>) -> bool {
    (proj.len() > 0 && forall|k: int| 0 <= k < proj.len() ==> proj[k] < cols.len()) ==> spec_projected_walk(
        bitmap,
        data,
        cols,
        projected_set(proj),
        0,
        seq_max(proj, proj.len() as int),
        0,
    ) is Some
}

/// Whether a projected walk ends in values (`Some(true)`), in an error
/// (`Some(false)`), or would overflow (`None`).
pub open spec fn projected_walk_status(w: Option<Result<Map<int, PgDatumView>, DecodeErrorView>>) -> Option<bool> {
    match w {
        None => None,
        Some(Ok(_)) => Some(true),
        Some(Err(_)) => Some(false),
    }
}

/// Check the projected walk from column `c` (offset `offset`) as
/// [`decode_row_projected`] walks it, one column at a time.
#[verifier::rlimit(50)]
fn projected_walk_status_exec(
    tuple: &HeapTupleData,
    schema: &PgSchema,
    output_pos: &Vec<Option<usize>>,
    Ghost(pset): Ghost<Set<int>>,
    max_col: usize,
) -> (r: Option<bool>)
    requires
        tuple.data@.len() <= isize::MAX,
        max_col < schema@.len(),
        output_pos@.len() == max_col + 1,
        forall|col: int| 0 <= col <= max_col ==> (#[trigger] output_pos@[col] is Some <==> pset.contains(col)),
    ensures
        r == projected_walk_status(
            spec_projected_walk(tuple.null_bitmap@, tuple.data@, schema@, pset, 0, max_col as int, 0),
        ),
{
    let ghost bitmap = tuple.null_bitmap@;
    let ghost data = tuple.data@;
    let ghost cols = schema@;
    let columns = schema.columns();
    let ncols = columns.len();
    let mut offset: usize = 0;
    let mut c: usize = 0;
    while c <= max_col
        invariant
            ncols == cols.len(),
            bitmap == tuple.null_bitmap@,
            data == tuple.data@,
            cols == schema@,
            columns@ == cols,
            data.len() <= isize::MAX,
            max_col < cols.len(),
            c <= max_col + 1,
            output_pos@.len() == max_col + 1,
            forall|col: int| 0 <= col <= max_col ==> (#[trigger] output_pos@[col] is Some <==> pset.contains(col)),
            projected_walk_status(spec_projected_walk(bitmap, data, cols, pset, 0, max_col as int, 0))
                == projected_walk_status(spec_projected_walk(bitmap, data, cols, pset, c as int, max_col as int, offset as int)),
        decreases max_col + 1 - c,
    {
        assert(output_pos@[c as int] is Some <==> pset.contains(c as int));
        if tuple.is_null(c) {
            c = c + 1;
            continue;
        }
        if offset > usize::MAX - 8 {
            return None;
        }
        let t = columns[c].type_id;
        let off = att_align(t, tuple.data.as_slice(), offset);
        if output_pos[c].is_some() {
            match t.type_len() {
                crate::codec::PgTypeLen::Fixed(n) => {
                    if n as usize > usize::MAX - off {
                        return None;
                    }
                },
                _ => {},
            }
            match crate::codec::decode_datum(t, tuple.data.as_slice(), off) {
                Ok((_, n)) => {
                    offset = off + n;
                },
                Err(_) => return Some(false),
            }
        } else {
            match crate::codec::skip_datum(t.type_len(), tuple.data.as_slice(), off) {
                Ok(n) => {
                    if n > usize::MAX - off {
                        return None;
                    }
                    offset = off + n;
                },
                Err(_) => return Some(false),
            }
        }
        c = c + 1;
    }
    Some(true)
}

/// Whether [`decode_row_projected`] is defined on these inputs (what it
/// requires beyond the data length): exactly [`projection_ok`], so that a
/// caller can test it first.
pub fn projection_decodable(tuple: &HeapTupleData, schema: &PgSchema, projection: &[usize]) -> (r: bool)
    requires
        tuple.data@.len() <= isize::MAX,
    ensures
        r == projection_ok(tuple.null_bitmap@, tuple.data@, schema@, projection@),
{
    let ghost proj = projection@;
    if projection.len() == 0 {
        return true;
    }
    let num_schema_cols = schema.num_columns();
    let mut k: usize = 0;
    while k < projection.len()
        invariant
            k <= proj.len(),
            proj == projection@,
            num_schema_cols == schema@.len(),
            forall|j: int| 0 <= j < k ==> proj[j] < schema@.len(),
        decreases proj.len() - k,
    {
        if projection[k] >= num_schema_cols {
            assert(proj[k as int] >= schema@.len());
            return true;
        }
        k = k + 1;
    }
    let max_col = max_index(projection);
    proof {
        lemma_seq_max_bounds(proj, proj.len() as int);
    }
    let output_pos = last_positions(projection, max_col);
    let ghost pset = projected_set(proj);
    proof {
        assert forall|col: int| 0 <= col <= max_col implies (#[trigger] output_pos@[col] is Some <==> pset.contains(col)) by {
            match output_pos@[col] {
                Some(o) => {
                    assert(proj[o as int] == col);
                },
                None => {
                    if pset.contains(col) {
                        let k = choose|k: int| 0 <= k < proj.len() && proj[k] == col;
                        assert(proj[k] != col);
                    }
                },
            }
        }
    }
    projected_walk_status_exec(tuple, schema, &output_pos, Ghost(pset), max_col).is_some()
}

/// Decode a heap tuple into a [`PgRow`] holding only the projected columns,
/// in projection order.
///
/// All schema columns up to the highest projected index are walked to track
/// offsets; only projected columns are decoded, the others are sized with
/// [`HeapTupleData::skip_column`]. An index that occurs more than once
/// in `projection` gives its column's value at every one of its entries.
/// An index past the schema gives `ColumnNotFound`.
#[verifier::rlimit(50)]
pub fn decode_row_projected(tuple: &HeapTupleData, schema: &PgSchema, projection: &[usize]) -> (r: Result<PgRow>)
    requires
        tuple.data@.len() <= isize::MAX,
        projection_ok(tuple.null_bitmap@, tuple.data@, schema@, projection@),
    ensures
        projection@.len() == 0 ==> (r matches Ok(row) && row@.len() == 0),
        projection@.len() > 0 ==> if exists|k: int| 0 <= k < projection@.len() && projection@[k] >= schema@.len() {
            exists|k: int|
                0 <= k < projection@.len() && projection@[k] >= schema@.len() && (forall|j: int|
                    0 <= j < k ==> projection@[j] < schema@.len()) && (r matches Err(e)
                    && e matches PgError::ColumnNotFound { column } && column@ == projection_text(
                    projection@[k] as nat,
                    schema@.len(),
                ))
        } else {
            match spec_projected_walk(
                tuple.null_bitmap@,
                tuple.data@,
                schema@,
                projected_set(projection@),
                0,
                seq_max(projection@, projection@.len() as int),
                0,
            ) {
                Some(Ok(m)) => r matches Ok(row) && row@ == assemble_projected(projection@, m),
                Some(Err(de)) => r matches Err(e) && e matches PgError::DecodeError(msg) && msg@
                    == decode_error_text(de),
                None => false,
            }
        },
{
    let ghost bitmap = tuple.null_bitmap@;
    let ghost data = tuple.data@;
    let ghost cols = schema@;
    let ghost proj = projection@;
    if projection.len() == 0 {
        let r = PgRow { columns: Vec::new() };
        assert(r@ =~= Seq::<PgDatumView>::empty());
        return Ok(r);
    }
    let num_schema_cols = schema.num_columns();
    let mut k: usize = 0;
    while k < projection.len()
        invariant
            k <= proj.len(),
            proj == projection@,
            cols == schema@,
            num_schema_cols == cols.len(),
            forall|j: int| 0 <= j < k ==> proj[j] < cols.len(),
        decreases proj.len() - k,
    {
        let idx = projection[k];
        if idx >= num_schema_cols {
            assert(projection@[k as int] >= schema@.len());
            return Err(PgError::ColumnNotFound { column: projection_label(idx, num_schema_cols) });
        }
        k = k + 1;
    }

    // The highest projected column.
    let max_col = max_index(projection);
    proof {
        lemma_seq_max_bounds(proj, proj.len() as int);
    }
    // For each column up to max_col: the output position it fills, if any.
    let output_pos = last_positions(projection, max_col);
    let mut columns = null_row(projection.len());

    let ghost pset = projected_set(proj);
    let ghost total = spec_projected_walk(bitmap, data, cols, pset, 0, max_col as int, 0);
    let ghost mut acc: Map<int, PgDatumView> = Map::empty();
    proof {
        assert forall|col: int| 0 <= col <= max_col implies match #[trigger] output_pos@[col] {
            Some(o) => 0 <= o < proj.len() && proj[o as int] == col && last_occurrence(proj, o as int) && pset.contains(col),
            None => !pset.contains(col),
        } by {
            match output_pos@[col] {
                Some(o) => {
                    assert(proj[o as int] == col);
                },
                None => {
                    if pset.contains(col) {
                        let k = choose|k: int| 0 <= k < proj.len() && proj[k] == col;
                        assert(proj[k] != col);
                    }
                },
            }
        }
        if let Some(Ok(m)) = total {
            assert(acc.union_prefer_right(m) =~= m);
        }
        assert forall|k: int| 0 <= k < proj.len() implies columns@[k]@ == (if last_occurrence(proj, k) && acc.contains_key(proj[k] as int) {
            acc[proj[k] as int]
        } else {
            PgDatumView::Null
        }) by {}
    }
    let mut offset: usize = 0;
    let mut col_index: usize = 0;
    // Walk columns 0..=max_col to track offsets.
    while col_index <= max_col
        invariant
            bitmap == tuple.null_bitmap@,
            data == tuple.data@,
            cols == schema@,
            proj == projection@,
            pset == projected_set(proj),
            proj.len() > 0,
            forall|j: int| 0 <= j < proj.len() ==> proj[j] < cols.len(),
            max_col == seq_max(proj, proj.len() as int),
            data.len() <= isize::MAX,
            num_schema_cols == cols.len(),
            max_col < cols.len(),
            col_index <= max_col + 1,
            columns@.len() == proj.len(),
            output_pos@.len() == max_col + 1,
            forall|col: int| 0 <= col <= max_col ==> match #[trigger] output_pos@[col] {
                Some(o) => 0 <= o < proj.len() && proj[o as int] == col && last_occurrence(proj, o as int) && pset.contains(col),
                None => !pset.contains(col),
            },
            forall|c: int| #[trigger] acc.contains_key(c) ==> 0 <= c < col_index,
            total is Some,
            total == spec_projected_walk(bitmap, data, cols, pset, 0, max_col as int, 0),
            total == match spec_projected_walk(bitmap, data, cols, pset, col_index as int, max_col as int, offset as int) {
                Some(Ok(m)) => Some(Ok(acc.union_prefer_right(m))),
                other => other,
            },
            forall|k: int| 0 <= k < proj.len() ==> #[trigger] columns@[k]@ == (if last_occurrence(proj, k) && acc.contains_key(proj[k] as int) {
                acc[proj[k] as int]
            } else {
                PgDatumView::Null
            }),
        decreases max_col + 1 - col_index,
    {
        let ghost rest = spec_projected_walk(bitmap, data, cols, pset, col_index + 1, max_col as int, offset as int);
        // NULL columns take no space.
        if tuple.is_null(col_index) {
            col_index = col_index + 1;
            continue;
        }
        let col = &schema.columns()[col_index];
        let aligned = att_align(col.type_id, tuple.data.as_slice(), offset);
        match output_pos[col_index] {
            Some(pos) => {
                match tuple.get_column(ColumnSearchArg::ColumnIndex(col_index), schema, aligned) {
                    Ok((datum, size)) => {
                        let ghost tail = spec_projected_walk(bitmap, data, cols, pset, col_index + 1, max_col as int, aligned + size);
                        proof {
                            if let Some(Ok(m)) = tail {
                                assert(forall|c: int| #[trigger] m.contains_key(c) ==> c > col_index) by {
                                    lemma_walk_keys(bitmap, data, cols, pset, col_index + 1, max_col as int, aligned + size);
                                }
                                assert(acc.union_prefer_right(m.insert(col_index as int, datum@)) =~= acc.insert(col_index as int, datum@).union_prefer_right(m));
                            }
                            acc = acc.insert(col_index as int, datum@);
                        }
                        offset = aligned + size;
                        columns[pos] = datum;
                        proof {
                            assert forall|k: int| 0 <= k < proj.len() implies #[trigger] columns@[k]@ == (if last_occurrence(proj, k) && acc.contains_key(proj[k] as int) {
                                acc[proj[k] as int]
                            } else {
                                PgDatumView::Null
                            }) by {
                                if k != pos && last_occurrence(proj, k) && proj[k] == col_index {
                                    if k < pos {
                                        assert(proj[pos as int] == proj[k]);
                                    } else {
                                        assert(proj[k] == proj[pos as int]);
                                    }
                                }
                            }
                        }
                    },
                    Err(PgError::NullColumnValue { .. }) => {},
                    Err(e) => {
                        assert(spec_projected_walk(bitmap, data, cols, pset, col_index as int, max_col as int, offset as int) matches Some(Err(_)));
                        return Err(e);
                    },
                }
            },
            None => {
                // Not projected: advance the offset without decoding.
                match tuple.skip_column(col_index, schema, aligned) {
                    Ok(size) => {
                        offset = aligned + size;
                    },
                    Err(PgError::NullColumnValue { .. }) => {},
                    Err(e) => {
                        assert(spec_projected_walk(bitmap, data, cols, pset, col_index as int, max_col as int, offset as int) matches Some(Err(_)));
                        return Err(e);
                    },
                }
            },
        }
        col_index = col_index + 1;
    }
    proof {
        assert(acc.union_prefer_right(Map::<int, PgDatumView>::empty()) =~= acc);
    }
    // Every entry takes the value that the last entry naming its column holds.
    let mut out: Vec<PgDatum> = Vec::with_capacity(projection.len());
    let mut k: usize = 0;
    while k < projection.len()
        invariant
            proj == projection@,
            pset == projected_set(proj),
            max_col == seq_max(proj, proj.len() as int),
            forall|j: int| 0 <= j < proj.len() ==> proj[j] <= max_col,
            k <= proj.len(),
            out@.len() == k,
            columns@.len() == proj.len(),
            output_pos@.len() == max_col + 1,
            forall|col: int| 0 <= col <= max_col ==> match #[trigger] output_pos@[col] {
                Some(o) => 0 <= o < proj.len() && proj[o as int] == col && last_occurrence(proj, o as int) && pset.contains(col),
                None => !pset.contains(col),
            },
            forall|j: int| 0 <= j < proj.len() ==> #[trigger] columns@[j]@ == (if last_occurrence(proj, j) && acc.contains_key(proj[j] as int) {
                acc[proj[j] as int]
            } else {
                PgDatumView::Null
            }),
            forall|j: int| 0 <= j < k ==> #[trigger] out@[j]@ == assemble_projected(proj, acc)[j],
        decreases proj.len() - k,
    {
        let c = projection[k];
        proof {
            assert(pset.contains(c as int));
        }
        let o = match output_pos[c] {
            Some(o) => o,
            None => {
                assert(false);
                0
            },
        };
        let d = columns[o].clone();
        out.push(d);
        k = k + 1;
    }
    let r = PgRow { columns: out };
    assert(r@ =~= assemble_projected(proj, acc));
    Ok(r)
}

/// The columns the projected walk decodes lie in the walked range.
proof fn lemma_walk_keys(bitmap: Seq<u8>, data: Seq<u8>, cols: Seq<PgColumn>, projected: Set<int>, i: int, last: int, offset: int)
    ensures
        spec_projected_walk(bitmap, data, cols, projected, i, last, offset) matches Some(Ok(m)) ==> forall|c: int| #[trigger] m.contains_key(c) ==> i <= c <= last,
    decreases last + 1 - i,
{
    if i > last || i < 0 || i >= cols.len() {
    } else if bitmap_says_null(bitmap, i) {
        lemma_walk_keys(bitmap, data, cols, projected, i + 1, last, offset);
    } else if offset + 8 > usize::MAX {
    } else {
        let t = cols[i].type_id;
        let off = spec_att_align(t, data, offset);
        if projected.contains(i) {
            if let Ok((d, n)) = spec_decode_datum(t, data, off) {
                lemma_walk_keys(bitmap, data, cols, projected, i + 1, last, off + n);
            }
        } else {
            if let Ok(n) = spec_skip_datum(t.spec_type_len(), data, off) {
                lemma_walk_keys(bitmap, data, cols, projected, i + 1, last, off + n);
            }
        }
    }
}

/// The largest index in `projection`.
pub(crate) fn max_index(projection: &[usize]) -> (r: usize)
    ensures
        r == seq_max(projection@, projection@.len() as int),
{
    let mut max_col: usize = 0;
    let mut k: usize = 0;
    while k < projection.len()
        invariant
            k <= projection@.len(),
            max_col == seq_max(projection@, k as int),
        decreases projection@.len() - k,
    {
        if projection[k] > max_col {
            max_col = projection[k];
        }
        k = k + 1;
    }
    max_col
}

/// For each column `0..=max_col`: the last position in `projection` that
/// names it, if any.
pub(crate) fn last_positions(projection: &[usize], max_col: usize) -> (r: Vec<Option<usize>>)
    requires
        max_col < usize::MAX,
        forall|j: int| 0 <= j < projection@.len() ==> projection@[j] <= max_col,
    ensures
        r@.len() == max_col + 1,
        forall|col: int| 0 <= col <= max_col ==> match #[trigger] r@[col] {
            Some(o) => 0 <= o < projection@.len() && projection@[o as int] == col && last_occurrence(projection@, o as int),
            None => forall|j: int| 0 <= j < projection@.len() ==> projection@[j] != col,
        },
{
    let ghost proj = projection@;
    let mut output_pos: Vec<Option<usize>> = Vec::with_capacity(max_col + 1);
    let mut c: usize = 0;
    while c <= max_col
        invariant
            c <= max_col + 1,
            max_col < usize::MAX,
            output_pos@.len() == c,
            forall|j: int| 0 <= j < c ==> output_pos@[j] is None,
        decreases max_col + 1 - c,
    {
        output_pos.push(None);
        c = c + 1;
    }
    let mut k: usize = 0;
    while k < projection.len()
        invariant
            k <= proj.len(),
            proj == projection@,
            forall|j: int| 0 <= j < proj.len() ==> proj[j] <= max_col,
            output_pos@.len() == max_col + 1,
            forall|col: int| 0 <= col <= max_col ==> match #[trigger] output_pos@[col] {
                Some(o) => 0 <= o < k && proj[o as int] == col && forall|j: int| o < j < k ==> proj[j] != col,
                None => forall|j: int| 0 <= j < k ==> proj[j] != col,
            },
        decreases proj.len() - k,
    {
        let c = projection[k];
        output_pos.set(c, Some(k));
        k = k + 1;
    }
    output_pos
}

/// A row of `n` NULLs.
fn null_row(n: usize) -> (r: Vec<PgDatum>)
    ensures
        r@.len() == n,
        forall|j: int| 0 <= j < n ==> r@[j] is Null,
{
    let mut columns: Vec<PgDatum> = Vec::with_capacity(n);
    let mut k: usize = 0;
    while k < n
        invariant
            k <= n,
            columns@.len() == k,
            forall|j: int| 0 <= j < k ==> columns@[j] is Null,
        decreases n - k,
    {
        columns.push(PgDatum::Null);
        k = k + 1;
    }
    columns
}

pub(crate) proof fn lemma_seq_max_bounds(s: Seq<usize>, k: int)
    requires
        0 <= k <= s.len(),
    ensures
        forall|j: int| 0 <= j < k ==> s[j] <= seq_max(s, k),
        k > 0 ==> exists|j: int| 0 <= j < k && s[j] == seq_max(s, k),
        seq_max(s, k) >= 0,
    decreases k,
{
    if k > 0 {
        lemma_seq_max_bounds(s, k - 1);
    }
}

/// Where columns `i..` decode, the projected walk over `i..=last` decodes
/// too, holding the same values for the projected non-NULL columns.
proof fn lemma_walk_matches_decode(bitmap: Seq<u8>, data: Seq<u8>, cols: Seq<PgColumn>, pset: Set<int>, i: int, last: int, offset: int)
    requires
        0 <= i,
        last < cols.len(),
        0 <= offset <= data.len(),
        data.len() <= isize::MAX,
        spec_columns_ok(bitmap, data, cols, i, offset),
        spec_decode_columns(bitmap, data, cols, i, offset) is Ok,
    ensures
        spec_projected_walk(bitmap, data, cols, pset, i, last, offset) matches Some(Ok(m)) && {
            &&& forall|c: int| #[trigger] m.contains_key(c) <==> (i <= c <= last && pset.contains(c) && !bitmap_says_null(bitmap, c))
            &&& forall|c: int| #[trigger] m.contains_key(c) ==> m[c] == spec_decode_columns(bitmap, data, cols, i, offset)->Ok_0[c - i]
        },
    decreases last + 1 - i,
{
    if i > last {
        assert(spec_projected_walk(bitmap, data, cols, pset, i, last, offset) == Some(Ok::<Map<int, PgDatumView>, DecodeErrorView>(Map::empty())));
    } else if bitmap_says_null(bitmap, i) {
        lemma_walk_matches_decode(bitmap, data, cols, pset, i + 1, last, offset);
        lemma_decode_columns_nulls(bitmap, data, cols, i + 1, offset);
        let vals = spec_decode_columns(bitmap, data, cols, i, offset)->Ok_0;
        let rest = spec_decode_columns(bitmap, data, cols, i + 1, offset)->Ok_0;
        assert(vals == seq![PgDatumView::Null] + rest);
        assert forall|c: int| i + 1 <= c < cols.len() implies #[trigger] vals[c - i] == rest[c - (i + 1)] by {}
    } else {
        let t = cols[i].type_id;
        let off = spec_att_align(t, data, offset);
        lemma_decode_within(t, data, off);
        lemma_skip_agrees_with_decode(t, data, off);
        if let Ok((d, n)) = spec_decode_datum(t, data, off) {
            lemma_walk_matches_decode(bitmap, data, cols, pset, i + 1, last, off + n);
            lemma_decode_columns_nulls(bitmap, data, cols, i + 1, off + n);
            let vals = spec_decode_columns(bitmap, data, cols, i, offset)->Ok_0;
            let rest = spec_decode_columns(bitmap, data, cols, i + 1, off + n)->Ok_0;
            assert(vals == seq![d] + rest);
            assert forall|c: int| i + 1 <= c < cols.len() implies #[trigger] vals[c - i] == rest[c - (i + 1)] by {}
            let m1 = spec_projected_walk(bitmap, data, cols, pset, i + 1, last, off + n)->Some_0->Ok_0;
            if pset.contains(i) {
                let m = m1.insert(i, d);
                assert(spec_projected_walk(bitmap, data, cols, pset, i, last, offset) == Some(Ok::<Map<int, PgDatumView>, DecodeErrorView>(m)));
                assert(m[i] == vals[0]);
            } else {
                assert(spec_projected_walk(bitmap, data, cols, pset, i, last, offset) == Some(Ok::<Map<int, PgDatumView>, DecodeErrorView>(m1)));
            }
        }
    }
}

/// Decoding a projection agrees with decoding the whole row: where the
/// whole row decodes, the projected walk decodes too, and each projection
/// entry holds the whole row's value of its column.
pub proof fn lemma_projection_agrees_with_full_row(bitmap: Seq<u8>, data: Seq<u8>, cols: Seq<PgColumn>, proj: Seq<usize>)
    requires
        data.len() <= isize::MAX,
        spec_decode_columns(bitmap, data, cols, 0, 0) is Ok,
        proj.len() > 0,
        forall|k: int| 0 <= k < proj.len() ==> proj[k] < cols.len(),
    ensures
        spec_projected_walk(bitmap, data, cols, projected_set(proj), 0, seq_max(proj, proj.len() as int), 0) matches Some(Ok(m))
            && assemble_projected(proj, m) == Seq::new(
            proj.len(),
            |k: int| spec_decode_columns(bitmap, data, cols, 0, 0)->Ok_0[proj[k] as int],
        ),
{
    lemma_columns_ok_within(bitmap, data, cols, 0, 0);
    lemma_seq_max_bounds(proj, proj.len() as int);
    let last = seq_max(proj, proj.len() as int);
    let pset = projected_set(proj);
    lemma_walk_matches_decode(bitmap, data, cols, pset, 0, last, 0);
    lemma_decode_columns_nulls(bitmap, data, cols, 0, 0);
    let m = spec_projected_walk(bitmap, data, cols, pset, 0, last, 0)->Some_0->Ok_0;
    let vals = spec_decode_columns(bitmap, data, cols, 0, 0)->Ok_0;
    assert forall|k: int| 0 <= k < proj.len() implies #[trigger] assemble_projected(proj, m)[k] == vals[proj[k] as int] by {
        assert(pset.contains(proj[k] as int));
    }
    assert(assemble_projected(proj, m) =~= Seq::new(proj.len(), |k: int| vals[proj[k] as int]));
}

/// The decoded row has one value per column from `i` on, and NULL columns
/// decode to `Null`.
pub proof fn lemma_decode_columns_nulls(bitmap: Seq<u8>, data: Seq<u8>, cols: Seq<PgColumn>, i: int, offset: int)
    requires
        0 <= i <= cols.len(),
    ensures
        spec_decode_columns(bitmap, data, cols, i, offset) matches Ok(vals) ==> {
            &&& vals.len() == cols.len() - i
            &&& forall|c: int| i <= c < cols.len() && bitmap_says_null(bitmap, c) ==> vals[c - i] is Null
        },
    decreases cols.len() - i,
{
    if i < cols.len() {
        if bitmap_says_null(bitmap, i) {
            lemma_decode_columns_nulls(bitmap, data, cols, i + 1, offset);
        } else {
            let t = cols[i].type_id;
            let off = spec_att_align(t, data, offset);
            if let Ok((d, n)) = spec_decode_datum(t, data, off) {
                lemma_decode_columns_nulls(bitmap, data, cols, i + 1, off + n);
            }
        }
    }
}

} // verus!
