//! Conversion of a heap page straight into Arrow column data: raw tuple
//! bytes are appended into column builders without intermediate datums.

use vstd::prelude::*;
use vstd::slice::slice_subrange;

use crate::codec::datum::{skip_datum, spec_skip_datum, DecodeErrorView};
use crate::codec::type_id::PgTypeLen;
use crate::file::error::{PgError, Result};
use crate::heap::page::{bytes_as_slice, bytes_contents, spec_tuple_bytes, tuple_readable, HeapPageData, ItemIdData, LP_NORMAL};
use crate::heap::tuple::{att_align, bitmap_says_null, spec_att_align, spec_parse_tuple, HeapTupleData};
use crate::messages::decode_error_text;
use crate::table::{last_occurrence, last_positions, max_index, seq_max, lemma_seq_max_bounds};
use crate::types::arrow::{ArrowSchema, ArrowType};
use crate::types::column_builder::{
    append_bytes_defined, append_bytes_fails, append_bytes_is_defined, extract_column_bytes, extract_fixed_bytes, spec_append_bytes, spec_column_kind,
    spec_extract_column_bytes, spec_kind_arrow_type, values_view, ArrowArray, ArrowRecordBatch, ArrowValueView,
    ColumnBuilder, ColumnBuilderView,
};
use crate::types::batch::{array_types, array_values, batch_problem, check_batch, is_ragged};
use crate::types::{spec_column_arrow_type, PgColumn, PgSchema};

verus! {

/// How converting a page can fail: a column's bytes cannot be read
/// (`PgError::DecodeError`), or a value does not fit its Arrow column
/// (`PgError::ArrowConversionFailed`).
pub ghost enum BatchError {
    /// The column's bytes cannot be read; the error's message.
    Decode(Seq<char>),
    /// A value does not fit its Arrow column; the error's detail.
    Conversion(Seq<char>),
}

/// The error value `e` reports the failure `k`.
pub open spec fn batch_error_matches(e: PgError, k: BatchError) -> bool {
    match k {
        BatchError::Decode(m) => e matches PgError::DecodeError(msg) && msg@ == m,
        BatchError::Conversion(m) => e matches PgError::ArrowConversionFailed { detail } && detail@ == m,
    }
}

/// Number of output columns: the projection's length, or every column.
pub open spec fn batch_width(proj: Option<Seq<usize>>, ncols: int) -> int {
    match proj {
        Some(p) => p.len() as int,
        None => ncols,
    }
}

/// The schema column that output column `o` reads.
pub open spec fn batch_source(proj: Option<Seq<usize>>, o: int) -> int {
    match proj {
        Some(p) => p[o] as int,
        None => o,
    }
}

/// How many leading columns of each tuple are walked: up to the highest
/// projected column, or all of them.
pub open spec fn batch_walk_len(proj: Option<Seq<usize>>, ncols: int) -> int {
    match proj {
        Some(p) => seq_max(p, p.len() as int) + 1,
        None => ncols,
    }
}

/// Some entry of `p` is the last one naming column `c`.
pub open spec fn has_last_entry(p: Seq<usize>, c: int) -> bool {
    exists|k: int| 0 <= k < p.len() && p[k] == c && last_occurrence(p, k)
}

/// The last entry of `p` naming column `c` (meaningful when
/// `has_last_entry(p, c)`).
pub open spec fn last_entry(p: Seq<usize>, c: int) -> int {
    choose|k: int| 0 <= k < p.len() && p[k] == c && last_occurrence(p, k)
}

/// The output column that column `c` feeds, if any: for a projection, the
/// last entry naming `c` (an earlier entry naming the same column receives
/// no values).
#[verifier::opaque]
pub open spec fn batch_output_of(proj: Option<Seq<usize>>, c: int) -> Option<int> {
    match proj {
        Some(p) => if has_last_entry(p, c) {
            Some(last_entry(p, c))
        } else {
            None
        },
        None => Some(c),
    }
}

/// Walk columns `c..` of one tuple (null bitmap `bitmap`, attribute data
/// `data`), the first starting at `offset`, as the page conversion does.
///
/// A NULL column takes no space and appends a null. Every other column is
/// aligned (see `spec_att_align`); a column that feeds an output has its
/// bytes extracted (`spec_extract_column_bytes`) and appended with its
/// column's builder kind, and the next column starts where it ends; any
/// other column is only sized (`spec_skip_datum`). Gives, for each column
/// that feeds an output, what it appends, or the first failure; `None`
/// where the conversion would panic (a fixed-width value running past the
/// data, a value its builder cannot take, or an offset near `usize::MAX`).
#[verifier::opaque]
pub open spec fn spec_batch_walk(cols: Seq<PgColumn>, proj: Option<Seq<usize>>, bitmap: Seq<u8>, data: Seq<u8>, c: int, offset: int) -> Option<Result<Map<int, Option<ArrowValueView>>, BatchError>>
    decreases batch_walk_len(proj, cols.len() as int) - c,
{
    if c < 0 || c >= batch_walk_len(proj, cols.len() as int) || c >= cols.len() {
        Some(Ok(Map::empty()))
    } else if bitmap_says_null(bitmap, c) {
        match spec_batch_walk(cols, proj, bitmap, data, c + 1, offset) {
            Some(Ok(m)) => Some(Ok(if batch_output_of(proj, c) is Some { m.insert(c, None) } else { m })),
            other => other,
        }
    } else if offset + 128 > isize::MAX {
        None
    } else {
        let t = cols[c].type_id;
        let off = spec_att_align(t, data, offset);
        if batch_output_of(proj, c) is Some {
            let kind = spec_column_kind(t, cols[c].typmod);
            match t.spec_type_len() {
                PgTypeLen::Fixed(n) => if off + n > data.len() {
                    None
                } else {
                    let b = data.subrange(off, off + n);
                    if !append_bytes_defined(kind, b) {
                        None
                    } else {
                        match spec_append_bytes(kind, b) {
                            Err(m) => Some(Err(BatchError::Conversion(m))),
                            Ok(v) => match spec_batch_walk(cols, proj, bitmap, data, c + 1, off + n) {
                                Some(Ok(m)) => Some(Ok(m.insert(c, v))),
                                other => other,
                            },
                        }
                    }
                },
                len => match spec_extract_column_bytes(len, data, off) {
                    Err(m) => Some(Err(BatchError::Decode(m))),
                    Ok((s, e, consumed)) => {
                        let b = data.subrange(s, e);
                        if !append_bytes_defined(kind, b) {
                            None
                        } else {
                            match spec_append_bytes(kind, b) {
                                Err(m) => Some(Err(BatchError::Conversion(m))),
                                Ok(v) => match spec_batch_walk(cols, proj, bitmap, data, c + 1, off + consumed) {
                                    Some(Ok(m)) => Some(Ok(m.insert(c, v))),
                                    other => other,
                                },
                            }
                        }
                    },
                },
            }
        } else {
            match t.spec_type_len() {
                PgTypeLen::Fixed(n) => spec_batch_walk(cols, proj, bitmap, data, c + 1, off + n),
                len => match spec_skip_datum(len, data, off) {
                    Err(e) => Some(Err(BatchError::Decode(decode_error_text(e)))),
                    Ok(n) => if off + n > usize::MAX {
                        None
                    } else {
                        spec_batch_walk(cols, proj, bitmap, data, c + 1, off + n)
                    },
                },
            }
        }
    }
}

/// The tuples of line pointers `i..` of a page, converted: a line pointer
/// that is not normal, points outside the page, or points at bytes that do
/// not parse as a tuple (`spec_parse_tuple`) is skipped; every other tuple
/// is walked (`spec_batch_walk`) and gives one row. The first failure ends
/// the conversion; `None` where it would panic.
pub open spec fn spec_batch_rows(page: Seq<u8>, lps: Seq<ItemIdData>, cols: Seq<PgColumn>, proj: Option<Seq<usize>>, i: int) -> Option<Result<Seq<Map<int, Option<ArrowValueView>>>, BatchError>>
    decreases lps.len() - i,
{
    if i < 0 || i >= lps.len() {
        Some(Ok(Seq::empty()))
    } else {
        let rest = spec_batch_rows(page, lps, cols, proj, i + 1);
        let lp = lps[i];
        if lp.spec_lp_flags() != LP_NORMAL {
            rest
        } else {
            match spec_tuple_bytes(page, lp) {
                None => rest,
                Some(raw) => match spec_parse_tuple(raw) {
                    Err(_) => rest,
                    Ok((_, bitmap, data)) => match spec_batch_walk(cols, proj, bitmap, data, 0, 0) {
                        None => None,
                        Some(Err(e)) => Some(Err(e)),
                        Some(Ok(m)) => match rest {
                            Some(Ok(rows)) => Some(Ok(seq![m] + rows)),
                            other => other,
                        },
                    },
                },
            }
        }
    }
}

/// The values of output column `o`: the value each row's walk appended for
/// its source column, or no values at all for an output whose column is
/// named again later in the projection.
pub open spec fn batch_column_values(rows: Seq<Map<int, Option<ArrowValueView>>>, proj: Option<Seq<usize>>, o: int) -> Seq<Option<ArrowValueView>> {
    let c = batch_source(proj, o);
    if batch_output_of(proj, c) == Some(o) {
        rows.map_values(|m: Map<int, Option<ArrowValueView>>| m[c])
    } else {
        Seq::empty()
    }
}

/// A projection that names only columns of the schema.
pub open spec fn projection_in_range(proj: Option<Seq<usize>>, ncols: int) -> bool {
    match proj {
        Some(p) => forall|k: int| 0 <= k < p.len() ==> p[k] < ncols,
        None => true,
    }
}

/// A projection with an entry past the schema is not in range.
proof fn lemma_entry_out_of_range(p: Seq<usize>, k: int, ncols: int)
    requires
        0 <= k < p.len(),
        p[k] >= ncols,
    ensures
        !projection_in_range(Some(p), ncols),
{
    reveal(projection_in_range);
    if projection_in_range(Some(p), ncols) {
        let o: Option<Seq<usize>> = Some(p);
        assert(o->Some_0[k] < ncols);
    }
}

/// Field `f` is the Arrow field of column `col`.
pub open spec fn is_arrow_field_of(f: crate::types::arrow::ArrowField, col: PgColumn) -> bool {
    &&& f.name@ == col.name@
    &&& f.data_type == spec_column_arrow_type(col.type_id, col.typmod)
    &&& f.nullable == col.nullable
}


/// The keys of a successful walk from column `c`: exactly the columns from
/// `c` on, within the walked range, that feed an output.
proof fn lemma_batch_walk_keys(cols: Seq<PgColumn>, proj: Option<Seq<usize>>, bitmap: Seq<u8>, data: Seq<u8>, c: int, offset: int)
    requires
        0 <= c,
    ensures
        spec_batch_walk(cols, proj, bitmap, data, c, offset) matches Some(Ok(m)) ==> forall|j: int| #[trigger] m.contains_key(j) <==> (c <= j < batch_walk_len(proj, cols.len() as int) && j < cols.len() && batch_output_of(proj, j) is Some),
    decreases batch_walk_len(proj, cols.len() as int) - c,
{
    reveal_with_fuel(spec_batch_walk, 1);
    if c >= batch_walk_len(proj, cols.len() as int) || c >= cols.len() {
    } else if bitmap_says_null(bitmap, c) {
        lemma_batch_walk_keys(cols, proj, bitmap, data, c + 1, offset);
    } else if offset + 128 > isize::MAX {
    } else {
        let t = cols[c].type_id;
        let off = spec_att_align(t, data, offset);
        if batch_output_of(proj, c) is Some {
            match t.spec_type_len() {
                PgTypeLen::Fixed(n) => lemma_batch_walk_keys(cols, proj, bitmap, data, c + 1, off + n),
                len => if let Ok((s, e, consumed)) = spec_extract_column_bytes(len, data, off) {
                    lemma_batch_walk_keys(cols, proj, bitmap, data, c + 1, off + consumed);
                },
            }
        } else {
            match t.spec_type_len() {
                PgTypeLen::Fixed(n) => lemma_batch_walk_keys(cols, proj, bitmap, data, c + 1, off + n),
                len => if let Ok(n) = spec_skip_datum(len, data, off) {
                    lemma_batch_walk_keys(cols, proj, bitmap, data, c + 1, off + n);
                },
            }
        }
    }
}

/// An entry that is the last one naming its column is the output that
/// column feeds.
proof fn lemma_output_of_last(p: Seq<usize>, o: int)
    requires
        0 <= o < p.len(),
        last_occurrence(p, o),
    ensures
        batch_output_of(Some(p), p[o] as int) == Some(o),
{
    reveal(batch_output_of);
    let col = p[o] as int;
    assert(0 <= o < p.len() && p[o] == col && last_occurrence(p, o));
    assert(has_last_entry(p, col));
    let k = last_entry(p, col);
    if k < o {
        assert(p[o] != p[k]);
    } else if o < k {
        assert(p[k] != p[o]);
    }
}

/// The positions `last_positions` computes are the outputs each column
/// feeds.
proof fn lemma_output_positions(p: Seq<usize>, outpos: Seq<Option<usize>>, max_col: int)
    requires
        outpos.len() == max_col + 1,
        forall|col: int| 0 <= col <= max_col ==> match #[trigger] outpos[col] {
            Some(o) => 0 <= o < p.len() && p[o as int] == col && last_occurrence(p, o as int),
            None => forall|j: int| 0 <= j < p.len() ==> p[j] != col,
        },
    ensures
        forall|col: int| 0 <= col <= max_col ==> batch_output_of(Some(p), col) == match #[trigger] outpos[col] {
            Some(o) => Some(o as int),
            None => None::<int>,
        },
{
    assert forall|col: int| 0 <= col <= max_col implies batch_output_of(Some(p), col) == match #[trigger] outpos[col] {
        Some(o) => Some(o as int),
        None => None::<int>,
    } by {
        match outpos[col] {
            Some(o) => {
                lemma_output_of_last(p, o as int);
            },
            None => {
                reveal(batch_output_of);
                if has_last_entry(p, col) {
                    let k = last_entry(p, col);
                    assert(p[k] != col);
                }
            },
        }
    }
}

/// `Some(c)` for every column `c < n`.
fn identity_positions(n: usize) -> (r: Vec<Option<usize>>)
    ensures
        r@.len() == n,
        forall|c: int| 0 <= c < n ==> #[trigger] r@[c] == Some(c as usize),
{
    let mut r: Vec<Option<usize>> = Vec::with_capacity(n);
    let mut c: usize = 0;
    while c < n
        invariant
            c <= n,
            r@.len() == c,
            forall|j: int| 0 <= j < c ==> #[trigger] r@[j] == Some(j as usize),
        decreases n - c,
    {
        r.push(Some(c));
        c = c + 1;
    }
    r
}

/// What the builders hold while a tuple is walked: each output's values
/// before the tuple, followed by the value its source column appended if
/// that column has been walked.
pub open spec fn builders_after(before: Seq<ColumnBuilderView>, proj: Option<Seq<usize>>, acc: Map<int, Option<ArrowValueView>>, o: int) -> Seq<Option<ArrowValueView>> {
    let c = batch_source(proj, o);
    if batch_output_of(proj, c) == Some(o) && acc.contains_key(c) {
        before[o].values.push(acc[c])
    } else {
        before[o].values
    }
}

/// The views of a list of builders.
pub open spec fn builder_views(b: Seq<ColumnBuilder>) -> Seq<ColumnBuilderView> {
    b.map_values(|x: ColumnBuilder| x@)
}

/// The walk state invariant of `append_tuple`: the whole walk equals what
/// has been appended (`acc`) followed by the walk from `c`.
pub open spec fn walk_combined(rest: Option<Result<Map<int, Option<ArrowValueView>>, BatchError>>, acc: Map<int, Option<ArrowValueView>>) -> Option<Result<Map<int, Option<ArrowValueView>>, BatchError>> {
    match rest {
        Some(Ok(m)) => Some(Ok(acc.union_prefer_right(m))),
        other => other,
    }
}

/// The outputs that `outpos` records are the ones each column feeds, and
/// each output is fed by its source column.
pub open spec fn outputs_consistent(cols: Seq<PgColumn>, proj: Option<Seq<usize>>, outpos: Seq<Option<usize>>, nout: int) -> bool {
    &&& outpos.len() == batch_walk_len(proj, cols.len() as int)
    &&& batch_walk_len(proj, cols.len() as int) <= cols.len()
    &&& forall|c: int| 0 <= c < outpos.len() ==> batch_output_of(proj, c) == match #[trigger] outpos[c] {
        Some(o) => Some(o as int),
        None => None::<int>,
    }
    &&& forall|c: int| 0 <= c < outpos.len() ==> (#[trigger] outpos[c] matches Some(o) ==> o < nout && batch_source(proj, o as int) == c)
    &&& forall|o: int| 0 <= o < nout ==> 0 <= #[trigger] batch_source(proj, o) < outpos.len()
}

/// A NULL column appends a null to the output it feeds, if any, and leaves
/// the offset where it was.
proof fn lemma_walk_null_step(cols: Seq<PgColumn>, proj: Option<Seq<usize>>, bitmap: Seq<u8>, data: Seq<u8>, c: int, offset: int, acc: Map<int, Option<ArrowValueView>>)
    requires
        0 <= c < batch_walk_len(proj, cols.len() as int),
        c < cols.len(),
        bitmap_says_null(bitmap, c),
        forall|j: int| #[trigger] acc.contains_key(j) ==> 0 <= j < c,
    ensures
        walk_combined(spec_batch_walk(cols, proj, bitmap, data, c, offset), acc) == walk_combined(
            spec_batch_walk(cols, proj, bitmap, data, c + 1, offset),
            if batch_output_of(proj, c) is Some { acc.insert(c, None) } else { acc },
        ),
{
    reveal_with_fuel(spec_batch_walk, 1);
    lemma_batch_walk_keys(cols, proj, bitmap, data, c + 1, offset);
    if let Some(Ok(m)) = spec_batch_walk(cols, proj, bitmap, data, c + 1, offset) {
        assert(acc.union_prefer_right(m.insert(c, None)) =~= acc.insert(c, None).union_prefer_right(m));
    }
}

/// A column that feeds an output appends its value and moves the offset
/// past its bytes.
proof fn lemma_walk_output_step(
    cols: Seq<PgColumn>,
    proj: Option<Seq<usize>>,
    bitmap: Seq<u8>,
    data: Seq<u8>,
    c: int,
    offset: int,
    acc: Map<int, Option<ArrowValueView>>,
    b: Seq<u8>,
    consumed: int,
    v: Option<ArrowValueView>,
)
    requires
        0 <= c < batch_walk_len(proj, cols.len() as int),
        c < cols.len(),
        !bitmap_says_null(bitmap, c),
        offset + 128 <= isize::MAX,
        batch_output_of(proj, c) is Some,
        ({
            let t = cols[c].type_id;
            let off = spec_att_align(t, data, offset);
            match t.spec_type_len() {
                PgTypeLen::Fixed(n) => off + n <= data.len() && b == data.subrange(off, off + n) && consumed == off + n,
                len => spec_extract_column_bytes(len, data, off) matches Ok((s, e, k)) && b == data.subrange(s, e)
                    && consumed == off + k,
            }
        }),
        append_bytes_defined(spec_column_kind(cols[c].type_id, cols[c].typmod), b),
        spec_append_bytes(spec_column_kind(cols[c].type_id, cols[c].typmod), b) == Ok::<Option<ArrowValueView>, Seq<char>>(v),
        forall|j: int| #[trigger] acc.contains_key(j) ==> 0 <= j < c,
    ensures
        walk_combined(spec_batch_walk(cols, proj, bitmap, data, c, offset), acc) == walk_combined(
            spec_batch_walk(cols, proj, bitmap, data, c + 1, consumed),
            acc.insert(c, v),
        ),
{
    reveal_with_fuel(spec_batch_walk, 1);
    lemma_batch_walk_keys(cols, proj, bitmap, data, c + 1, consumed);
    if let Some(Ok(m)) = spec_batch_walk(cols, proj, bitmap, data, c + 1, consumed) {
        assert(acc.union_prefer_right(m.insert(c, v)) =~= acc.insert(c, v).union_prefer_right(m));
    }
}

/// What the walk needs of a column that feeds an output, when the walk
/// does not panic there: the offset is far from `usize::MAX`, a fixed-width
/// value lies within the data, the builder can take the value; and which
/// failure a failing step reports.
proof fn lemma_walk_output_facts(cols: Seq<PgColumn>, proj: Option<Seq<usize>>, bitmap: Seq<u8>, data: Seq<u8>, c: int, offset: int)
    requires
        0 <= c < batch_walk_len(proj, cols.len() as int),
        c < cols.len(),
        !bitmap_says_null(bitmap, c),
        batch_output_of(proj, c) is Some,
        spec_batch_walk(cols, proj, bitmap, data, c, offset) is Some,
    ensures
        offset + 128 <= isize::MAX,
        ({
            let w = spec_batch_walk(cols, proj, bitmap, data, c, offset);
            let t = cols[c].type_id;
            let off = spec_att_align(t, data, offset);
            let kind = spec_column_kind(t, cols[c].typmod);
            match t.spec_type_len() {
                PgTypeLen::Fixed(n) => {
                    &&& off + n <= data.len()
                    &&& append_bytes_defined(kind, data.subrange(off, off + n))
                    &&& spec_append_bytes(kind, data.subrange(off, off + n)) matches Err(m) ==> w == Some(
                        Err::<Map<int, Option<ArrowValueView>>, BatchError>(BatchError::Conversion(m)),
                    )
                },
                len => match spec_extract_column_bytes(len, data, off) {
                    Err(m) => w == Some(Err::<Map<int, Option<ArrowValueView>>, BatchError>(BatchError::Decode(m))),
                    Ok((s, e, k)) => {
                        &&& append_bytes_defined(kind, data.subrange(s, e))
                        &&& spec_append_bytes(kind, data.subrange(s, e)) matches Err(m) ==> w == Some(
                            Err::<Map<int, Option<ArrowValueView>>, BatchError>(BatchError::Conversion(m)),
                        )
                    },
                },
            }
        }),
{
    reveal_with_fuel(spec_batch_walk, 1);
}

/// A column that feeds no output is only sized: the offset moves past it,
/// or the walk fails where its size cannot be read.
proof fn lemma_walk_skip_step(cols: Seq<PgColumn>, proj: Option<Seq<usize>>, bitmap: Seq<u8>, data: Seq<u8>, c: int, offset: int, acc: Map<int, Option<ArrowValueView>>)
    requires
        0 <= c < batch_walk_len(proj, cols.len() as int),
        c < cols.len(),
        !bitmap_says_null(bitmap, c),
        batch_output_of(proj, c) is None,
        spec_batch_walk(cols, proj, bitmap, data, c, offset) is Some,
    ensures
        offset + 128 <= isize::MAX,
        ({
            let w = spec_batch_walk(cols, proj, bitmap, data, c, offset);
            let t = cols[c].type_id;
            let off = spec_att_align(t, data, offset);
            match t.spec_type_len() {
                PgTypeLen::Fixed(n) => walk_combined(w, acc) == walk_combined(
                    spec_batch_walk(cols, proj, bitmap, data, c + 1, off + n),
                    acc,
                ),
                len => match spec_skip_datum(len, data, off) {
                    Err(e) => w == Some(
                        Err::<Map<int, Option<ArrowValueView>>, BatchError>(BatchError::Decode(decode_error_text(e))),
                    ),
                    Ok(n) => off + n <= usize::MAX && walk_combined(w, acc) == walk_combined(
                        spec_batch_walk(cols, proj, bitmap, data, c + 1, off + n),
                        acc,
                    ),
                },
            }
        }),
{
    reveal_with_fuel(spec_batch_walk, 1);
}

/// Appending the value of column `c` to the output it feeds extends that
/// output's values and no other's.
proof fn lemma_builders_step(before: Seq<ColumnBuilderView>, proj: Option<Seq<usize>>, acc: Map<int, Option<ArrowValueView>>, c: int, oc: int, v: Option<ArrowValueView>, nout: int)
    requires
        batch_output_of(proj, c) == Some(oc),
        batch_source(proj, oc) == c,
        !acc.contains_key(c),
    ensures
        forall|o: int| 0 <= o < nout ==> #[trigger] builders_after(before, proj, acc.insert(c, v), o) == if o == oc {
            builders_after(before, proj, acc, o).push(v)
        } else {
            builders_after(before, proj, acc, o)
        },
{
    assert forall|o: int| 0 <= o < nout implies #[trigger] builders_after(before, proj, acc.insert(c, v), o) == if o == oc {
        builders_after(before, proj, acc, o).push(v)
    } else {
        builders_after(before, proj, acc, o)
    } by {
        let co = batch_source(proj, o);
        if co == c && o != oc {
            assert(batch_output_of(proj, co) != Some(o));
        }
    }
}

/// Append a null to builder `o` of `builders`.
fn builders_append_null(builders: &mut Vec<ColumnBuilder>, o: usize)
    requires
        o < old(builders)@.len(),
    ensures
        final(builders)@.len() == old(builders)@.len(),
        forall|j: int| 0 <= j < old(builders)@.len() && j != o ==> #[trigger] final(builders)@[j] == old(builders)@[j],
        final(builders)@[o as int]@.kind == old(builders)@[o as int]@.kind,
        final(builders)@[o as int]@.values == old(builders)@[o as int]@.values.push(None),
{
    builders[o].append_null();
}

/// Append the raw bytes `bytes` to builder `o` of `builders`.
fn builders_append_bytes(builders: &mut Vec<ColumnBuilder>, o: usize, bytes: &[u8]) -> (r: Result<()>)
    requires
        o < old(builders)@.len(),
        append_bytes_defined(old(builders)@[o as int]@.kind, bytes@),
    ensures
        final(builders)@.len() == old(builders)@.len(),
        forall|j: int| 0 <= j < old(builders)@.len() && j != o ==> #[trigger] final(builders)@[j] == old(builders)@[j],
        final(builders)@[o as int]@.kind == old(builders)@[o as int]@.kind,
        match spec_append_bytes(old(builders)@[o as int]@.kind, bytes@) {
            Ok(v) => r is Ok && final(builders)@[o as int]@.values == old(builders)@[o as int]@.values.push(v),
            Err(m) => r matches Err(e) && e matches PgError::ArrowConversionFailed { detail } && detail@ == m,
        },
{
    builders[o].append_bytes(bytes)
}

/// Walk a NULL column: append a null to the output it feeds, if any.
#[verifier::rlimit(50)]
#[verifier::spinoff_prover]
fn column_null(
    cols: &[PgColumn],
    Ghost(proj): Ghost<Option<Seq<usize>>>,
    outpos: &Vec<Option<usize>>,
    bitmap: &[u8],
    data: &[u8],
    builders: &mut Vec<ColumnBuilder>,
    c: usize,
    offset: usize,
    Ghost(before): Ghost<Seq<ColumnBuilderView>>,
    Ghost(acc): Ghost<Map<int, Option<ArrowValueView>>>,
) -> (r: Result<(usize, Ghost<Map<int, Option<ArrowValueView>>>)>)
    requires
        outputs_consistent(cols@, proj, outpos@, old(builders)@.len() as int),
        c < outpos@.len(),
        data@.len() <= isize::MAX,
        before.len() == old(builders)@.len(),
        forall|o: int| 0 <= o < before.len() ==> (#[trigger] old(builders)@[o])@.kind == before[o].kind,
        forall|o: int| 0 <= o < before.len() ==> before[o].kind == spec_column_kind(
            cols@[batch_source(proj, o)].type_id,
            cols@[batch_source(proj, o)].typmod,
        ),
        spec_batch_walk(cols@, proj, bitmap@, data@, c as int, offset as int) is Some,
        bitmap_says_null(bitmap@, c as int),
        forall|j: int| #[trigger] acc.contains_key(j) ==> 0 <= j < c,
        forall|o: int| 0 <= o < before.len() ==> (#[trigger] old(builders)@[o])@.values == builders_after(before, proj, acc, o),
    ensures
        final(builders)@.len() == old(builders)@.len(),
        forall|o: int| 0 <= o < before.len() ==> (#[trigger] final(builders)@[o])@.kind == before[o].kind,
        match r {
            Ok((next, acc2)) => {
                &&& walk_combined(spec_batch_walk(cols@, proj, bitmap@, data@, c as int, offset as int), acc)
                    == walk_combined(spec_batch_walk(cols@, proj, bitmap@, data@, c + 1, next as int), acc2@)
                &&& forall|j: int| #[trigger] acc2@.contains_key(j) ==> 0 <= j < c + 1
                &&& forall|o: int| 0 <= o < before.len() ==> (#[trigger] final(builders)@[o])@.values == builders_after(before, proj, acc2@, o)
            },
            Err(e) => spec_batch_walk(cols@, proj, bitmap@, data@, c as int, offset as int) matches Some(Err(k))
                && batch_error_matches(e, k),
        },
{
    let ghost nout = before.len();
    proof {
        lemma_walk_null_step(cols@, proj, bitmap@, data@, c as int, offset as int, acc);
    }
    match outpos[c] {
        Some(o) => {
            proof {
                lemma_builders_step(before, proj, acc, c as int, o as int, None, nout as int);
            }
            builders_append_null(builders, o);
            Ok((offset, Ghost(acc.insert(c as int, None))))
        },
        None => Ok((offset, Ghost(acc))),
    }
}

/// Walk a non-NULL column that feeds an output: append its value.
#[verifier::rlimit(80)]
#[verifier::spinoff_prover]
fn column_output(
    cols: &[PgColumn],
    Ghost(proj): Ghost<Option<Seq<usize>>>,
    outpos: &Vec<Option<usize>>,
    bitmap: &[u8],
    data: &[u8],
    builders: &mut Vec<ColumnBuilder>,
    c: usize,
    offset: usize,
    Ghost(before): Ghost<Seq<ColumnBuilderView>>,
    Ghost(acc): Ghost<Map<int, Option<ArrowValueView>>>,
) -> (r: Result<(usize, Ghost<Map<int, Option<ArrowValueView>>>)>)
    requires
        outputs_consistent(cols@, proj, outpos@, old(builders)@.len() as int),
        c < outpos@.len(),
        data@.len() <= isize::MAX,
        before.len() == old(builders)@.len(),
        forall|o: int| 0 <= o < before.len() ==> (#[trigger] old(builders)@[o])@.kind == before[o].kind,
        forall|o: int| 0 <= o < before.len() ==> before[o].kind == spec_column_kind(
            cols@[batch_source(proj, o)].type_id,
            cols@[batch_source(proj, o)].typmod,
        ),
        spec_batch_walk(cols@, proj, bitmap@, data@, c as int, offset as int) is Some,
        !bitmap_says_null(bitmap@, c as int),
        outpos@[c as int] is Some,
        forall|j: int| #[trigger] acc.contains_key(j) ==> 0 <= j < c,
        forall|o: int| 0 <= o < before.len() ==> (#[trigger] old(builders)@[o])@.values == builders_after(before, proj, acc, o),
    ensures
        final(builders)@.len() == old(builders)@.len(),
        forall|o: int| 0 <= o < before.len() ==> (#[trigger] final(builders)@[o])@.kind == before[o].kind,
        match r {
            Ok((next, acc2)) => {
                &&& walk_combined(spec_batch_walk(cols@, proj, bitmap@, data@, c as int, offset as int), acc)
                    == walk_combined(spec_batch_walk(cols@, proj, bitmap@, data@, c + 1, next as int), acc2@)
                &&& forall|j: int| #[trigger] acc2@.contains_key(j) ==> 0 <= j < c + 1
                &&& forall|o: int| 0 <= o < before.len() ==> (#[trigger] final(builders)@[o])@.values == builders_after(before, proj, acc2@, o)
            },
            Err(e) => spec_batch_walk(cols@, proj, bitmap@, data@, c as int, offset as int) matches Some(Err(k))
                && batch_error_matches(e, k),
        },
{
    let ghost nout = before.len();
    let o = outpos[c].unwrap();
    proof {
        lemma_walk_output_facts(cols@, proj, bitmap@, data@, c as int, offset as int);
    }
    let col = &cols[c];
    let off = att_align(col.type_id, data, offset);
    let type_len = col.type_id.type_len();
    let (bytes, consumed) = match type_len {
        PgTypeLen::Fixed(n) => extract_fixed_bytes(data, off, n as usize),
        _ => match extract_column_bytes(type_len, data, off) {
            Ok(x) => x,
            Err(e) => return Err(e),
        },
    };
    let ghost v = spec_append_bytes(builders@[o as int]@.kind, bytes@)->Ok_0;
    match builders_append_bytes(builders, o, bytes) {
        Ok(()) => {},
        Err(e) => return Err(e),
    }
    proof {
        lemma_walk_output_step(cols@, proj, bitmap@, data@, c as int, offset as int, acc, bytes@, (off + consumed) as int, v);
        lemma_builders_step(before, proj, acc, c as int, o as int, v, nout as int);
    }
    Ok((off + consumed, Ghost(acc.insert(c as int, v))))
}

/// Walk a non-NULL column that feeds no output: only size it.
#[verifier::rlimit(50)]
#[verifier::spinoff_prover]
fn column_skip(
    cols: &[PgColumn],
    Ghost(proj): Ghost<Option<Seq<usize>>>,
    outpos: &Vec<Option<usize>>,
    bitmap: &[u8],
    data: &[u8],
    builders: &mut Vec<ColumnBuilder>,
    c: usize,
    offset: usize,
    Ghost(before): Ghost<Seq<ColumnBuilderView>>,
    Ghost(acc): Ghost<Map<int, Option<ArrowValueView>>>,
) -> (r: Result<(usize, Ghost<Map<int, Option<ArrowValueView>>>)>)
    requires
        outputs_consistent(cols@, proj, outpos@, old(builders)@.len() as int),
        c < outpos@.len(),
        data@.len() <= isize::MAX,
        before.len() == old(builders)@.len(),
        forall|o: int| 0 <= o < before.len() ==> (#[trigger] old(builders)@[o])@.kind == before[o].kind,
        forall|o: int| 0 <= o < before.len() ==> before[o].kind == spec_column_kind(
            cols@[batch_source(proj, o)].type_id,
            cols@[batch_source(proj, o)].typmod,
        ),
        spec_batch_walk(cols@, proj, bitmap@, data@, c as int, offset as int) is Some,
        !bitmap_says_null(bitmap@, c as int),
        outpos@[c as int] is None,
        forall|j: int| #[trigger] acc.contains_key(j) ==> 0 <= j < c,
        forall|o: int| 0 <= o < before.len() ==> (#[trigger] old(builders)@[o])@.values == builders_after(before, proj, acc, o),
    ensures
        final(builders)@.len() == old(builders)@.len(),
        forall|o: int| 0 <= o < before.len() ==> (#[trigger] final(builders)@[o])@.kind == before[o].kind,
        match r {
            Ok((next, acc2)) => {
                &&& walk_combined(spec_batch_walk(cols@, proj, bitmap@, data@, c as int, offset as int), acc)
                    == walk_combined(spec_batch_walk(cols@, proj, bitmap@, data@, c + 1, next as int), acc2@)
                &&& forall|j: int| #[trigger] acc2@.contains_key(j) ==> 0 <= j < c + 1
                &&& forall|o: int| 0 <= o < before.len() ==> (#[trigger] final(builders)@[o])@.values == builders_after(before, proj, acc2@, o)
            },
            Err(e) => spec_batch_walk(cols@, proj, bitmap@, data@, c as int, offset as int) matches Some(Err(k))
                && batch_error_matches(e, k),
        },
{
    let ghost nout = before.len();
    proof {
        lemma_walk_skip_step(cols@, proj, bitmap@, data@, c as int, offset as int, acc);
    }
    let col = &cols[c];
    let off = att_align(col.type_id, data, offset);
    let type_len = col.type_id.type_len();
    match type_len {
        PgTypeLen::Fixed(n) => Ok((off + n as usize, Ghost(acc))),
        _ => match skip_datum(type_len, data, off) {
            Ok(n) => Ok((off + n, Ghost(acc))),
            Err(e) => Err(PgError::DecodeError(e.message())),
        },
    }
}

/// Walk column `c` of a tuple whose previous column ended at `offset`:
/// append what it holds to the output it feeds (if any) and return where it
/// ends, with the columns appended so far.
#[verifier::rlimit(100)]
#[verifier::spinoff_prover]
fn append_column(
    cols: &[PgColumn],
    Ghost(proj): Ghost<Option<Seq<usize>>>,
    outpos: &Vec<Option<usize>>,
    bitmap: &[u8],
    data: &[u8],
    builders: &mut Vec<ColumnBuilder>,
    c: usize,
    offset: usize,
    Ghost(before): Ghost<Seq<ColumnBuilderView>>,
    Ghost(acc): Ghost<Map<int, Option<ArrowValueView>>>,
) -> (r: Result<(usize, Ghost<Map<int, Option<ArrowValueView>>>)>)
    requires
        outputs_consistent(cols@, proj, outpos@, old(builders)@.len() as int),
        c < outpos@.len(),
        data@.len() <= isize::MAX,
        before.len() == old(builders)@.len(),
        forall|o: int| 0 <= o < before.len() ==> (#[trigger] old(builders)@[o])@.kind == before[o].kind,
        forall|o: int| 0 <= o < before.len() ==> before[o].kind == spec_column_kind(
            cols@[batch_source(proj, o)].type_id,
            cols@[batch_source(proj, o)].typmod,
        ),
        spec_batch_walk(cols@, proj, bitmap@, data@, c as int, offset as int) is Some,
        forall|j: int| #[trigger] acc.contains_key(j) ==> 0 <= j < c,
        forall|o: int| 0 <= o < before.len() ==> (#[trigger] old(builders)@[o])@.values == builders_after(before, proj, acc, o),
    ensures
        final(builders)@.len() == old(builders)@.len(),
        forall|o: int| 0 <= o < before.len() ==> (#[trigger] final(builders)@[o])@.kind == before[o].kind,
        match r {
            Ok((next, acc2)) => {
                &&& walk_combined(spec_batch_walk(cols@, proj, bitmap@, data@, c as int, offset as int), acc)
                    == walk_combined(spec_batch_walk(cols@, proj, bitmap@, data@, c + 1, next as int), acc2@)
                &&& forall|j: int| #[trigger] acc2@.contains_key(j) ==> 0 <= j < c + 1
                &&& forall|o: int| 0 <= o < before.len() ==> (#[trigger] final(builders)@[o])@.values == builders_after(before, proj, acc2@, o)
            },
            Err(e) => spec_batch_walk(cols@, proj, bitmap@, data@, c as int, offset as int) matches Some(Err(k))
                && batch_error_matches(e, k),
        },
{
    let is_null = c / 8 < bitmap.len() && bitmap[c / 8] & (1u8 << ((c % 8) as u8)) == 0;
    assert(is_null == bitmap_says_null(bitmap@, c as int));
    if is_null {
        column_null(cols, Ghost(proj), outpos, bitmap, data, &mut *builders, c, offset, Ghost(before), Ghost(acc))
    } else if outpos[c].is_some() {
        column_output(cols, Ghost(proj), outpos, bitmap, data, &mut *builders, c, offset, Ghost(before), Ghost(acc))
    } else {
        column_skip(cols, Ghost(proj), outpos, bitmap, data, &mut *builders, c, offset, Ghost(before), Ghost(acc))
    }
}

/// Append the values of one tuple (null bitmap `bitmap`, attribute data
/// `data`) to the builders, walking columns as `spec_batch_walk` does.
#[verifier::rlimit(100)]
#[verifier::spinoff_prover]
fn append_tuple(
    cols: &[PgColumn],
    Ghost(proj): Ghost<Option<Seq<usize>>>,
    outpos: &Vec<Option<usize>>,
    bitmap: &[u8],
    data: &[u8],
    builders: &mut Vec<ColumnBuilder>,
) -> (r: Result<()>)
    requires
        outputs_consistent(cols@, proj, outpos@, old(builders)@.len() as int),
        forall|o: int| 0 <= o < old(builders)@.len() ==> (#[trigger] old(builders)@[o])@.kind == spec_column_kind(
            cols@[batch_source(proj, o)].type_id,
            cols@[batch_source(proj, o)].typmod,
        ),
        data@.len() <= isize::MAX,
        spec_batch_walk(cols@, proj, bitmap@, data@, 0, 0) is Some,
    ensures
        final(builders)@.len() == old(builders)@.len(),
        forall|o: int| 0 <= o < old(builders)@.len() ==> (#[trigger] final(builders)@[o])@.kind == old(builders)@[o]@.kind,
        match spec_batch_walk(cols@, proj, bitmap@, data@, 0, 0) {
            Some(Ok(m)) => r is Ok && forall|o: int| 0 <= o < old(builders)@.len() ==> (#[trigger] final(builders)@[o])@.values
                == builders_after(builder_views(old(builders)@), proj, m, o),
            Some(Err(k)) => r matches Err(e) && batch_error_matches(e, k),
            None => false,
        },
{
    let ghost before = builder_views(builders@);
    let ghost total = spec_batch_walk(cols@, proj, bitmap@, data@, 0, 0);
    let ghost mut acc: Map<int, Option<ArrowValueView>> = Map::empty();
    let ghost nout = builders@.len();
    let walk_len = outpos.len();
    proof {
        if let Some(Ok(m)) = total {
            assert(acc.union_prefer_right(m) =~= m);
        }
        assert forall|o: int| 0 <= o < nout implies (#[trigger] builders@[o])@.values == builders_after(before, proj, acc, o) by {}
    }
    let mut c: usize = 0;
    let mut offset: usize = 0;
    while c < walk_len
        invariant
            outputs_consistent(cols@, proj, outpos@, nout as int),
            walk_len == outpos@.len(),
            c <= walk_len,
            data@.len() <= isize::MAX,
            builders@.len() == nout,
            nout == old(builders)@.len(),
            before == builder_views(old(builders)@),
            before.len() == nout,
            forall|o: int| 0 <= o < nout ==> (#[trigger] builders@[o])@.kind == before[o].kind,
            forall|o: int| 0 <= o < nout ==> before[o].kind == spec_column_kind(
                cols@[batch_source(proj, o)].type_id,
                cols@[batch_source(proj, o)].typmod,
            ),
            total == spec_batch_walk(cols@, proj, bitmap@, data@, 0, 0),
            total is Some,
            total == walk_combined(spec_batch_walk(cols@, proj, bitmap@, data@, c as int, offset as int), acc),
            forall|j: int| #[trigger] acc.contains_key(j) ==> 0 <= j < c,
            forall|o: int| 0 <= o < nout ==> (#[trigger] builders@[o])@.values == builders_after(before, proj, acc, o),
        decreases walk_len - c,
    {
        let (next, Ghost(acc2)) = match append_column(cols, Ghost(proj), outpos, bitmap, data, &mut *builders, c, offset, Ghost(before), Ghost(acc)) {
            Ok(x) => x,
            Err(e) => return Err(e),
        };
        proof {
            acc = acc2;
        }
        offset = next;
        c = c + 1;
    }
    proof {
        reveal_with_fuel(spec_batch_walk, 1);
        assert(acc.union_prefer_right(Map::<int, Option<ArrowValueView>>::empty()) =~= acc);
    }
    Ok(())
}

/// Whether a walk ends in values (`Some(true)`), in an error
/// (`Some(false)`), or would panic (`None`).
pub open spec fn walk_status(w: Option<Result<Map<int, Option<ArrowValueView>>, BatchError>>) -> Option<bool> {
    match w {
        None => None,
        Some(Ok(_)) => Some(true),
        Some(Err(_)) => Some(false),
    }
}

/// Check column `c` of a tuple whose previous column ended at `offset`, as
/// the conversion walks it: `None` where the walk would panic there,
/// `Some(Err(()))` where it fails there, otherwise where the column ends.
#[verifier::rlimit(50)]
#[verifier::spinoff_prover]
fn column_status(
    cols: &[PgColumn],
    Ghost(proj): Ghost<Option<Seq<usize>>>,
    outpos: &Vec<Option<usize>>,
    Ghost(nout): Ghost<int>,
    bitmap: &[u8],
    data: &[u8],
    c: usize,
    offset: usize,
) -> (r: Option<core::result::Result<usize, ()>>)
    requires
        outputs_consistent(cols@, proj, outpos@, nout),
        c < outpos@.len(),
        data@.len() <= isize::MAX,
    ensures
        match r {
            None => spec_batch_walk(cols@, proj, bitmap@, data@, c as int, offset as int) is None,
            Some(Err(())) => spec_batch_walk(cols@, proj, bitmap@, data@, c as int, offset as int) matches Some(Err(_)),
            Some(Ok(next)) => walk_status(spec_batch_walk(cols@, proj, bitmap@, data@, c as int, offset as int))
                == walk_status(spec_batch_walk(cols@, proj, bitmap@, data@, c + 1, next as int)),
        },
{
    proof {
        reveal_with_fuel(spec_batch_walk, 1);
    }
    let is_null = c / 8 < bitmap.len() && bitmap[c / 8] & (1u8 << ((c % 8) as u8)) == 0;
    assert(is_null == bitmap_says_null(bitmap@, c as int));
    if is_null {
        return Some(Ok(offset));
    }
    if offset > (isize::MAX as usize) - 128 {
        // offset + 128 passes isize::MAX
        return None;
    }
    let col = &cols[c];
    let off = att_align(col.type_id, data, offset);
    let type_len = col.type_id.type_len();
    if outpos[c].is_some() {
        let kind = ColumnBuilder::for_column(col, 0).kind();
        let (bytes, consumed) = match type_len {
            PgTypeLen::Fixed(n) => {
                if off + n as usize > data.len() {
                    return None;
                }
                extract_fixed_bytes(data, off, n as usize)
            },
            _ => match extract_column_bytes(type_len, data, off) {
                Ok(x) => x,
                Err(_) => return Some(Err(())),
            },
        };
        if !append_bytes_is_defined(kind, bytes) {
            return None;
        }
        if append_bytes_fails(kind, bytes) {
            return Some(Err(()));
        }
        Some(Ok(off + consumed))
    } else {
        match type_len {
            PgTypeLen::Fixed(n) => Some(Ok(off + n as usize)),
            _ => match skip_datum(type_len, data, off) {
                Ok(n) => if n > usize::MAX - off {
                    None
                } else {
                    Some(Ok(off + n))
                },
                Err(_) => Some(Err(())),
            },
        }
    }
}

/// Check one tuple (null bitmap `bitmap`, attribute data `data`) as the
/// conversion walks it: what [`walk_status`] says of its walk.
#[verifier::rlimit(50)]
fn tuple_status(
    cols: &[PgColumn],
    Ghost(proj): Ghost<Option<Seq<usize>>>,
    outpos: &Vec<Option<usize>>,
    Ghost(nout): Ghost<int>,
    bitmap: &[u8],
    data: &[u8],
) -> (r: Option<bool>)
    requires
        outputs_consistent(cols@, proj, outpos@, nout),
        data@.len() <= isize::MAX,
    ensures
        r == walk_status(spec_batch_walk(cols@, proj, bitmap@, data@, 0, 0)),
{
    let mut c: usize = 0;
    let mut offset: usize = 0;
    while c < outpos.len()
        invariant
            outputs_consistent(cols@, proj, outpos@, nout),
            data@.len() <= isize::MAX,
            c <= outpos@.len(),
            walk_status(spec_batch_walk(cols@, proj, bitmap@, data@, 0, 0)) == walk_status(
                spec_batch_walk(cols@, proj, bitmap@, data@, c as int, offset as int),
            ),
        decreases outpos@.len() - c,
    {
        match column_status(cols, Ghost(proj), outpos, Ghost(nout), bitmap, data, c, offset) {
            None => return None,
            Some(Err(())) => return Some(false),
            Some(Ok(next)) => {
                offset = next;
            },
        }
        c = c + 1;
    }
    proof {
        reveal_with_fuel(spec_batch_walk, 1);
    }
    Some(true)
}

/// `b` is the batch of the converted rows `rows`: one field and one column
/// per output column, each column holding what the rows' walks appended
/// for it.
pub open spec fn is_batch_of_rows(b: ArrowRecordBatch, rows: Seq<Map<int, Option<ArrowValueView>>>, cols: Seq<PgColumn>, proj: Option<Seq<usize>>) -> bool {
    let w = batch_width(proj, cols.len() as int);
    &&& b.schema.fields@.len() == w
    &&& b.columns@.len() == w
    &&& forall|o: int| 0 <= o < w ==> {
        let col = cols[batch_source(proj, o)];
        &&& is_arrow_field_of(#[trigger] b.schema.fields@[o], col)
        &&& b.columns@[o].data_type == spec_kind_arrow_type(spec_column_kind(col.type_id, col.typmod))
        &&& values_view(b.columns@[o].values@) == batch_column_values(rows, proj, o)
    }
}

/// The columns whose fields describe the outputs of a conversion.
pub open spec fn batch_columns(cols: Seq<PgColumn>, proj: Option<Seq<usize>>) -> Seq<PgColumn> {
    Seq::new(batch_width(proj, cols.len() as int) as nat, |o: int| cols[batch_source(proj, o)])
}

/// The data types of the columns a conversion builds.
pub open spec fn batch_types(cols: Seq<PgColumn>, proj: Option<Seq<usize>>) -> Seq<ArrowType> {
    Seq::new(
        batch_width(proj, cols.len() as int) as nat,
        |o: int| spec_kind_arrow_type(spec_column_kind(cols[batch_source(proj, o)].type_id, cols[batch_source(proj, o)].typmod)),
    )
}

/// The values of the columns a conversion builds from the rows `rows`.
pub open spec fn batch_values(rows: Seq<Map<int, Option<ArrowValueView>>>, cols: Seq<PgColumn>, proj: Option<Seq<usize>>) -> Seq<Seq<Option<ArrowValueView>>> {
    Seq::new(batch_width(proj, cols.len() as int) as nat, |o: int| batch_column_values(rows, proj, o))
}

/// Why the columns built from the rows `rows` cannot form a batch (see
/// [`batch_problem`]); `None` when they can.
pub open spec fn rows_batch_problem(rows: Seq<Map<int, Option<ArrowValueView>>>, cols: Seq<PgColumn>, proj: Option<Seq<usize>>) -> Option<Seq<char>> {
    batch_problem(batch_columns(cols, proj), batch_types(cols, proj), batch_values(rows, cols, proj))
}

/// How many of the line pointers `i..` lead to a tuple.
pub open spec fn readable_tuples(page: Seq<u8>, lps: Seq<ItemIdData>, i: int) -> nat
    decreases lps.len() - i,
{
    if i < 0 || i >= lps.len() {
        0
    } else {
        (if tuple_readable(page, lps[i]) { 1nat } else { 0nat }) + readable_tuples(page, lps, i + 1)
    }
}

/// A conversion that ends in rows gives one row per line pointer that
/// leads to a tuple.
proof fn lemma_rows_count(page: Seq<u8>, lps: Seq<ItemIdData>, cols: Seq<PgColumn>, proj: Option<Seq<usize>>, i: int)
    requires
        0 <= i,
    ensures
        spec_batch_rows(page, lps, cols, proj, i) matches Some(Ok(rows)) ==> rows.len() == readable_tuples(page, lps, i),
    decreases lps.len() - i,
{
    if i < lps.len() {
        lemma_rows_count(page, lps, cols, proj, i + 1);
    }
}

/// A page converted to a batch has one row per readable tuple: every column
/// holds as many values as the page has line pointers that are normal, lie
/// within the page and point at bytes that parse as a tuple (those for
/// which `get_row_data` gives a tuple).
pub proof fn lemma_batch_rows_are_readable_tuples(
    page: Seq<u8>,
    lps: Seq<ItemIdData>,
    cols: Seq<PgColumn>,
    proj: Option<Seq<usize>>,
    b: ArrowRecordBatch,
)
    requires
        projection_in_range(proj, cols.len() as int),
        spec_batch_rows(page, lps, cols, proj, 0) matches Some(Ok(rows)) && rows_batch_problem(rows, cols, proj) is None
            && is_batch_of_rows(b, rows, cols, proj),
    ensures
        forall|o: int| 0 <= o < b.columns@.len() ==> (#[trigger] b.columns@[o]).values@.len() == readable_tuples(page, lps, 0),
{
    let rows = spec_batch_rows(page, lps, cols, proj, 0)->Some_0->Ok_0;
    lemma_rows_count(page, lps, cols, proj, 0);
    let w = batch_width(proj, cols.len() as int);
    let values = batch_values(rows, cols, proj);
    // the last output column is fed by its source column
    let o0 = w - 1;
    assert(w > 0);
    reveal(batch_output_of);
    if let Some(p) = proj {
        assert(last_occurrence(p, o0));
        assert(has_last_entry(p, p[o0] as int));
        let k = last_entry(p, p[o0] as int);
        if k < o0 {
            assert(p[o0] == p[k]);
        }
        assert(k == o0);
    }
    assert(batch_output_of(proj, batch_source(proj, o0)) == Some(o0));
    assert(values[o0].len() == rows.len());
    assert forall|o: int| 0 <= o < b.columns@.len() implies (#[trigger] b.columns@[o]).values@.len() == readable_tuples(page, lps, 0) by {
        assert(!is_ragged(values));
        assert(values[o].len() == values[0].len());
        assert(values[o0].len() == values[0].len());
        assert(is_arrow_field_of(b.schema.fields@[o], cols[batch_source(proj, o)]));
        assert(values_view(b.columns@[o].values@) == batch_column_values(rows, proj, o));
        assert(values_view(b.columns@[o].values@).len() == b.columns@[o].values@.len());
    }
}

impl HeapPageData {
    /// The line pointers the page announces.
    pub open spec fn spec_line_pointers(&self) -> Seq<ItemIdData> {
        self.lp_items@.subrange(0, self.lp_num as int)
    }

    /// Convert the live tuples of this page straight into Arrow column data,
    /// reading tuple bytes from the page buffer.
    ///
    /// With `projection`, only those schema columns are decoded, in that
    /// order; the other columns up to the highest projected one are only
    /// sized. `None` includes every column; an empty projection gives an
    /// empty batch. Columns that cannot form a batch (see
    /// [`rows_batch_problem`]) fail the conversion.
    #[verifier::rlimit(30)]
    pub fn to_record_batch(&self, schema: &PgSchema, projection: Option<&[usize]>) -> (r: Result<ArrowRecordBatch>)
        requires
            self.lp_num <= self.lp_items@.len(),
            bytes_contents(self.page_data).len() <= isize::MAX,
            projection_in_range(
                match projection {
                    Some(p) => Some(p@),
                    None => None,
                },
                schema@.len() as int,
            ),
            (projection matches Some(p) && p@.len() == 0) || spec_batch_rows(
                bytes_contents(self.page_data),
                self.spec_line_pointers(),
                schema@,
                match projection {
                    Some(p) => Some(p@),
                    None => None,
                },
                0,
            ) is Some,
        ensures
            ({
                let proj = match projection {
                    Some(p) => Some(p@),
                    None => None,
                };
                if projection matches Some(p) && p@.len() == 0 {
                    r matches Ok(b) && b.schema.fields@.len() == 0 && b.columns@.len() == 0
                } else {
                    match spec_batch_rows(bytes_contents(self.page_data), self.spec_line_pointers(), schema@, proj, 0) {
                        Some(Ok(rows)) => match rows_batch_problem(rows, schema@, proj) {
                            None => r matches Ok(b) && is_batch_of_rows(b, rows, schema@, proj),
                            Some(m) => r matches Err(e) && e matches PgError::ArrowConversionFailed { detail } && detail@ == m,
                        },
                        Some(Err(k)) => r matches Err(e) && batch_error_matches(e, k),
                        None => false,
                    }
                }
            }),
    {
        let ghost proj = match projection {
            Some(p) => Some(p@),
            None => None,
        };
        let ghost page = bytes_contents(self.page_data);
        let ghost lps = self.spec_line_pointers();
        match projection {
            Some(p) => {
                if p.len() == 0 {
                    // Empty projection: no columns, no rows.
                    let empty = PgSchema::new(schema.name(), Vec::new());
                    return Ok(ArrowRecordBatch { schema: empty.to_arrow_schema(), columns: Vec::new() });
                }
            },
            None => {},
        }
        let cols = schema.columns();
        let num_schema_cols = cols.len();

        // The columns to output, and for each walked column the output it
        // feeds.
        let batch_schema = match projection {
            Some(p) => schema.project(p),
            None => schema.clone(),
        };
        let outpos = match projection {
            Some(p) => {
                let max_col = max_index(p);
                proof {
                    lemma_seq_max_bounds(p@, p@.len() as int);
                }
                let positions = last_positions(p, max_col);
                proof {
                    lemma_output_positions(p@, positions@, max_col as int);
                }
                positions
            },
            None => {
                proof {
                    reveal(batch_output_of);
                }
                identity_positions(num_schema_cols)
            },
        };
        let nout = match projection {
            Some(p) => p.len(),
            None => num_schema_cols,
        };
        proof {
            if let Some(p) = proj {
                lemma_seq_max_bounds(p, p.len() as int);
            }
        }

        // One builder per output column.
        let mut builders: Vec<ColumnBuilder> = Vec::with_capacity(nout);
        let mut o: usize = 0;
        while o < nout
            invariant
                o <= nout,
                nout == batch_width(proj, cols@.len() as int),
                proj == match projection {
                    Some(p) => Some(p@),
                    None => None::<Seq<usize>>,
                },
                projection_in_range(proj, cols@.len() as int),
                cols@ == schema@,
                num_schema_cols == cols@.len(),
                builders@.len() == o,
                forall|j: int| 0 <= j < o ==> (#[trigger] builders@[j])@.kind == spec_column_kind(
                    cols@[batch_source(proj, j)].type_id,
                    cols@[batch_source(proj, j)].typmod,
                ),
                forall|j: int| 0 <= j < o ==> (#[trigger] builders@[j])@.values == Seq::<Option<ArrowValueView>>::empty(),
            decreases nout - o,
        {
            let src = match projection {
                Some(p) => p[o],
                None => o,
            };
            builders.push(ColumnBuilder::for_column(&cols[src], self.lp_num));
            o = o + 1;
        }

        let ghost total = spec_batch_rows(page, lps, cols@, proj, 0);
        let ghost mut done: Seq<Map<int, Option<ArrowValueView>>> = Seq::empty();
        proof {
            if let Some(Ok(rows)) = total {
                assert(done + rows =~= rows);
            }
            assert forall|j: int| 0 <= j < nout implies (#[trigger] builders@[j])@.values == batch_column_values(done, proj, j) by {
                assert(done.map_values(|m: Map<int, Option<ArrowValueView>>| m[batch_source(proj, j)]) =~= Seq::<Option<ArrowValueView>>::empty());
            }
        }
        let page_bytes = bytes_as_slice(&self.page_data);
        let mut lp_index: usize = 0;
        while lp_index < self.lp_num
            invariant
                lp_index <= self.lp_num <= self.lp_items@.len(),
                !(projection matches Some(p) && p@.len() == 0),
                cols@ == schema@,
                proj == match projection {
                    Some(p) => Some(p@),
                    None => None::<Seq<usize>>,
                },
                page == bytes_contents(self.page_data),
                page_bytes@ == page,
                page.len() <= isize::MAX,
                lps == self.lp_items@.subrange(0, self.lp_num as int),
                nout == batch_width(proj, cols@.len() as int),
                outputs_consistent(cols@, proj, outpos@, nout as int),
                builders@.len() == nout,
                forall|j: int| 0 <= j < nout ==> (#[trigger] builders@[j])@.kind == spec_column_kind(
                    cols@[batch_source(proj, j)].type_id,
                    cols@[batch_source(proj, j)].typmod,
                ),
                total == spec_batch_rows(page, lps, cols@, proj, 0),
                total is Some,
                total == match spec_batch_rows(page, lps, cols@, proj, lp_index as int) {
                    Some(Ok(rest)) => Some(Ok(done + rest)),
                    other => other,
                },
                forall|j: int| 0 <= j < nout ==> (#[trigger] builders@[j])@.values == batch_column_values(done, proj, j),
            decreases self.lp_num - lp_index,
        {
            let ghost rest = spec_batch_rows(page, lps, cols@, proj, lp_index as int + 1);
            let lp = &self.lp_items[lp_index];
            if lp.lp_flags() != LP_NORMAL {
                lp_index = lp_index + 1;
                continue;
            }
            let start = lp.lp_off() as usize;
            let end = start + lp.lp_len() as usize;
            if end > page_bytes.len() {
                // corrupted line pointer: skipped
                lp_index = lp_index + 1;
                continue;
            }
            let tuple = match HeapTupleData::parse_and_build(slice_subrange(page_bytes, start, end)) {
                Ok(t) => t,
                Err(_) => {
                    lp_index = lp_index + 1;
                    continue;
                },
            };
            let ghost raw = page.subrange(start as int, end as int);
            proof {
                assert(lps[lp_index as int] == self.lp_items@[lp_index as int]);
                assert(spec_tuple_bytes(page, *lp) == Some(raw));
            }
            let ghost before = builder_views(builders@);
            proof {
                assert(spec_parse_tuple(raw) matches Ok((_, b, d)) && b == tuple.null_bitmap@ && d == tuple.data@);
            }
            match append_tuple(cols, Ghost(proj), &outpos, tuple.null_bitmap.as_slice(), tuple.data.as_slice(), &mut builders) {
                Ok(()) => {},
                Err(e) => {
                    proof {
                        let w = spec_batch_walk(cols@, proj, tuple.null_bitmap@, tuple.data@, 0, 0);
                        let k = w->Some_0->Err_0;
                        assert(spec_batch_rows(page, lps, cols@, proj, lp_index as int) == Some(
                            Err::<Seq<Map<int, Option<ArrowValueView>>>, BatchError>(k),
                        ));
                    }
                    return Err(e);
                },
            }
            proof {
                let m = spec_batch_walk(cols@, proj, tuple.null_bitmap@, tuple.data@, 0, 0)->Some_0->Ok_0;
                lemma_batch_walk_keys(cols@, proj, tuple.null_bitmap@, tuple.data@, 0, 0);
                if let Some(Ok(rr)) = rest {
                    assert(done.push(m) + rr =~= done + (seq![m] + rr));
                }
                assert forall|j: int| 0 <= j < nout implies (#[trigger] builders@[j])@.values == batch_column_values(done.push(m), proj, j) by {
                    let c = batch_source(proj, j);
                    assert(before[j] == builders@[j]@ || true);
                    if batch_output_of(proj, c) == Some(j) {
                        assert(done.push(m).map_values(|mm: Map<int, Option<ArrowValueView>>| mm[c]) =~= done.map_values(
                            |mm: Map<int, Option<ArrowValueView>>| mm[c],
                        ).push(m[c]));
                    }
                }
                done = done.push(m);
            }
            lp_index = lp_index + 1;
        }
        proof {
            assert(done + Seq::<Map<int, Option<ArrowValueView>>>::empty() =~= done);
        }

        // Finish the builders, in output order.
        let mut columns: Vec<ArrowArray> = Vec::with_capacity(nout);
        let ghost finished = builder_views(builders@);
        while builders.len() > 0
            invariant
                columns@.len() + builders@.len() == nout,
                finished.len() == nout,
                forall|j: int| 0 <= j < builders@.len() ==> (#[trigger] builders@[j])@ == finished[columns@.len() + j],
                forall|j: int| 0 <= j < columns@.len() ==> {
                    &&& (#[trigger] columns@[j]).data_type == spec_kind_arrow_type(finished[j].kind)
                    &&& values_view(columns@[j].values@) == finished[j].values
                },
            decreases builders@.len(),
        {
            let b = builders.remove(0);
            columns.push(b.finish());
        }
        proof {
            let rows = total->Some_0->Ok_0;
            assert(batch_schema@ =~= batch_columns(cols@, proj));
            assert(array_types(columns@) =~= batch_types(cols@, proj));
            assert(array_values(columns@) =~= batch_values(rows, cols@, proj));
        }
        match check_batch(batch_schema.columns(), columns.as_slice()) {
            Ok(()) => Ok(ArrowRecordBatch { schema: batch_schema.to_arrow_schema(), columns }),
            Err(e) => Err(e),
        }
    }
}

impl HeapPageData {
    /// Whether converting the page's tuples with the walk positions
    /// `outpos` is defined: the conversion of its rows does not run into
    /// what would panic.
    #[verifier::rlimit(50)]
    fn rows_defined(
        &self,
        cols: &[PgColumn],
        Ghost(proj): Ghost<Option<Seq<usize>>>,
        outpos: &Vec<Option<usize>>,
        Ghost(nout): Ghost<int>,
    ) -> (r: bool)
        requires
            self.lp_num <= self.lp_items@.len(),
            bytes_contents(self.page_data).len() <= isize::MAX,
            outputs_consistent(cols@, proj, outpos@, nout),
        ensures
            r == spec_batch_rows(bytes_contents(self.page_data), self.spec_line_pointers(), cols@, proj, 0) is Some,
    {
        let ghost page = bytes_contents(self.page_data);
        let ghost lps = self.spec_line_pointers();
        let page_bytes = bytes_as_slice(&self.page_data);
        let mut lp_index: usize = 0;
        while lp_index < self.lp_num
            invariant
                lp_index <= self.lp_num <= self.lp_items@.len(),
                page == bytes_contents(self.page_data),
                page_bytes@ == page,
                page.len() <= isize::MAX,
                lps == self.lp_items@.subrange(0, self.lp_num as int),
                outputs_consistent(cols@, proj, outpos@, nout),
                (spec_batch_rows(page, lps, cols@, proj, 0) is Some) == (spec_batch_rows(
                    page,
                    lps,
                    cols@,
                    proj,
                    lp_index as int,
                ) is Some),
            decreases self.lp_num - lp_index,
        {
            let lp = &self.lp_items[lp_index];
            proof {
                assert(lps[lp_index as int] == self.lp_items@[lp_index as int]);
            }
            if lp.lp_flags() != LP_NORMAL {
                lp_index = lp_index + 1;
                continue;
            }
            let start = lp.lp_off() as usize;
            let end = start + lp.lp_len() as usize;
            if end > page_bytes.len() {
                lp_index = lp_index + 1;
                continue;
            }
            let tuple = match HeapTupleData::parse_and_build(slice_subrange(page_bytes, start, end)) {
                Ok(t) => t,
                Err(_) => {
                    lp_index = lp_index + 1;
                    continue;
                },
            };
            let ghost raw = page.subrange(start as int, end as int);
            proof {
                assert(spec_tuple_bytes(page, *lp) == Some(raw));
                assert(spec_parse_tuple(raw) matches Ok((_, b, d)) && b == tuple.null_bitmap@ && d == tuple.data@);
            }
            match tuple_status(cols, Ghost(proj), outpos, Ghost(nout), tuple.null_bitmap.as_slice(), tuple.data.as_slice()) {
                None => return false,
                Some(false) => return true,
                Some(true) => {},
            }
            lp_index = lp_index + 1;
        }
        true
    }

    /// Whether converting this page with `schema` and `projection`
    /// ([`HeapPageData::to_record_batch`]) is defined: exactly what that
    /// conversion requires, so that a caller can test it first.
    #[verifier::rlimit(50)]
    pub fn conversion_defined(&self, schema: &PgSchema, projection: Option<&[usize]>) -> (r: bool)
        ensures
            r == ({
                let proj = match projection {
                    Some(p) => Some(p@),
                    None => None,
                };
                &&& self.lp_num <= self.lp_items@.len()
                &&& bytes_contents(self.page_data).len() <= isize::MAX
                &&& projection_in_range(proj, schema@.len() as int)
                &&& (projection matches Some(p) && p@.len() == 0) || spec_batch_rows(
                    bytes_contents(self.page_data),
                    self.spec_line_pointers(),
                    schema@,
                    proj,
                    0,
                ) is Some
            }),
    {
        let ghost proj = match projection {
            Some(p) => Some(p@),
            None => None,
        };
        if self.lp_num > self.lp_items.len() || bytes_as_slice(&self.page_data).len() > isize::MAX as usize {
            return false;
        }
        let cols = schema.columns();
        let num_schema_cols = cols.len();
        if let Some(p) = projection {
            let mut k: usize = 0;
            while k < p.len()
                invariant
                    k <= p@.len(),
                    projection == Some(p),
                    proj == Some(p@),
                    num_schema_cols == schema@.len(),
                    forall|j: int| 0 <= j < k ==> p@[j] < num_schema_cols,
                decreases p@.len() - k,
            {
                if p[k] >= num_schema_cols {
                    proof {
                        assert(proj == Some(p@));
                        assert(p@[k as int] >= schema@.len());
                        lemma_entry_out_of_range(p@, k as int, schema@.len() as int);

                    }
                    return false;
                }
                k = k + 1;
            }
            if p.len() == 0 {
                return true;
            }
        }
        let outpos = match projection {
            Some(p) => {
                let max_col = max_index(p);
                proof {
                    lemma_seq_max_bounds(p@, p@.len() as int);
                }
                let positions = last_positions(p, max_col);
                proof {
                    lemma_output_positions(p@, positions@, max_col as int);
                }
                positions
            },
            None => {
                proof {
                    reveal(batch_output_of);
                }
                identity_positions(num_schema_cols)
            },
        };
        let nout = match projection {
            Some(p) => p.len(),
            None => num_schema_cols,
        };
        proof {
            if let Some(p) = proj {
                lemma_seq_max_bounds(p, p.len() as int);
            }
            assert(outputs_consistent(cols@, proj, outpos@, nout as int));
        }
        self.rows_defined(cols, Ghost(proj), &outpos, Ghost(nout as int))
    }
}

/// Extracting the bytes of a variable-width column consumes as many bytes
/// as sizing it does.
proof fn lemma_extract_consumes_skip(len: PgTypeLen, data: Seq<u8>, off: int)
    requires
        !(len is Fixed),
    ensures
        match spec_extract_column_bytes(len, data, off) {
            Ok((_, _, consumed)) => spec_skip_datum(len, data, off) == Ok::<int, DecodeErrorView>(consumed),
            Err(_) => true,
        },
{
}

/// Where the full walk and a projected walk of a tuple both succeed from
/// the same column and offset, every column the projected walk holds is
/// held by the full walk with the same value.
proof fn lemma_projected_walk_agrees(cols: Seq<PgColumn>, p: Seq<usize>, bitmap: Seq<u8>, data: Seq<u8>, c: int, offset: int)
    requires
        0 <= c,
        p.len() > 0,
        projection_in_range(Some(p), cols.len() as int),
    ensures
        match (spec_batch_walk(cols, None, bitmap, data, c, offset), spec_batch_walk(cols, Some(p), bitmap, data, c, offset)) {
            (Some(Ok(mf)), Some(Ok(mp))) => forall|j: int| #[trigger] mp.contains_key(j) ==> mf.contains_key(j) && mp[j] == mf[j],
            _ => true,
        },
    decreases batch_walk_len(Some(p), cols.len() as int) - c,
{
    reveal_with_fuel(spec_batch_walk, 1);
    reveal(batch_output_of);
    let proj = Some(p);
    let wf = spec_batch_walk(cols, None, bitmap, data, c, offset);
    let wp = spec_batch_walk(cols, proj, bitmap, data, c, offset);
    if !(wf matches Some(Ok(_)) && wp matches Some(Ok(_))) {
        return;
    }
    lemma_seq_max_bounds(p, p.len() as int);
    if c >= batch_walk_len(proj, cols.len() as int) || c >= cols.len() {
        return;
    }
    assert(c < batch_walk_len(None, cols.len() as int));
    if bitmap_says_null(bitmap, c) {
        lemma_projected_walk_agrees(cols, p, bitmap, data, c + 1, offset);
        lemma_batch_walk_keys(cols, proj, bitmap, data, c + 1, offset);
        return;
    }
    if offset + 128 > isize::MAX {
        return;
    }
    let t = cols[c].type_id;
    let off = spec_att_align(t, data, offset);
    if batch_output_of(proj, c) is Some {
        match t.spec_type_len() {
            PgTypeLen::Fixed(n) => {
                lemma_projected_walk_agrees(cols, p, bitmap, data, c + 1, off + n);
            },
            len => {
                if let Ok((s, e, consumed)) = spec_extract_column_bytes(len, data, off) {
                    lemma_projected_walk_agrees(cols, p, bitmap, data, c + 1, off + consumed);
                }
            },
        }
    } else {
        lemma_batch_walk_keys(cols, proj, bitmap, data, c + 1, offset);
        match t.spec_type_len() {
            PgTypeLen::Fixed(n) => {
                lemma_projected_walk_agrees(cols, p, bitmap, data, c + 1, off + n);
                lemma_batch_walk_keys(cols, proj, bitmap, data, c + 1, off + n);
            },
            len => {
                lemma_extract_consumes_skip(len, data, off);
                if let Ok((s, e, consumed)) = spec_extract_column_bytes(len, data, off) {
                    lemma_projected_walk_agrees(cols, p, bitmap, data, c + 1, off + consumed);
                    lemma_batch_walk_keys(cols, proj, bitmap, data, c + 1, off + consumed);
                }
            },
        }
    }
}

/// Where converting a page's tuples in full and with a projection both
/// succeed, they give the same rows, and every column a projected row holds
/// has the value the full row holds.
proof fn lemma_projected_rows_agree(page: Seq<u8>, lps: Seq<ItemIdData>, cols: Seq<PgColumn>, p: Seq<usize>, i: int)
    requires
        0 <= i,
        p.len() > 0,
        projection_in_range(Some(p), cols.len() as int),
    ensures
        match (spec_batch_rows(page, lps, cols, None, i), spec_batch_rows(page, lps, cols, Some(p), i)) {
            (Some(Ok(rf)), Some(Ok(rp))) => rf.len() == rp.len() && forall|r: int, j: int|
                0 <= r < rp.len() && #[trigger] rp[r].contains_key(j) ==> rf[r].contains_key(j) && rp[r][j] == rf[r][j],
            _ => true,
        },
    decreases lps.len() - i,
{
    if i >= lps.len() {
        return;
    }
    lemma_projected_rows_agree(page, lps, cols, p, i + 1);
    let lp = lps[i];
    if lp.spec_lp_flags() != LP_NORMAL {
        return;
    }
    if let Some(raw) = spec_tuple_bytes(page, lp) {
        if let Ok((_, bitmap, data)) = spec_parse_tuple(raw) {
            lemma_projected_walk_agrees(cols, p, bitmap, data, 0, 0);
            let rf = spec_batch_rows(page, lps, cols, None, i);
            let rp = spec_batch_rows(page, lps, cols, Some(p), i);
            if rf matches Some(Ok(_)) && rp matches Some(Ok(_)) {
                let rest_f = spec_batch_rows(page, lps, cols, None, i + 1);
                let rest_p = spec_batch_rows(page, lps, cols, Some(p), i + 1);
                assert(rest_f matches Some(Ok(_)) && rest_p matches Some(Ok(_)));
                let rows_f = rf->Some_0->Ok_0;
                let rows_p = rp->Some_0->Ok_0;
                assert forall|r: int, j: int| 0 <= r < rows_p.len() && #[trigger] rows_p[r].contains_key(j) implies rows_f[r].contains_key(j)
                    && rows_p[r][j] == rows_f[r][j] by {
                    if r > 0 {
                        assert(rows_p[r] == rest_p->Some_0->Ok_0[r - 1]);
                        assert(rows_f[r] == rest_f->Some_0->Ok_0[r - 1]);
                    }
                };
            }
        }
    }
}

/// A projected conversion of a page agrees with the full conversion: where
/// both succeed, the output column that the last entry `k` naming a schema
/// column feeds holds, row for row, the values of that column in the full
/// conversion.
pub proof fn lemma_projected_batch_agrees(page: Seq<u8>, lps: Seq<ItemIdData>, cols: Seq<PgColumn>, p: Seq<usize>, k: int)
    requires
        projection_in_range(Some(p), cols.len() as int),
        0 <= k < p.len(),
        last_occurrence(p, k),
        spec_batch_rows(page, lps, cols, None, 0) is Some,
        spec_batch_rows(page, lps, cols, None, 0)->Some_0 is Ok,
        spec_batch_rows(page, lps, cols, Some(p), 0) is Some,
        spec_batch_rows(page, lps, cols, Some(p), 0)->Some_0 is Ok,
    ensures
        batch_column_values(spec_batch_rows(page, lps, cols, Some(p), 0)->Some_0->Ok_0, Some(p), k)
            == batch_column_values(spec_batch_rows(page, lps, cols, None, 0)->Some_0->Ok_0, None, p[k] as int),
{
    reveal(batch_output_of);
    let rf = spec_batch_rows(page, lps, cols, None, 0)->Some_0->Ok_0;
    let rp = spec_batch_rows(page, lps, cols, Some(p), 0)->Some_0->Ok_0;
    let c = p[k] as int;
    lemma_projected_rows_agree(page, lps, cols, p, 0);
    lemma_output_of_last(p, k);
    lemma_seq_max_bounds(p, p.len() as int);
    assert forall|r: int| 0 <= r < rp.len() implies #[trigger] rp[r].contains_key(c) by {
        lemma_rows_keys(page, lps, cols, Some(p), 0, r);
    };
    assert(batch_source(Some(p), k) == c);
    assert(batch_output_of(None, c) == Some(c));
    let vp = batch_column_values(rp, Some(p), k);
    let vf = batch_column_values(rf, None, c);
    assert(vp == rp.map_values(|m: Map<int, Option<ArrowValueView>>| m[c]));
    assert(vf == rf.map_values(|m: Map<int, Option<ArrowValueView>>| m[c]));
    assert(rf.len() == rp.len());
    assert forall|r: int| 0 <= r < rp.len() implies rp[r][c] == rf[r][c] by {
        assert(rp[r].contains_key(c));
    };
    assert(vp =~= vf);
}

/// Every row of a successful conversion holds exactly the walked columns
/// that feed an output.
proof fn lemma_rows_keys(page: Seq<u8>, lps: Seq<ItemIdData>, cols: Seq<PgColumn>, proj: Option<Seq<usize>>, i: int, r: int)
    requires
        0 <= i,
    ensures
        match spec_batch_rows(page, lps, cols, proj, i) {
            Some(Ok(rows)) => 0 <= r < rows.len() ==> forall|j: int|
                #[trigger] rows[r].contains_key(j) <==> (0 <= j < batch_walk_len(proj, cols.len() as int) && j
                    < cols.len() && batch_output_of(proj, j) is Some),
            _ => true,
        },
    decreases lps.len() - i,
{
    if i >= lps.len() {
        return;
    }
    let lp = lps[i];
    if lp.spec_lp_flags() != LP_NORMAL {
        lemma_rows_keys(page, lps, cols, proj, i + 1, r);
        return;
    }
    match spec_tuple_bytes(page, lp) {
        None => {
            lemma_rows_keys(page, lps, cols, proj, i + 1, r);
        },
        Some(raw) => match spec_parse_tuple(raw) {
            Err(_) => {
                lemma_rows_keys(page, lps, cols, proj, i + 1, r);
            },
            Ok((_, bitmap, data)) => {
                lemma_batch_walk_keys(cols, proj, bitmap, data, 0, 0);
                lemma_rows_keys(page, lps, cols, proj, i + 1, r - 1);
            },
        },
    }
}

/// A projected batch of a page agrees in shape with the full batch: where
/// both conversions succeed, the projected batch has one column per
/// projection entry, named as the schema column it reads, the full batch
/// has one per schema column, and all their columns hold the same number
/// of rows.
pub proof fn lemma_projected_batch_shape(
    page: Seq<u8>,
    lps: Seq<ItemIdData>,
    cols: Seq<PgColumn>,
    p: Seq<usize>,
    a: ArrowRecordBatch,
    b: ArrowRecordBatch,
)
    requires
        projection_in_range(Some(p), cols.len() as int),
        spec_batch_rows(page, lps, cols, None, 0) matches Some(Ok(rf)) && rows_batch_problem(rf, cols, None) is None
            && is_batch_of_rows(a, rf, cols, None),
        spec_batch_rows(page, lps, cols, Some(p), 0) matches Some(Ok(rp)) && rows_batch_problem(rp, cols, Some(p))
            is None && is_batch_of_rows(b, rp, cols, Some(p)),
    ensures
        b.columns@.len() == p.len(),
        a.columns@.len() == cols.len(),
        forall|k: int| 0 <= k < p.len() ==> (#[trigger] b.schema.fields@[k]).name@ == a.schema.fields@[p[k] as int].name@,
        forall|k: int, j: int| 0 <= k < b.columns@.len() && 0 <= j < a.columns@.len() ==> (#[trigger] b.columns@[k]).values@.len()
            == (#[trigger] a.columns@[j]).values@.len(),
{
    lemma_batch_rows_are_readable_tuples(page, lps, cols, None, a);
    lemma_batch_rows_are_readable_tuples(page, lps, cols, Some(p), b);
    assert forall|k: int| 0 <= k < p.len() implies (#[trigger] b.schema.fields@[k]).name@ == a.schema.fields@[p[k] as int].name@ by {
        assert(is_arrow_field_of(b.schema.fields@[k], cols[batch_source(Some(p), k)]));
        assert(is_arrow_field_of(a.schema.fields@[p[k] as int], cols[batch_source(None, p[k] as int)]));
    }
}

} // verus!
