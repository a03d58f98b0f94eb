//! Whether finished columns can form a record batch with the fields that
//! describe them: at least one column, no null where a field is not
//! nullable, columns of one length, and each column of its field's type.

use vstd::prelude::*;

use crate::codec::PgTypeId;
use crate::file::error::PgError;
use crate::types::arrow::{numeric_typmod_to_arrow_type, ArrowType};
use crate::types::column_builder::{values_view, ArrowArray, ArrowValue, ArrowValueView};
use crate::types::{spec_column_arrow_type, PgColumn};

verus! {

/// The data types of a list of columns.
pub open spec fn array_types(a: Seq<ArrowArray>) -> Seq<ArrowType> {
    a.map_values(|x: ArrowArray| x.data_type)
}

/// The values of a list of columns.
pub open spec fn array_values(a: Seq<ArrowArray>) -> Seq<Seq<Option<ArrowValueView>>> {
    a.map_values(|x: ArrowArray| values_view(x.values@))
}

/// Whether a column's values hold a null.
pub open spec fn holds_null(v: Seq<Option<ArrowValueView>>) -> bool {
    exists|i: int| 0 <= i < v.len() && #[trigger] v[i] is None
}

/// The detail of the error for a batch without columns.
pub open spec fn no_columns_detail() -> Seq<char> {
    "a record batch needs at least one column"@
}

/// The detail of the error for a null in a column whose field is not
/// nullable.
pub open spec fn non_nullable_detail(name: Seq<char>) -> Seq<char> {
    "column '"@ + name + "' is not nullable but holds nulls"@
}

/// The detail of the error for columns of different lengths.
pub open spec fn ragged_detail() -> Seq<char> {
    "the columns of a record batch differ in length"@
}

/// The detail of the error for a column of another type than its field.
pub open spec fn type_mismatch_detail(name: Seq<char>) -> Seq<char> {
    "column '"@ + name + "' does not have its field's data type"@
}

/// The first column from `j` on whose field is not nullable but whose
/// values hold a null.
pub open spec fn first_null_violation(cols: Seq<PgColumn>, values: Seq<Seq<Option<ArrowValueView>>>, j: int) -> Option<int>
    decreases cols.len() - j,
{
    if j < 0 || j >= cols.len() {
        None
    } else if !cols[j].nullable && holds_null(values[j]) {
        Some(j)
    } else {
        first_null_violation(cols, values, j + 1)
    }
}

/// The first column from `j` on whose data type is not its field's.
pub open spec fn first_type_mismatch(cols: Seq<PgColumn>, types: Seq<ArrowType>, j: int) -> Option<int>
    decreases cols.len() - j,
{
    if j < 0 || j >= cols.len() {
        None
    } else if types[j] != spec_column_arrow_type(cols[j].type_id, cols[j].typmod) {
        Some(j)
    } else {
        first_type_mismatch(cols, types, j + 1)
    }
}

/// Whether two columns of `values` differ in length.
pub open spec fn is_ragged(values: Seq<Seq<Option<ArrowValueView>>>) -> bool {
    exists|j: int| 0 <= j < values.len() && (#[trigger] values[j]).len() != values[0].len()
}

/// Why columns of data types `types` holding `values` cannot form a batch
/// whose fields are those of `cols` (checked in this order: no column, a
/// null under a non-nullable field, columns of different lengths, a column
/// of another type than its field); `None` when they can.
pub open spec fn batch_problem(cols: Seq<PgColumn>, types: Seq<ArrowType>, values: Seq<Seq<Option<ArrowValueView>>>) -> Option<Seq<char>> {
    if cols.len() == 0 {
        Some(no_columns_detail())
    } else if let Some(j) = first_null_violation(cols, values, 0) {
        Some(non_nullable_detail(cols[j].name@))
    } else if is_ragged(values) {
        Some(ragged_detail())
    } else if let Some(j) = first_type_mismatch(cols, types, 0) {
        Some(type_mismatch_detail(cols[j].name@))
    } else {
        None
    }
}

/// Whether two Arrow data types are equal.
fn arrow_type_eq(a: &ArrowType, b: &ArrowType) -> (r: bool)
    ensures
        r == (*a == *b),
    decreases a,
{
    match (a, b) {
        (ArrowType::Null, ArrowType::Null) => true,
        (ArrowType::Boolean, ArrowType::Boolean) => true,
        (ArrowType::Int16, ArrowType::Int16) => true,
        (ArrowType::Int32, ArrowType::Int32) => true,
        (ArrowType::Int64, ArrowType::Int64) => true,
        (ArrowType::UInt8, ArrowType::UInt8) => true,
        (ArrowType::UInt32, ArrowType::UInt32) => true,
        (ArrowType::UInt64, ArrowType::UInt64) => true,
        (ArrowType::Float32, ArrowType::Float32) => true,
        (ArrowType::Float64, ArrowType::Float64) => true,
        (ArrowType::Date32, ArrowType::Date32) => true,
        (ArrowType::Time64(x), ArrowType::Time64(y)) => *x == *y,
        (ArrowType::Timestamp(x, zx), ArrowType::Timestamp(y, zy)) => *x == *y && match (zx, zy) {
            (None, None) => true,
            (Some(p), Some(q)) => *p == *q,
            _ => false,
        },
        (ArrowType::Interval(x), ArrowType::Interval(y)) => *x == *y,
        (ArrowType::Utf8, ArrowType::Utf8) => true,
        (ArrowType::Binary, ArrowType::Binary) => true,
        (ArrowType::FixedSizeBinary(x), ArrowType::FixedSizeBinary(y)) => *x == *y,
        (ArrowType::Decimal128(p, s), ArrowType::Decimal128(q, t)) => *p == *q && *s == *t,
        (ArrowType::Decimal256(p, s), ArrowType::Decimal256(q, t)) => *p == *q && *s == *t,
        (ArrowType::List(x), ArrowType::List(y)) => arrow_type_eq(x, y),
        _ => false,
    }
}

/// The Arrow data type of a column's field.
fn field_type(col: &PgColumn) -> (r: ArrowType)
    ensures
        r == spec_column_arrow_type(col.type_id, col.typmod),
{
    if col.type_id == PgTypeId::Numeric {
        numeric_typmod_to_arrow_type(col.typmod)
    } else {
        col.type_id.arrow_type()
    }
}

/// Whether a column's values hold a null.
fn column_holds_null(values: &Vec<Option<ArrowValue>>) -> (r: bool)
    ensures
        r == holds_null(values_view(values@)),
{
    let ghost v = values_view(values@);
    let mut i: usize = 0;
    while i < values.len()
        invariant
            i <= values@.len(),
            v == values_view(values@),
            forall|k: int| 0 <= k < i ==> !(#[trigger] v[k] is None),
        decreases values@.len() - i,
    {
        if values[i].is_none() {
            assert(v[i as int] is None);
            return true;
        }
        i = i + 1;
    }
    false
}

/// "column 'name' ..." with `tail` after the name.
fn column_message(name: &String, tail: &str) -> (r: String)
    ensures
        r@ == "column '"@ + name@ + tail@,
{
    let mut s = String::new();
    s.append("column '");
    s.append(name.as_str());
    s.append(tail);
    proof {
        reveal_strlit("column '");
    }
    s
}

/// Check that `columns` can form a batch whose fields are those of `cols`
/// (see [`batch_problem`]), or give the error that tells why not.
pub fn check_batch(cols: &[PgColumn], columns: &[ArrowArray]) -> (r: Result<(), PgError>)
    requires
        cols@.len() == columns@.len(),
    ensures
        match batch_problem(cols@, array_types(columns@), array_values(columns@)) {
            None => r is Ok,
            Some(m) => r matches Err(e) && e matches PgError::ArrowConversionFailed { detail } && detail@ == m,
        },
{
    let ghost types = array_types(columns@);
    let ghost values = array_values(columns@);
    if cols.len() == 0 {
        proof {
            reveal_strlit("a record batch needs at least one column");
        }
        return Err(PgError::ArrowConversionFailed { detail: String::from_str("a record batch needs at least one column") });
    }
    let n = cols.len();
    let mut j: usize = 0;
    while j < n
        invariant
            n == cols@.len() == columns@.len(),
            j <= n,
            values == array_values(columns@),
            first_null_violation(cols@, values, 0) == first_null_violation(cols@, values, j as int),
        decreases n - j,
    {
        if !cols[j].nullable && column_holds_null(&columns[j].values) {
            proof {
                reveal_strlit("' is not nullable but holds nulls");
            }
            return Err(PgError::ArrowConversionFailed { detail: column_message(&cols[j].name, "' is not nullable but holds nulls") });
        }
        j = j + 1;
    }
    let len0 = columns[0].values.len();
    let mut j: usize = 0;
    while j < n
        invariant
            n == cols@.len() == columns@.len(),
            j <= n,
            values == array_values(columns@),
            first_null_violation(cols@, values, 0) is None,
            len0 == values[0].len(),
            forall|k: int| 0 <= k < j ==> (#[trigger] values[k]).len() == values[0].len(),
        decreases n - j,
    {
        if columns[j].values.len() != len0 {
            proof {
                reveal_strlit("the columns of a record batch differ in length");
                assert(values[j as int].len() != values[0].len());
            }
            return Err(PgError::ArrowConversionFailed { detail: String::from_str("the columns of a record batch differ in length") });
        }
        j = j + 1;
    }
    let mut j: usize = 0;
    while j < n
        invariant
            n == cols@.len() == columns@.len(),
            j <= n,
            values == array_values(columns@),
            types == array_types(columns@),
            first_null_violation(cols@, values, 0) is None,
            !is_ragged(values),
            first_type_mismatch(cols@, types, 0) == first_type_mismatch(cols@, types, j as int),
        decreases n - j,
    {
        let ft = field_type(&cols[j]);
        if !arrow_type_eq(&columns[j].data_type, &ft) {
            proof {
                reveal_strlit("' does not have its field's data type");
            }
            return Err(PgError::ArrowConversionFailed { detail: column_message(&cols[j].name, "' does not have its field's data type") });
        }
        j = j + 1;
    }
    Ok(())
}

} // verus!
