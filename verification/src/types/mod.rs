//! Relation schemas, system catalogs and the Arrow model of column data.

pub mod arrow;
pub mod batch;
pub mod column_builder;
pub mod numeric;
pub mod pg_type;

use vstd::prelude::*;

use crate::codec::{PgTypeId, PgTypeLen};
use crate::types::arrow::{numeric_typmod_to_arrow_type, spec_numeric_typmod_to_arrow_type, ArrowField, ArrowSchema, ArrowType};
pub use crate::types::pg_type::{PgAttribute, PgClass, PgProc, PgType};
pub use crate::heap::tuple::PgAlign;

verus! {

/// A single column in a PostgreSQL relation, carrying the metadata needed
/// for tuple decoding and Arrow conversion.
#[derive(Debug)]
pub struct PgColumn {
    /// Column name (from pg_attribute.attname)
    pub name: String,
    /// Type OID (from pg_attribute.atttypid)
    pub type_id: PgTypeId,
    /// Whether the column allows NULLs (inverse of pg_attribute.attnotnull)
    pub nullable: bool,
    /// Type modifier (atttypmod): precision/scale for NUMERIC, length for
    /// VARCHAR, ...; -1 means "no modifier".
    pub typmod: i32,
}

impl Clone for PgColumn {
    fn clone(&self) -> (r: Self)
        ensures
            r == *self,
    {
        PgColumn { name: self.name.clone(), type_id: self.type_id, nullable: self.nullable, typmod: self.typmod }
    }
}

/// The Arrow data type of a column of type `t` with type modifier `typmod`:
/// NUMERIC columns take their decimal precision and scale from the typmod.
pub open spec fn spec_column_arrow_type(t: PgTypeId, typmod: i32) -> ArrowType {
    if t == PgTypeId::Numeric {
        spec_numeric_typmod_to_arrow_type(typmod)
    } else {
        t.spec_arrow_type()
    }
}

impl PgColumn {
    /// Create a new column descriptor.
    pub fn new(name: &str, type_id: PgTypeId, nullable: bool, typmod: i32) -> (r: Self)
        ensures
            r.name@ == name@,
            r.type_id == type_id,
            r.nullable == nullable,
            r.typmod == typmod,
    {
        PgColumn { name: name.to_owned(), type_id, nullable, typmod }
    }

    /// Convert to an Arrow field.
    pub fn to_arrow_field(&self) -> (r: ArrowField)
        ensures
            r.name@ == self.name@,
            r.data_type == spec_column_arrow_type(self.type_id, self.typmod),
            r.nullable == self.nullable,
    {
        let dt = if self.type_id == PgTypeId::Numeric {
            numeric_typmod_to_arrow_type(self.typmod)
        } else {
            self.type_id.arrow_type()
        };
        ArrowField { name: self.name.clone(), data_type: dt, nullable: self.nullable }
    }
}

/// The column a `pg_attribute` row describes: an unknown type OID is read
/// as `text`, and the column is nullable unless `attnotnull`.
pub open spec fn spec_column_of(attr: PgAttribute) -> PgColumn {
    PgColumn {
        name: attr.attname,
        type_id: match PgTypeId::spec_from_oid(attr.atttypid) {
            Some(t) => t,
            None => PgTypeId::Text,
        },
        nullable: !attr.attnotnull,
        typmod: attr.atttypmod,
    }
}

impl<'a> From<&'a PgAttribute> for PgColumn {
    /// Build a `PgColumn` from a decoded `PgAttribute` row.
    fn from(attr: &'a PgAttribute) -> (r: Self) {
        let type_id = match PgTypeId::try_from_oid(attr.atttypid) {
            Ok(t) => t,
            Err(_) => PgTypeId::Text,
        };
        PgColumn {
            name: attr.attname.clone(),
            type_id,
            nullable: !attr.attnotnull,
            typmod: attr.atttypmod,
        }
    }
}

impl<'a> vstd::std_specs::convert::FromSpecImpl<&'a PgAttribute> for PgColumn {
    open spec fn obeys_from_spec() -> bool {
        true
    }

    open spec fn from_spec(attr: &'a PgAttribute) -> PgColumn {
        spec_column_of(*attr)
    }
}

/// Schema of a PostgreSQL relation: an ordered list of columns, in on-disk
/// tuple order.
#[derive(Debug)]
pub struct PgSchema {
    /// Relation name
    pub name: String,
    /// Columns in tuple order
    columns: Vec<PgColumn>,
}

impl Clone for PgSchema {
    fn clone(&self) -> (r: Self)
        ensures
            r.spec_name() == self.spec_name(),
            r@ == self@,
    {
        PgSchema { name: self.name.clone(), columns: clone_columns(&self.columns) }
    }
}

/// A copy of a column list.
fn clone_columns(columns: &Vec<PgColumn>) -> (r: Vec<PgColumn>)
    ensures
        r@ == columns@,
{
    let mut out: Vec<PgColumn> = Vec::with_capacity(columns.len());
    let mut i: usize = 0;
    while i < columns.len()
        invariant
            i <= columns@.len(),
            out@ == columns@.subrange(0, i as int),
        decreases columns@.len() - i,
    {
        out.push(columns[i].clone());
        i = i + 1;
    }
    assert(out@ =~= columns@);
    out
}

impl View for PgSchema {
    type V = Seq<PgColumn>;

    /// The columns of the schema, in tuple order.
    closed spec fn view(&self) -> Seq<PgColumn> {
        self.columns@
    }
}

impl PgSchema {
    /// The relation name.
    pub closed spec fn spec_name(&self) -> Seq<char> {
        self.name@
    }

    /// Create a new schema with the given name and columns.
    pub fn new(name: &str, columns: Vec<PgColumn>) -> (r: Self)
        ensures
            r.spec_name() == name@,
            r@ == columns@,
    {
        PgSchema { name: name.to_owned(), columns }
    }

    /// The relation name.
    pub fn name(&self) -> (r: &str)
        ensures
            r@ == self.spec_name(),
    {
        self.name.as_str()
    }

    /// Convert to an Arrow schema: one field per column, in order.
    pub fn to_arrow_schema(&self) -> (r: ArrowSchema)
        ensures
            r.fields@.len() == self@.len(),
            forall|i: int| 0 <= i < self@.len() ==> {
                &&& (#[trigger] r.fields@[i]).name@ == self@[i].name@
                &&& r.fields@[i].data_type == spec_column_arrow_type(self@[i].type_id, self@[i].typmod)
                &&& r.fields@[i].nullable == self@[i].nullable
            },
    {
        let mut fields: Vec<ArrowField> = Vec::with_capacity(self.columns.len());
        let mut i: usize = 0;
        while i < self.columns.len()
            invariant
                i <= self.columns@.len(),
                fields@.len() == i,
                forall|j: int| 0 <= j < i ==> {
                    &&& (#[trigger] fields@[j]).name@ == self.columns@[j].name@
                    &&& fields@[j].data_type == spec_column_arrow_type(self.columns@[j].type_id, self.columns@[j].typmod)
                    &&& fields@[j].nullable == self.columns@[j].nullable
                },
            decreases self.columns@.len() - i,
        {
            fields.push(self.columns[i].to_arrow_field());
            i = i + 1;
        }
        ArrowSchema { fields }
    }

    /// Number of columns.
    pub fn num_columns(&self) -> (r: usize)
        ensures
            r == self@.len(),
    {
        self.columns.len()
    }

    /// Get a column by index (0-based, in tuple order).
    pub fn column(&self, index: usize) -> (r: Option<&PgColumn>)
        ensures
            index < self@.len() ==> r == Some(&self@[index as int]),
            index >= self@.len() ==> r is None,
    {
        if index < self.columns.len() {
            Some(&self.columns[index])
        } else {
            None
        }
    }

    /// Get the first column with the given name (linear scan).
    pub fn column_by_name(&self, name: &str) -> (r: Option<&PgColumn>)
        ensures
            match r {
                Some(c) => exists|i: int| first_named(self@, name@, i) && c == self@[i],
                None => forall|i: int| 0 <= i < self@.len() ==> self@[i].name@ != name@,
            },
    {
        match self.position_of(name) {
            Some(i) => Some(&self.columns[i]),
            None => None,
        }
    }

    /// The index of the first column with the given name.
    pub fn position_of(&self, name: &str) -> (r: Option<usize>)
        ensures
            match r {
                Some(i) => first_named(self@, name@, i as int),
                None => forall|i: int| 0 <= i < self@.len() ==> self@[i].name@ != name@,
            },
    {
        let mut i: usize = 0;
        while i < self.columns.len()
            invariant
                i <= self.columns@.len(),
                forall|j: int| 0 <= j < i ==> self.columns@[j].name@ != name@,
            decreases self.columns@.len() - i,
        {
            if str_eq(self.columns[i].name.as_str(), name) {
                return Some(i);
            }
            i = i + 1;
        }
        None
    }

    /// The columns, in tuple order.
    pub fn columns(&self) -> (r: &[PgColumn])
        ensures
            r@ == self@,
    {
        self.columns.as_slice()
    }

    /// A sub-schema holding the columns at `indices`, in that order: so
    /// `project(&[2, 0])` yields column 2 first, then column 0.
    pub fn project(&self, indices: &[usize]) -> (r: PgSchema)
        requires
            forall|k: int| 0 <= k < indices@.len() ==> indices@[k] < self@.len(),
        ensures
            r.spec_name() == self.spec_name(),
            r@.len() == indices@.len(),
            forall|k: int| 0 <= k < indices@.len() ==> #[trigger] r@[k] == self@[indices@[k] as int],
    {
        let mut columns: Vec<PgColumn> = Vec::with_capacity(indices.len());
        let mut k: usize = 0;
        while k < indices.len()
            invariant
                k <= indices@.len(),
                forall|j: int| 0 <= j < indices@.len() ==> indices@[j] < self.columns@.len(),
                columns@.len() == k,
                forall|j: int| 0 <= j < k ==> #[trigger] columns@[j] == self.columns@[indices@[j] as int],
            decreases indices@.len() - k,
        {
            columns.push(self.columns[indices[k]].clone());
            k = k + 1;
        }
        PgSchema::new(self.name.as_str(), columns)
    }
}

// ── Schemas from pg_attribute rows ───────────────────────────────────────

/// A user column's row: not dropped, and not a system column (`attnum > 0`).
pub open spec fn is_user_attribute(a: PgAttribute) -> bool {
    !a.attisdropped && a.attnum > 0
}

/// The user columns' rows of `attrs`, in their order.
pub open spec fn user_attributes(attrs: Seq<PgAttribute>) -> Seq<PgAttribute> {
    attrs.filter(|a: PgAttribute| is_user_attribute(a))
}

/// Position `x` comes before position `y` of `s` in `attnum` order, ties
/// broken by position (the order of a stable sort by `attnum`).
pub open spec fn attnum_before(s: Seq<PgAttribute>, x: int, y: int) -> bool {
    s[x].attnum < s[y].attnum || (s[x].attnum == s[y].attnum && x < y)
}

/// `perm` lists the positions of `s` in `attnum` order, ties in their
/// input order: it is the permutation a stable sort by `attnum` applies.
pub open spec fn is_attnum_order(s: Seq<PgAttribute>, perm: Seq<int>) -> bool {
    &&& perm.len() == s.len()
    &&& forall|k: int| 0 <= k < perm.len() ==> 0 <= #[trigger] perm[k] < s.len()
    &&& forall|k: int, l: int| 0 <= k < l < perm.len() ==> attnum_before(s, #[trigger] perm[k], #[trigger] perm[l])
}

/// `schema` is the schema named `name` that the `pg_attribute` rows
/// `attrs` describe: the user columns' rows, in `attnum` order (ties in
/// their order), each as its column.
pub open spec fn is_schema_of_attributes(schema: PgSchema, name: Seq<char>, attrs: Seq<PgAttribute>) -> bool {
    &&& schema.spec_name() == name
    &&& exists|perm: Seq<int>| {
        &&& is_attnum_order(user_attributes(attrs), perm)
        &&& schema@.len() == perm.len()
        &&& forall|k: int| 0 <= k < perm.len() ==> #[trigger] schema@[k] == spec_column_of(user_attributes(attrs)[perm[k]])
    }
}

/// The positions of the user columns' rows among `attrs`.
fn user_attribute_positions(attrs: &[PgAttribute]) -> (r: Vec<usize>)
    ensures
        r@.len() == user_attributes(attrs@).len(),
        forall|k: int| 0 <= k < r@.len() ==> #[trigger] r@[k] < attrs@.len() && attrs@[r@[k] as int] == user_attributes(attrs@)[k],
{
    let ghost pred = |a: PgAttribute| is_user_attribute(a);
    let mut r: Vec<usize> = Vec::new();
    let mut i: usize = 0;
    while i < attrs.len()
        invariant
            i <= attrs@.len(),
            pred == (|a: PgAttribute| is_user_attribute(a)),
            r@.len() == attrs@.subrange(0, i as int).filter(pred).len(),
            forall|k: int| 0 <= k < r@.len() ==> #[trigger] r@[k] < i && attrs@[r@[k] as int] == attrs@.subrange(0, i as int).filter(pred)[k],
        decreases attrs@.len() - i,
    {
        proof {
            reveal_with_fuel(Seq::filter, 1);
            assert(attrs@.subrange(0, i as int + 1).drop_last() =~= attrs@.subrange(0, i as int));
        }
        if !attrs[i].attisdropped && attrs[i].attnum > 0 {
            r.push(i);
        }
        i = i + 1;
    }
    assert(attrs@.subrange(0, attrs@.len() as int) =~= attrs@);
    r
}

/// Whether user row `x` comes before user row `y` in `attnum` order
/// (see [`attnum_before`]).
fn sorts_before(attrs: &[PgAttribute], pos: &Vec<usize>, x: usize, y: usize) -> (r: bool)
    requires
        x < pos@.len(),
        y < pos@.len(),
        pos@.len() == user_attributes(attrs@).len(),
        forall|k: int| 0 <= k < pos@.len() ==> #[trigger] pos@[k] < attrs@.len() && attrs@[pos@[k] as int] == user_attributes(attrs@)[k],
    ensures
        r == attnum_before(user_attributes(attrs@), x as int, y as int),
{
    let kx = attrs[pos[x]].attnum;
    let ky = attrs[pos[y]].attnum;
    kx < ky || (kx == ky && x < y)
}

impl PgSchema {
    /// Build a schema from `pg_attribute` rows.
    ///
    /// Dropped columns (`attisdropped`) and system columns (`attnum <= 0`)
    /// are left out; the rest are ordered by `attnum` (rows with equal
    /// `attnum` keep their order), which is the on-disk tuple order.
    pub fn from_attributes(name: &str, attrs: &[PgAttribute]) -> (r: Self)
        ensures
            is_schema_of_attributes(r, name@, attrs@),
    {
        let ghost s = user_attributes(attrs@);
        let pos = user_attribute_positions(attrs);
        let m = pos.len();
        // Positions 0..m of the user rows, sorted by (attnum, position).
        let mut perm: Vec<usize> = Vec::with_capacity(m);
        let mut i: usize = 0;
        while i < m
            invariant
                i <= m,
                perm@.len() == i,
                forall|k: int| 0 <= k < i ==> #[trigger] perm@[k] == k,
            decreases m - i,
        {
            perm.push(i);
            i = i + 1;
        }
        let mut i: usize = 1;
        while i < m
            invariant
                m == pos@.len(),
                m == s.len(),
                s == user_attributes(attrs@),
                forall|k: int| 0 <= k < pos@.len() ==> #[trigger] pos@[k] < attrs@.len() && attrs@[pos@[k] as int] == s[k],
                perm@.len() == m,
                1 <= i || m == 0,
                forall|k: int| 0 <= k < m ==> #[trigger] perm@[k] < m,
                forall|a: int, b: int| 0 <= a < m && 0 <= b < m && a != b ==> #[trigger] perm@[a] != #[trigger] perm@[b],
                forall|a: int, b: int| 0 <= a < b < i && b < m ==> attnum_before(s, #[trigger] perm@[a] as int, #[trigger] perm@[b] as int),
            decreases m - i,
        {
            // Insert perm[i] into the sorted prefix perm[0..i].
            let mut j: usize = i;
            while j > 0 && sorts_before(attrs, &pos, perm[j], perm[j - 1])
                invariant
                    m == pos@.len(),
                    m == s.len(),
                    s == user_attributes(attrs@),
                    forall|k: int| 0 <= k < pos@.len() ==> #[trigger] pos@[k] < attrs@.len() && attrs@[pos@[k] as int] == s[k],
                    perm@.len() == m,
                    0 <= j <= i < m,
                    forall|k: int| 0 <= k < m ==> #[trigger] perm@[k] < m,
                    forall|a: int, b: int| 0 <= a < m && 0 <= b < m && a != b ==> #[trigger] perm@[a] != #[trigger] perm@[b],
                    forall|a: int, b: int| 0 <= a < b <= i && a != j && b != j ==> attnum_before(s, #[trigger] perm@[a] as int, #[trigger] perm@[b] as int),
                    forall|b: int| j < b <= i ==> attnum_before(s, perm@[j as int] as int, #[trigger] perm@[b] as int),
                decreases j,
            {
                let x = perm[j];
                let y = perm[j - 1];
                perm.set(j, y);
                perm.set(j - 1, x);
                j = j - 1;
            }
            proof {
                if j > 0 {
                    let x = perm@[j as int] as int;
                    let y = perm@[j - 1] as int;
                    assert(x != y);
                    assert(attnum_before(s, y, x));
                }
            }
            i = i + 1;
        }
        // The columns, in that order.
        let mut columns: Vec<PgColumn> = Vec::with_capacity(m);
        let mut k: usize = 0;
        while k < m
            invariant
                k <= m,
                m == pos@.len(),
                m == s.len(),
                perm@.len() == m,
                forall|q: int| 0 <= q < m ==> #[trigger] perm@[q] < m,
                forall|q: int| 0 <= q < pos@.len() ==> #[trigger] pos@[q] < attrs@.len() && attrs@[pos@[q] as int] == s[q],
                columns@.len() == k,
                forall|q: int| 0 <= q < k ==> #[trigger] columns@[q] == spec_column_of(s[perm@[q] as int]),
            decreases m - k,
        {
            let a = &attrs[pos[perm[k]]];
            columns.push(PgColumn::from(a));
            k = k + 1;
        }
        let ghost p = perm@.map_values(|x: usize| x as int);
        proof {
            assert(is_attnum_order(s, p));
        }
        PgSchema::new(name, columns)
    }
}

/// `i` is the position of the first column of `columns` named `name`.
pub open spec fn first_named(columns: Seq<PgColumn>, name: Seq<char>, i: int) -> bool {
    &&& 0 <= i < columns.len()
    &&& columns[i].name@ == name
    &&& forall|j: int| 0 <= j < i ==> columns[j].name@ != name
}

/// Whether two strings hold the same characters, compared through their
/// UTF-8 bytes (the encoding is one-to-one).
pub(crate) fn str_eq(a: &str, b: &str) -> (r: bool)
    ensures
        r == (a@ == b@),
{
    let x = a.as_bytes();
    let y = b.as_bytes();
    proof {
        vstd::utf8::encode_utf8_decode_utf8(a@);
        vstd::utf8::encode_utf8_decode_utf8(b@);
        assert(x@ == vstd::utf8::encode_utf8(a@));
        assert(y@ == vstd::utf8::encode_utf8(b@));
    }
    if x.len() != y.len() {
        return false;
    }
    let mut i: usize = 0;
    while i < x.len()
        invariant
            i <= x@.len(),
            x@.len() == y@.len(),
            x@ == vstd::utf8::encode_utf8(a@),
            y@ == vstd::utf8::encode_utf8(b@),
            forall|j: int| 0 <= j < i ==> x@[j] == y@[j],
        decreases x@.len() - i,
    {
        if x[i] != y[i] {
            assert(x@[i as int] != y@[i as int]);
            assert(x@ != y@);
            return false;
        }
        i = i + 1;
    }
    assert(x@ =~= y@);
    true
}

} // verus!
