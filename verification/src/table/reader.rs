//! The catalog-caching table reader: which table is selected, and the
//! schemas the cached `pg_class` and `pg_attribute` rows describe.
//!
//! Reading the catalogs and the table files is I/O and stays with the
//! caller, which hands the decoded catalog rows in.

use vstd::prelude::*;

use crate::file::error::{PgError, Result};
use crate::types::pg_type::{PgAttribute, PgClass};
use crate::types::{is_schema_of_attributes, PgSchema};

verus! {

/// A relation OID or database OID, as a `usize`.
pub type Oid = usize;

/// `pg_class.relkind` of an ordinary table: `'r'`.
pub const RELKIND_ORDINARY_TABLE: u8 = 114;

/// The `pg_attribute` rows of the relation `oid`, in their order.
pub open spec fn attributes_of(attrs: Seq<PgAttribute>, oid: u32) -> Seq<PgAttribute> {
    attrs.filter(|a: PgAttribute| a.attrelid == oid)
}

/// The ordinary tables among `classes`, in their order.
pub open spec fn ordinary_tables(classes: Seq<PgClass>) -> Seq<PgClass> {
    classes.filter(|c: PgClass| c.relkind == RELKIND_ORDINARY_TABLE)
}

/// `i` is the first ordinary table of `classes` named `name`.
pub open spec fn is_first_table_named(classes: Seq<PgClass>, name: Seq<char>, i: int) -> bool {
    &&& 0 <= i < classes.len()
    &&& classes[i].relname@ == name && classes[i].relkind == RELKIND_ORDINARY_TABLE
    &&& forall|j: int| 0 <= j < i ==> !(classes[j].relname@ == name && classes[j].relkind == RELKIND_ORDINARY_TABLE)
}

/// Reads tables of one database through cached catalog rows.
///
/// The `pg_class` and `pg_attribute` rows are kept for the reader's
/// lifetime (until [`set_db`](PgTableReader::set_db) replaces them); the
/// selected table and its schema are kept by
/// [`set_table`](PgTableReader::set_table).
#[derive(Debug)]
pub struct PgTableReader {
    db_id: Oid,
    /// Cached pg_class rows.
    pg_class_cache: Vec<PgClass>,
    /// Cached pg_attribute rows.
    pg_attribute_cache: Vec<PgAttribute>,
    /// The selected table.
    current_table: Option<PgClass>,
    /// The schema of the selected table.
    current_schema: Option<PgSchema>,
}

impl PgTableReader {
    /// The database.
    pub closed spec fn spec_db_id(&self) -> Oid {
        self.db_id
    }

    /// The cached `pg_class` rows.
    pub closed spec fn spec_classes(&self) -> Seq<PgClass> {
        self.pg_class_cache@
    }

    /// The cached `pg_attribute` rows.
    pub closed spec fn spec_attributes(&self) -> Seq<PgAttribute> {
        self.pg_attribute_cache@
    }

    /// The selected table, if any.
    pub closed spec fn spec_table(&self) -> Option<PgClass> {
        self.current_table
    }

    /// The schema of the selected table, if any.
    pub closed spec fn spec_schema(&self) -> Option<PgSchema> {
        self.current_schema
    }

    /// A reader of database `db_id` over its catalog rows, with no table
    /// selected.
    pub fn new(db_id: Oid, pg_class_cache: Vec<PgClass>, pg_attribute_cache: Vec<PgAttribute>) -> (r: Self)
        ensures
            r.spec_db_id() == db_id,
            r.spec_classes() == pg_class_cache@,
            r.spec_attributes() == pg_attribute_cache@,
            r.spec_table() is None,
            r.spec_schema() is None,
    {
        PgTableReader { db_id, pg_class_cache, pg_attribute_cache, current_table: None, current_schema: None }
    }

    /// Select the first ordinary table (`relkind = 'r'`) named
    /// `table_name`, with the schema its `pg_attribute` rows describe. An
    /// unknown name gives `TableNotFound` and changes nothing.
    pub fn set_table(&mut self, table_name: &str) -> (r: Result<()>)
        ensures
            final(self).spec_db_id() == old(self).spec_db_id(),
            final(self).spec_classes() == old(self).spec_classes(),
            final(self).spec_attributes() == old(self).spec_attributes(),
            match r {
                Ok(()) => exists|i: int| {
                    &&& is_first_table_named(old(self).spec_classes(), table_name@, i)
                    &&& final(self).spec_table() == Some(old(self).spec_classes()[i])
                    &&& final(self).spec_schema() matches Some(s) && is_schema_of_attributes(
                        s,
                        table_name@,
                        attributes_of(old(self).spec_attributes(), old(self).spec_classes()[i].oid),
                    )
                },
                Err(e) => {
                    &&& e matches PgError::TableNotFound { name } && name@ == table_name@
                    &&& forall|i: int| !is_first_table_named(old(self).spec_classes(), table_name@, i)
                    &&& final(self).spec_table() == old(self).spec_table()
                    &&& final(self).spec_schema() == old(self).spec_schema()
                },
            },
    {
        let mut i: usize = 0;
        while i < self.pg_class_cache.len()
            invariant
                *self == *old(self),
                i <= self.pg_class_cache@.len(),
                forall|j: int| 0 <= j < i ==> !(self.pg_class_cache@[j].relname@ == table_name@
                    && self.pg_class_cache@[j].relkind == RELKIND_ORDINARY_TABLE),
            decreases self.pg_class_cache@.len() - i,
        {
            let c = &self.pg_class_cache[i];
            if crate::types::str_eq(c.relname.as_str(), table_name) && c.relkind == RELKIND_ORDINARY_TABLE {
                let table = c.clone();
                let attrs = attributes_for(&self.pg_attribute_cache, table.oid);
                let schema = PgSchema::from_attributes(table.relname.as_str(), attrs.as_slice());
                assert(is_first_table_named(self.pg_class_cache@, table_name@, i as int));
                self.current_table = Some(table);
                self.current_schema = Some(schema);
                return Ok(());
            }
            i = i + 1;
        }
        proof {
            assert forall|i: int| !is_first_table_named(self.pg_class_cache@, table_name@, i) by {
                if 0 <= i < self.pg_class_cache@.len() {
                    assert(!(self.pg_class_cache@[i].relname@ == table_name@ && self.pg_class_cache@[i].relkind
                        == RELKIND_ORDINARY_TABLE));
                }
            }
        }
        Err(PgError::TableNotFound { name: table_name.to_owned() })
    }

    /// Every ordinary table (`relkind = 'r'`) of the cached `pg_class` rows,
    /// in their order, with the schema its `pg_attribute` rows describe.
    pub fn get_all_tables(&self) -> (r: Result<Vec<(PgClass, PgSchema)>>)
        ensures
            r matches Ok(t) && {
                let tables = ordinary_tables(self.spec_classes());
                &&& t@.len() == tables.len()
                &&& forall|k: int| 0 <= k < tables.len() ==> {
                    &&& (#[trigger] t@[k]).0 == tables[k]
                    &&& is_schema_of_attributes(t@[k].1, tables[k].relname@, attributes_of(self.spec_attributes(), tables[k].oid))
                }
            },
    {
        let ghost pred = |c: PgClass| c.relkind == RELKIND_ORDINARY_TABLE;
        let mut out: Vec<(PgClass, PgSchema)> = Vec::new();
        let mut i: usize = 0;
        while i < self.pg_class_cache.len()
            invariant
                i <= self.pg_class_cache@.len(),
                pred == (|c: PgClass| c.relkind == RELKIND_ORDINARY_TABLE),
                out@.len() == self.pg_class_cache@.subrange(0, i as int).filter(pred).len(),
                forall|k: int| 0 <= k < out@.len() ==> {
                    let tk = self.pg_class_cache@.subrange(0, i as int).filter(pred)[k];
                    &&& (#[trigger] out@[k]).0 == tk
                    &&& is_schema_of_attributes(out@[k].1, tk.relname@, attributes_of(self.pg_attribute_cache@, tk.oid))
                },
            decreases self.pg_class_cache@.len() - i,
        {
            proof {
                reveal_with_fuel(Seq::filter, 1);
                assert(self.pg_class_cache@.subrange(0, i as int + 1).drop_last() =~= self.pg_class_cache@.subrange(
                    0,
                    i as int,
                ));
            }
            let c = &self.pg_class_cache[i];
            if c.relkind == RELKIND_ORDINARY_TABLE {
                let attrs = attributes_for(&self.pg_attribute_cache, c.oid);
                let schema = PgSchema::from_attributes(c.relname.as_str(), attrs.as_slice());
                out.push((c.clone(), schema));
            }
            i = i + 1;
        }
        assert(self.pg_class_cache@.subrange(0, self.pg_class_cache@.len() as int) =~= self.pg_class_cache@);
        Ok(out)
    }

    /// Switch to database `db_id` with its catalog rows; the table
    /// selection is cleared.
    pub fn set_db(&mut self, db_id: Oid, pg_class_cache: Vec<PgClass>, pg_attribute_cache: Vec<PgAttribute>)
        ensures
            final(self).spec_db_id() == db_id,
            final(self).spec_classes() == pg_class_cache@,
            final(self).spec_attributes() == pg_attribute_cache@,
            final(self).spec_table() is None,
            final(self).spec_schema() is None,
    {
        self.db_id = db_id;
        self.current_table = None;
        self.current_schema = None;
        self.pg_class_cache = pg_class_cache;
        self.pg_attribute_cache = pg_attribute_cache;
    }

    /// The schema of the selected table, if any.
    pub fn schema(&self) -> (r: Option<&PgSchema>)
        ensures
            match (r, self.spec_schema()) {
                (Some(s), Some(t)) => *s == t,
                (None, None) => true,
                _ => false,
            },
    {
        self.current_schema.as_ref()
    }

    /// The name of the selected table, if any.
    pub fn table_name(&self) -> (r: Option<&str>)
        ensures
            match (r, self.spec_table()) {
                (Some(s), Some(t)) => s@ == t.relname@,
                (None, None) => true,
                _ => false,
            },
    {
        match &self.current_table {
            Some(t) => Some(t.relname.as_str()),
            None => None,
        }
    }

    /// The database.
    pub fn db_id(&self) -> (r: Oid)
        ensures
            r == self.spec_db_id(),
    {
        self.db_id
    }

    /// The selected table and its schema; `NoTableSelected` when no table
    /// is selected.
    pub fn require_table(&self) -> (r: Result<(&PgClass, &PgSchema)>)
        ensures
            match (self.spec_table(), self.spec_schema()) {
                (Some(t), Some(s)) => r matches Ok((rt, rs)) && *rt == t && *rs == s,
                _ => r == Err::<(&PgClass, &PgSchema), PgError>(PgError::NoTableSelected),
            },
    {
        match (&self.current_table, &self.current_schema) {
            (Some(table), Some(schema)) => Ok((table, schema)),
            _ => Err(PgError::NoTableSelected),
        }
    }
}

/// The `pg_attribute` rows of relation `oid`, in their order.
fn attributes_for(attrs: &Vec<PgAttribute>, oid: u32) -> (r: Vec<PgAttribute>)
    ensures
        r@ == attributes_of(attrs@, oid),
{
    let ghost pred = |a: PgAttribute| a.attrelid == oid;
    let mut out: Vec<PgAttribute> = Vec::new();
    let mut i: usize = 0;
    while i < attrs.len()
        invariant
            i <= attrs@.len(),
            pred == (|a: PgAttribute| a.attrelid == oid),
            out@ == attrs@.subrange(0, i as int).filter(pred),
        decreases attrs@.len() - i,
    {
        proof {
            reveal_with_fuel(Seq::filter, 1);
            assert(attrs@.subrange(0, i as int + 1).drop_last() =~= attrs@.subrange(0, i as int));
        }
        if attrs[i].attrelid == oid {
            out.push(attrs[i].clone());
        }
        i = i + 1;
    }
    assert(attrs@.subrange(0, attrs@.len() as int) =~= attrs@);
    out
}

/// After a table is selected, the reader reports that table's name and a
/// schema named after it; selecting an unknown name leaves the selection
/// as it was.
pub proof fn lemma_set_table_selects(before: PgTableReader, after: PgTableReader, name: Seq<char>, ok: bool)
    requires
        ok ==> exists|i: int| {
            &&& is_first_table_named(before.spec_classes(), name, i)
            &&& after.spec_table() == Some(before.spec_classes()[i])
            &&& after.spec_schema() matches Some(s) && is_schema_of_attributes(
                s,
                name,
                attributes_of(before.spec_attributes(), before.spec_classes()[i].oid),
            )
        },
        !ok ==> after.spec_table() == before.spec_table() && after.spec_schema() == before.spec_schema(),
    ensures
        ok ==> (after.spec_table() matches Some(t) && t.relname@ == name && t.relkind == RELKIND_ORDINARY_TABLE),
        ok ==> (after.spec_schema() matches Some(s) && s.spec_name() == name),
        !ok ==> after.spec_table() == before.spec_table(),
{
}

} // verus!
