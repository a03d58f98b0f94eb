//! Rust representations of the fixed-width portion of PostgreSQL's system
//! catalogs, and their decoding from heap tuples.

use vstd::prelude::*;

use crate::codec::datum::{decode_datum_ok, spec_decode_datum, DecodeErrorView, PgDatumView};
use crate::codec::{PgDatum, PgTypeId};
use crate::file::error::{PgError, Result};
use crate::messages::decode_error_text;
use crate::heap::tuple::{
    att_align, bitmap_says_null, lemma_columns_ok_within, lemma_decode_columns_prefix, spec_att_align, spec_columns_ok, spec_decode_columns,
    ColumnSearchArg, HeapTupleData,
};
use crate::table::{lemma_decode_within, lemma_prepend_push, prepend};
use crate::types::{PgColumn, PgSchema};

verus! {

///
/// Single-precision floating-point fields hold their IEEE-754 bit pattern.
#[derive(Debug)]
pub struct PgClass {
    /// pg_class.oid — relation object identifier
    pub oid: u32,
    /// Class name
    pub relname: String,
    /// OID of namespace (schema) containing this relation
    pub relnamespace: u32,
    /// OID of entry in pg_type for this relation's implicit row type
    pub reltype: u32,
    /// OID of pg_type entry for underlying composite type (0 if none)
    pub reloftype: u32,
    /// Relation owner (references pg_authid.oid)
    pub relowner: u32,
    /// Access method OID; 0 if not a table/index (references pg_am.oid)
    pub relam: u32,
    /// Physical storage filenode; 0 means "mapped" (see relmapper.c)
    pub relfilenode: u32,
    /// Tablespace OID; 0 means default for database
    pub reltablespace: u32,
    /// Estimated number of disk blocks (not always up-to-date)
    pub relpages: i32,
    /// Estimated number of live rows; -1 means unknown
    pub reltuples: u32,
    /// Number of all-visible blocks (not always up-to-date)
    pub relallvisible: i32,
    /// Number of all-frozen blocks (not always up-to-date)
    pub relallfrozen: i32,
    /// OID of TOAST table for this relation; 0 if none
    pub reltoastrelid: u32,
    /// True if the relation has (or has had) indexes
    pub relhasindex: bool,
    /// True if the relation is shared across all databases
    pub relisshared: bool,
    /// Persistence: 'p' = permanent, 'u' = unlogged, 't' = temporary
    pub relpersistence: u8,
    /// Relation kind: 'r' = table, 'i' = index, 'S' = sequence,
    /// 't' = TOAST, 'v' = view, 'm' = materialized view,
    /// 'c' = composite type, 'f' = foreign table, 'p' = partitioned table,
    /// 'I' = partitioned index
    pub relkind: u8,
    /// Number of user-visible columns (system columns excluded)
    pub relnatts: i16,
    /// Number of CHECK constraints
    pub relchecks: i16,
    /// True if the relation has (or has had) rules
    pub relhasrules: bool,
    /// True if the relation has (or has had) triggers
    pub relhastriggers: bool,
    /// True if the relation has (or has had) child tables or indexes
    pub relhassubclass: bool,
    /// True if row-level security is enabled
    pub relrowsecurity: bool,
    /// True if row-level security is forced for the table owner
    pub relforcerowsecurity: bool,
    /// True if the materialized view currently holds query results
    pub relispopulated: bool,
    /// Replica identity setting: 'd' = default (pkey), 'n' = nothing,
    /// 'f' = all columns, 'i' = index
    pub relreplident: u8,
    /// True if this relation is a partition
    pub relispartition: bool,
    /// During table rewrite, OID of the original relation; otherwise 0
    pub relrewrite: u32,
    /// All transaction IDs before this value are frozen in this relation
    pub relfrozenxid: u32,
    /// All MultiXactIds in this relation are >= this value
    pub relminmxid: u32,
}

impl Clone for PgClass {
    fn clone(&self) -> (r: Self)
        ensures
            r == *self,
    {
        PgClass {
            oid: self.oid,
            relname: self.relname.clone(),
            relnamespace: self.relnamespace,
            reltype: self.reltype,
            reloftype: self.reloftype,
            relowner: self.relowner,
            relam: self.relam,
            relfilenode: self.relfilenode,
            reltablespace: self.reltablespace,
            relpages: self.relpages,
            reltuples: self.reltuples,
            relallvisible: self.relallvisible,
            relallfrozen: self.relallfrozen,
            reltoastrelid: self.reltoastrelid,
            relhasindex: self.relhasindex,
            relisshared: self.relisshared,
            relpersistence: self.relpersistence,
            relkind: self.relkind,
            relnatts: self.relnatts,
            relchecks: self.relchecks,
            relhasrules: self.relhasrules,
            relhastriggers: self.relhastriggers,
            relhassubclass: self.relhassubclass,
            relrowsecurity: self.relrowsecurity,
            relforcerowsecurity: self.relforcerowsecurity,
            relispopulated: self.relispopulated,
            relreplident: self.relreplident,
            relispartition: self.relispartition,
            relrewrite: self.relrewrite,
            relfrozenxid: self.relfrozenxid,
            relminmxid: self.relminmxid,
        }
    }
}

impl PgClass {
    pub const ANUM_OID: usize = 0;
    pub const ANUM_RELNAME: usize = 1;
    pub const ANUM_RELNAMESPACE: usize = 2;
    pub const ANUM_RELTYPE: usize = 3;
    pub const ANUM_RELOFTYPE: usize = 4;
    pub const ANUM_RELOWNER: usize = 5;
    pub const ANUM_RELAM: usize = 6;
    pub const ANUM_RELFILENODE: usize = 7;
    pub const ANUM_RELTABLESPACE: usize = 8;
    pub const ANUM_RELPAGES: usize = 9;
    pub const ANUM_RELTUPLES: usize = 10;
    pub const ANUM_RELALLVISIBLE: usize = 11;
    pub const ANUM_RELALLFROZEN: usize = 12;
    pub const ANUM_RELTOASTRELID: usize = 13;
    pub const ANUM_RELHASINDEX: usize = 14;
    pub const ANUM_RELISSHARED: usize = 15;
    pub const ANUM_RELPERSISTENCE: usize = 16;
    pub const ANUM_RELKIND: usize = 17;
    pub const ANUM_RELNATTS: usize = 18;
    pub const ANUM_RELCHECKS: usize = 19;
    pub const ANUM_RELHASRULES: usize = 20;
    pub const ANUM_RELHASTRIGGERS: usize = 21;
    pub const ANUM_RELHASSUBCLASS: usize = 22;
    pub const ANUM_RELROWSECURITY: usize = 23;
    pub const ANUM_RELFORCEROWSECURITY: usize = 24;
    pub const ANUM_RELISPOPULATED: usize = 25;
    pub const ANUM_RELREPLIDENT: usize = 26;
    pub const ANUM_RELISPARTITION: usize = 27;
    pub const ANUM_RELREWRITE: usize = 28;
    pub const ANUM_RELFROZENXID: usize = 29;
    pub const ANUM_RELMINMXID: usize = 30;
    /// The relation OID of `pg_class`.
    pub const RELATION_OID: u32 = 1259;
    /// Number of fixed-width columns (the trailing varlena columns are excluded).
    pub const NUM_FIXED_ATTRS: usize = 31;
}

impl PgCatalogRelation for PgClass {
    open spec fn spec_relation_oid() -> u32 {
        1259
    }

    open spec fn spec_attr_types() -> Seq<PgTypeId> {
        seq![PgTypeId::Oid, PgTypeId::Name, PgTypeId::Oid, PgTypeId::Oid, PgTypeId::Oid, PgTypeId::Oid, PgTypeId::Oid, PgTypeId::Oid, PgTypeId::Oid, PgTypeId::Int4, PgTypeId::Float4, PgTypeId::Int4, PgTypeId::Int4, PgTypeId::Oid, PgTypeId::Bool, PgTypeId::Bool, PgTypeId::Char, PgTypeId::Char, PgTypeId::Int2, PgTypeId::Int2, PgTypeId::Bool, PgTypeId::Bool, PgTypeId::Bool, PgTypeId::Bool, PgTypeId::Bool, PgTypeId::Bool, PgTypeId::Char, PgTypeId::Bool, PgTypeId::Oid, PgTypeId::Xid, PgTypeId::Xid]
    }

    open spec fn spec_attr_names() -> Seq<Seq<char>> {
        seq!["oid"@, "relname"@, "relnamespace"@, "reltype"@, "reloftype"@, "relowner"@, "relam"@, "relfilenode"@, "reltablespace"@, "relpages"@, "reltuples"@, "relallvisible"@, "relallfrozen"@, "reltoastrelid"@, "relhasindex"@, "relisshared"@, "relpersistence"@, "relkind"@, "relnatts"@, "relchecks"@, "relhasrules"@, "relhastriggers"@, "relhassubclass"@, "relrowsecurity"@, "relforcerowsecurity"@, "relispopulated"@, "relreplident"@, "relispartition"@, "relrewrite"@, "relfrozenxid"@, "relminmxid"@]
    }

    open spec fn spec_catalog_name() -> Seq<char> {
        "pg_class"@
    }

    fn relation_oid() -> (r: u32) {
        Self::RELATION_OID
    }

    fn attr_types() -> (r: Vec<PgTypeId>) {
        let r = vec![PgTypeId::Oid, PgTypeId::Name, PgTypeId::Oid, PgTypeId::Oid, PgTypeId::Oid, PgTypeId::Oid, PgTypeId::Oid, PgTypeId::Oid, PgTypeId::Oid, PgTypeId::Int4, PgTypeId::Float4, PgTypeId::Int4, PgTypeId::Int4, PgTypeId::Oid, PgTypeId::Bool, PgTypeId::Bool, PgTypeId::Char, PgTypeId::Char, PgTypeId::Int2, PgTypeId::Int2, PgTypeId::Bool, PgTypeId::Bool, PgTypeId::Bool, PgTypeId::Bool, PgTypeId::Bool, PgTypeId::Bool, PgTypeId::Char, PgTypeId::Bool, PgTypeId::Oid, PgTypeId::Xid, PgTypeId::Xid];
        assert(r@ =~= Self::spec_attr_types());
        r
    }

    fn attr_names() -> (r: Vec<&'static str>) {
        let r: Vec<&'static str> = vec!["oid", "relname", "relnamespace", "reltype", "reloftype", "relowner", "relam", "relfilenode", "reltablespace", "relpages", "reltuples", "relallvisible", "relallfrozen", "reltoastrelid", "relhasindex", "relisshared", "relpersistence", "relkind", "relnatts", "relchecks", "relhasrules", "relhastriggers", "relhassubclass", "relrowsecurity", "relforcerowsecurity", "relispopulated", "relreplident", "relispartition", "relrewrite", "relfrozenxid", "relminmxid"];
        assert(Seq::new(r@.len(), |i: int| r@[i]@) =~= Self::spec_attr_names());
        r
    }

    fn catalog_name() -> (r: &'static str) {
        "pg_class"
    }
}

/// Rust representation of PostgreSQL's `pg_type` system catalog (OID 1247).
///
/// Mirrors the fixed-length portion of `CATALOG(pg_type)` from
/// `src/include/catalog/pg_type.h`. Variable-length trailing fields
/// (`typdefaultbin`, `typdefault`, `typacl`) are excluded.
#[derive(Debug)]
pub struct PgType {
    /// pg_type.oid
    pub oid: u32,
    /// Type name
    pub typname: String,
    /// OID of nam
    pub typnamespace: u32,
    /// Type owner
    pub typowner: u32,
    /// For fixed-size types, the number of bytes; negative for varlena (-1) or cstring (-2)
    pub typlen: i16,
    /// True if pass-by-value, false if pass-by-reference
    pub typbyval: bool,
    /// 'b' = base, 'c' = composite, 'd' = domain, 'e' = enum, 'p' = pseudo, 'r' = range, 'm' = multirange
    pub typtype: u8,
    /// Arbitrary classification used by the parser to choose preferred casts
    pub typcategory: u8,
    /// True if this type is preferred for implicit casts within its category
    pub typispreferred: bool,
    /// True if the type is fully defined (not a shell/placeholder)
    pub typisdefined: bool,
    /// Delimiter character for arrays of this type
    pub typdelim: u8,
    /// For composite types, the pg_class OID; 0 otherwise
    pub typrelid: u32,
    /// Subscript handler function OID (regproc)
    pub typsubscript: u32,
    /// If an array element type, OID of that element type; 0 otherwise
    pub typelem: u32,
    /// OID of the "true" array type that has this type as its element
    pub typarray: u32,
    /// Input function OID (text representation → internal)
    pub typinput: u32,
    /// Output function OID (internal → text representation)
    pub typoutput: u32,
    /// Binary receive function OID
    pub typreceive: u32,
    /// Binary send function OID
    pub typsend: u32,
    /// Type modifier input function OID (0 if none)
    pub typmodin: u32,
    /// Type modifier output function OID (0 if none)
    pub typmodout: u32,
    /// Custom ANALYZE function OID (0 if none)
    pub typanalyze: u32,
    /// Alignment: 'c' = char, 's' = short, 'i' = int, 'd' = double
    pub typalign: u8,
    /// TOAST storage strategy: 'p' = plain, 'x' = extended, 'm' = main, 'e' = external
    pub typstorage: u8,
    /// True if NOT NULL constraint exists
    pub typnotnull: bool,
    /// For domains, the base type OID; 0 otherwise
    pub typbasetype: u32,
    /// For domains, the typmod to apply to the base type; -1 otherwise
    pub typtypmod: i32,
    /// For array domains, the declared number of dimensions; 0 otherwise
    pub typndims: i32,
    /// Collation OID (0 if type does not support collation)
    pub typcollation: u32,
}

impl Clone for PgType {
    fn clone(&self) -> (r: Self)
        ensures
            r == *self,
    {
        PgType {
            oid: self.oid,
            typname: self.typname.clone(),
            typnamespace: self.typnamespace,
            typowner: self.typowner,
            typlen: self.typlen,
            typbyval: self.typbyval,
            typtype: self.typtype,
            typcategory: self.typcategory,
            typispreferred: self.typispreferred,
            typisdefined: self.typisdefined,
            typdelim: self.typdelim,
            typrelid: self.typrelid,
            typsubscript: self.typsubscript,
            typelem: self.typelem,
            typarray: self.typarray,
            typinput: self.typinput,
            typoutput: self.typoutput,
            typreceive: self.typreceive,
            typsend: self.typsend,
            typmodin: self.typmodin,
            typmodout: self.typmodout,
            typanalyze: self.typanalyze,
            typalign: self.typalign,
            typstorage: self.typstorage,
            typnotnull: self.typnotnull,
            typbasetype: self.typbasetype,
            typtypmod: self.typtypmod,
            typndims: self.typndims,
            typcollation: self.typcollation,
        }
    }
}

impl PgType {
    /// The relation OID of `pg_type`.
    pub const RELATION_OID: u32 = 1247;
    /// Number of fixed-width columns (the trailing varlena columns are excluded).
    pub const NUM_FIXED_ATTRS: usize = 29;
}

impl PgCatalogRelation for PgType {
    open spec fn spec_relation_oid() -> u32 {
        1247
    }

    open spec fn spec_attr_types() -> Seq<PgTypeId> {
        seq![PgTypeId::Oid, PgTypeId::Name, PgTypeId::Oid, PgTypeId::Oid, PgTypeId::Int2, PgTypeId::Bool, PgTypeId::Char, PgTypeId::Char, PgTypeId::Bool, PgTypeId::Bool, PgTypeId::Char, PgTypeId::Oid, PgTypeId::Oid, PgTypeId::Oid, PgTypeId::Oid, PgTypeId::Oid, PgTypeId::Oid, PgTypeId::Oid, PgTypeId::Oid, PgTypeId::Oid, PgTypeId::Oid, PgTypeId::Oid, PgTypeId::Char, PgTypeId::Char, PgTypeId::Bool, PgTypeId::Oid, PgTypeId::Int4, PgTypeId::Int4, PgTypeId::Oid]
    }

    open spec fn spec_attr_names() -> Seq<Seq<char>> {
        seq!["oid"@, "typname"@, "typnamespace"@, "typowner"@, "typlen"@, "typbyval"@, "typtype"@, "typcategory"@, "typispreferred"@, "typisdefined"@, "typdelim"@, "typrelid"@, "typsubscript"@, "typelem"@, "typarray"@, "typinput"@, "typoutput"@, "typreceive"@, "typsend"@, "typmodin"@, "typmodout"@, "typanalyze"@, "typalign"@, "typstorage"@, "typnotnull"@, "typbasetype"@, "typtypmod"@, "typndims"@, "typcollation"@]
    }

    open spec fn spec_catalog_name() -> Seq<char> {
        "pg_type"@
    }

    fn relation_oid() -> (r: u32) {
        Self::RELATION_OID
    }

    fn attr_types() -> (r: Vec<PgTypeId>) {
        let r = vec![PgTypeId::Oid, PgTypeId::Name, PgTypeId::Oid, PgTypeId::Oid, PgTypeId::Int2, PgTypeId::Bool, PgTypeId::Char, PgTypeId::Char, PgTypeId::Bool, PgTypeId::Bool, PgTypeId::Char, PgTypeId::Oid, PgTypeId::Oid, PgTypeId::Oid, PgTypeId::Oid, PgTypeId::Oid, PgTypeId::Oid, PgTypeId::Oid, PgTypeId::Oid, PgTypeId::Oid, PgTypeId::Oid, PgTypeId::Oid, PgTypeId::Char, PgTypeId::Char, PgTypeId::Bool, PgTypeId::Oid, PgTypeId::Int4, PgTypeId::Int4, PgTypeId::Oid];
        assert(r@ =~= Self::spec_attr_types());
        r
    }

    fn attr_names() -> (r: Vec<&'static str>) {
        let r: Vec<&'static str> = vec!["oid", "typname", "typnamespace", "typowner", "typlen", "typbyval", "typtype", "typcategory", "typispreferred", "typisdefined", "typdelim", "typrelid", "typsubscript", "typelem", "typarray", "typinput", "typoutput", "typreceive", "typsend", "typmodin", "typmodout", "typanalyze", "typalign", "typstorage", "typnotnull", "typbasetype", "typtypmod", "typndims", "typcollation"];
        assert(Seq::new(r@.len(), |i: int| r@[i]@) =~= Self::spec_attr_names());
        r
    }

    fn catalog_name() -> (r: &'static str) {
        "pg_type"
    }
}

/// Rust representation of PostgreSQL's `pg_attribute` system catalog (OID 1249).
///
/// Mirrors the fixed-length portion of `CATALOG(pg_attribute)` from
/// `src/include/catalog/pg_attribute.h`. Variable-length trailing fields
/// (`attstattarget`, `attacl`, `attoptions`, `attfdwoptions`, `attmissingval`)
/// are excluded.
///
/// **This is the most important catalog for pg_arrow** — it tells us each
/// column's type OID (`atttypid`), on-disk size (`attlen`), alignment
/// (`attalign`), and whether it has been dropped (`attisdropped`).
#[derive(Debug)]
pub struct PgAttribute {
    /// OID of the relation this column belongs to
    pub attrelid: u32,
    /// Column name
    pub attname: String,
    /// Type OID (references pg_type.oid) — the key field for decoding
    pub atttypid: u32,
    /// Copy of pg_type.typlen for this type
    pub attlen: i16,
    /// Attribute number (1-based for user columns, negative for system columns)
    pub attnum: i16,
    /// Type modifier (e.g. varchar(255) → typtypmod = 259)
    pub atttypmod: i32,
    /// Number of array dimensions (0 if not an array)
    pub attndims: i16,
    /// Copy of pg_type.typbyval
    pub attbyval: bool,
    /// Copy of pg_type.typalign: 'c', 's', 'i', or 'd'
    pub attalign: u8,
    /// Copy of pg_type.typstorage: 'p', 'x', 'm', or 'e'
    pub attstorage: u8,
    /// Compression method: 'p' = pglz, 'l' = lz4, '\0' = default
    pub attcompression: u8,
    /// True if column has NOT NULL constraint
    pub attnotnull: bool,
    /// True if column has a DEFAULT expression
    pub atthasdef: bool,
    /// True if column has a "missing" value for ADD COLUMN
    pub atthasmissing: bool,
    /// Identity column kind: 'a' = always, 'd' = by default, '\0' = not identity
    pub attidentity: u8,
    /// Generated column kind: 's' = stored, '\0' = not generated
    pub attgenerated: u8,
    /// True if column has been dropped (logically invisible, but still in tuple layout)
    pub attisdropped: bool,
    /// True if column has a local definition (not purely inherited)
    pub attislocal: bool,
    /// Number of direct parent relations this column is inherited from
    pub attinhcount: i16,
    /// Collation OID (0 if type does not use collation)
    pub attcollation: u32,
}

impl Clone for PgAttribute {
    fn clone(&self) -> (r: Self)
        ensures
            r == *self,
    {
        PgAttribute {
            attrelid: self.attrelid,
            attname: self.attname.clone(),
            atttypid: self.atttypid,
            attlen: self.attlen,
            attnum: self.attnum,
            atttypmod: self.atttypmod,
            attndims: self.attndims,
            attbyval: self.attbyval,
            attalign: self.attalign,
            attstorage: self.attstorage,
            attcompression: self.attcompression,
            attnotnull: self.attnotnull,
            atthasdef: self.atthasdef,
            atthasmissing: self.atthasmissing,
            attidentity: self.attidentity,
            attgenerated: self.attgenerated,
            attisdropped: self.attisdropped,
            attislocal: self.attislocal,
            attinhcount: self.attinhcount,
            attcollation: self.attcollation,
        }
    }
}

impl PgAttribute {
    /// The relation OID of `pg_attribute`.
    pub const RELATION_OID: u32 = 1249;
    /// Number of fixed-width columns (the trailing varlena columns are excluded).
    pub const NUM_FIXED_ATTRS: usize = 20;
}

impl PgCatalogRelation for PgAttribute {
    open spec fn spec_relation_oid() -> u32 {
        1249
    }

    open spec fn spec_attr_types() -> Seq<PgTypeId> {
        seq![PgTypeId::Oid, PgTypeId::Name, PgTypeId::Oid, PgTypeId::Int2, PgTypeId::Int2, PgTypeId::Int4, PgTypeId::Int2, PgTypeId::Bool, PgTypeId::Char, PgTypeId::Char, PgTypeId::Char, PgTypeId::Bool, PgTypeId::Bool, PgTypeId::Bool, PgTypeId::Char, PgTypeId::Char, PgTypeId::Bool, PgTypeId::Bool, PgTypeId::Int2, PgTypeId::Oid]
    }

    open spec fn spec_attr_names() -> Seq<Seq<char>> {
        seq!["attrelid"@, "attname"@, "atttypid"@, "attlen"@, "attnum"@, "atttypmod"@, "attndims"@, "attbyval"@, "attalign"@, "attstorage"@, "attcompression"@, "attnotnull"@, "atthasdef"@, "atthasmissing"@, "attidentity"@, "attgenerated"@, "attisdropped"@, "attislocal"@, "attinhcount"@, "attcollation"@]
    }

    open spec fn spec_catalog_name() -> Seq<char> {
        "pg_attribute"@
    }

    fn relation_oid() -> (r: u32) {
        Self::RELATION_OID
    }

    fn attr_types() -> (r: Vec<PgTypeId>) {
        let r = vec![PgTypeId::Oid, PgTypeId::Name, PgTypeId::Oid, PgTypeId::Int2, PgTypeId::Int2, PgTypeId::Int4, PgTypeId::Int2, PgTypeId::Bool, PgTypeId::Char, PgTypeId::Char, PgTypeId::Char, PgTypeId::Bool, PgTypeId::Bool, PgTypeId::Bool, PgTypeId::Char, PgTypeId::Char, PgTypeId::Bool, PgTypeId::Bool, PgTypeId::Int2, PgTypeId::Oid];
        assert(r@ =~= Self::spec_attr_types());
        r
    }

    fn attr_names() -> (r: Vec<&'static str>) {
        let r: Vec<&'static str> = vec!["attrelid", "attname", "atttypid", "attlen", "attnum", "atttypmod", "attndims", "attbyval", "attalign", "attstorage", "attcompression", "attnotnull", "atthasdef", "atthasmissing", "attidentity", "attgenerated", "attisdropped", "attislocal", "attinhcount", "attcollation"];
        assert(Seq::new(r@.len(), |i: int| r@[i]@) =~= Self::spec_attr_names());
        r
    }

    fn catalog_name() -> (r: &'static str) {
        "pg_attribute"
    }
}

/// Rust representation of PostgreSQL's `pg_proc` system catalog (OID 1255).
///
/// Mirrors the fixed-length portion of `CATALOG(pg_proc)` from
/// `src/include/catalog/pg_proc.h`. Variable-length trailing fields
/// (`proargtypes`, `proallargtypes`, `proargmodes`, `proargnames`,
/// `proargdefaults`, `protrftypes`, `prosrc`, `probin`, `prosqlbody`,
/// `proconfig`, `proacl`) are excluded.
///
/// Note: `proargtypes` is `oidvector` which is actually varlena despite
/// logically being a fixed set of OIDs.
///
/// Single-precision floating-point fields hold their IEEE-754 bit pattern.
#[derive(Debug)]
pub struct PgProc {
    /// pg_proc.oid
    pub oid: u32,
    /// Procedure/function name
    pub proname: [u8; 64],
    /// OID of namespace containing this proc
    pub pronamespace: u32,
    /// Procedure owner
    pub proowner: u32,
    /// OID of the language this proc is written in
    pub prolang: u32,
    /// Estimated execution cost (in cpu_operator_cost units)
    pub procost: u32,
    /// Estimated number of result rows (0 for non-set-returning functions)
    pub prorows: u32,
    /// Element type of variadic array parameter; 0 if not variadic
    pub provariadic: u32,
    /// Planner support function OID (0 if none)
    pub prosupport: u32,
    /// 'f' = function, 'p' = procedure, 'a' = aggregate, 'w' = window
    pub prokind: u8,
    /// True if function is a security definer (runs as owner)
    pub prosecdef: bool,
    /// True if function has no side effects and reveals no info about args
    pub proleakproof: bool,
    /// True if function is strict (returns NULL on any NULL input)
    pub proisstrict: bool,
    /// True if function returns a set
    pub proretset: bool,
    /// Volatility: 'i' = immutable, 's' = stable, 'v' = volatile
    pub provolatile: u8,
    /// Parallel safety: 's' = safe, 'r' = restricted, 'u' = unsafe
    pub proparallel: u8,
    /// Number of input arguments (excludes OUT params)
    pub pronargs: i16,
    /// Number of arguments that have default values
    pub pronargdefaults: i16,
    /// OID of the return type
    pub prorettype: u32,
}

impl Clone for PgProc {
    fn clone(&self) -> (r: Self)
        ensures
            r == *self,
    {
        PgProc {
            oid: self.oid,
            proname: self.proname,
            pronamespace: self.pronamespace,
            proowner: self.proowner,
            prolang: self.prolang,
            procost: self.procost,
            prorows: self.prorows,
            provariadic: self.provariadic,
            prosupport: self.prosupport,
            prokind: self.prokind,
            prosecdef: self.prosecdef,
            proleakproof: self.proleakproof,
            proisstrict: self.proisstrict,
            proretset: self.proretset,
            provolatile: self.provolatile,
            proparallel: self.proparallel,
            pronargs: self.pronargs,
            pronargdefaults: self.pronargdefaults,
            prorettype: self.prorettype,
        }
    }
}

impl PgProc {
    /// The relation OID of `pg_proc`.
    pub const RELATION_OID: u32 = 1255;
    /// Number of fixed-width columns (the trailing varlena columns are excluded).
    pub const NUM_FIXED_ATTRS: usize = 20;
}

impl PgCatalogRelation for PgProc {
    open spec fn spec_relation_oid() -> u32 {
        1255
    }

    open spec fn spec_attr_types() -> Seq<PgTypeId> {
        seq![PgTypeId::Oid, PgTypeId::Name, PgTypeId::Oid, PgTypeId::Oid, PgTypeId::Oid, PgTypeId::Float4, PgTypeId::Float4, PgTypeId::Oid, PgTypeId::Oid, PgTypeId::Char, PgTypeId::Bool, PgTypeId::Bool, PgTypeId::Bool, PgTypeId::Bool, PgTypeId::Char, PgTypeId::Char, PgTypeId::Int2, PgTypeId::Int2, PgTypeId::Oid, PgTypeId::Oid]
    }

    open spec fn spec_attr_names() -> Seq<Seq<char>> {
        seq!["oid"@, "proname"@, "pronamespace"@, "proowner"@, "prolang"@, "procost"@, "prorows"@, "provariadic"@, "prosupport"@, "prokind"@, "prosecdef"@, "proleakproof"@, "proisstrict"@, "proretset"@, "provolatile"@, "proparallel"@, "pronargs"@, "pronargdefaults"@, "prorettype"@, "proargtypes"@]
    }

    open spec fn spec_catalog_name() -> Seq<char> {
        "pg_proc"@
    }

    fn relation_oid() -> (r: u32) {
        Self::RELATION_OID
    }

    fn attr_types() -> (r: Vec<PgTypeId>) {
        let r = vec![PgTypeId::Oid, PgTypeId::Name, PgTypeId::Oid, PgTypeId::Oid, PgTypeId::Oid, PgTypeId::Float4, PgTypeId::Float4, PgTypeId::Oid, PgTypeId::Oid, PgTypeId::Char, PgTypeId::Bool, PgTypeId::Bool, PgTypeId::Bool, PgTypeId::Bool, PgTypeId::Char, PgTypeId::Char, PgTypeId::Int2, PgTypeId::Int2, PgTypeId::Oid, PgTypeId::Oid];
        assert(r@ =~= Self::spec_attr_types());
        r
    }

    fn attr_names() -> (r: Vec<&'static str>) {
        let r: Vec<&'static str> = vec!["oid", "proname", "pronamespace", "proowner", "prolang", "procost", "prorows", "provariadic", "prosupport", "prokind", "prosecdef", "proleakproof", "proisstrict", "proretset", "provolatile", "proparallel", "pronargs", "pronargdefaults", "prorettype", "proargtypes"];
        assert(Seq::new(r@.len(), |i: int| r@[i]@) =~= Self::spec_attr_names());
        r
    }

    fn catalog_name() -> (r: &'static str) {
        "pg_proc"
    }
}

/// A PostgreSQL system catalog relation: its relation OID, and the types
/// and names of its fixed-width attributes in tuple order, from which its
/// schema is built without reading `pg_attribute`.
pub trait PgCatalogRelation {
    /// The relation OID from pg_class.
    spec fn spec_relation_oid() -> u32;

    /// Type of each fixed-width attribute, in tuple order.
    spec fn spec_attr_types() -> Seq<PgTypeId>;

    /// Name of each fixed-width attribute, in tuple order.
    spec fn spec_attr_names() -> Seq<Seq<char>>;

    /// Human-readable catalog name.
    spec fn spec_catalog_name() -> Seq<char>;

    /// The relation OID from pg_class (e.g. 1249 for pg_attribute).
    fn relation_oid() -> (r: u32)
        ensures
            r == Self::spec_relation_oid(),
    ;

    /// Type OIDs of the attributes, in tuple order.
    fn attr_types() -> (r: Vec<PgTypeId>)
        ensures
            r@ == Self::spec_attr_types(),
    ;

    /// Column names of the attributes, in tuple order.
    fn attr_names() -> (r: Vec<&'static str>)
        ensures
            r@.len() == Self::spec_attr_names().len(),
            forall|i: int| 0 <= i < r@.len() ==> #[trigger] r@[i]@ == Self::spec_attr_names()[i],
    ;

    /// Human-readable catalog name (e.g. "pg_attribute").
    fn catalog_name() -> (r: &'static str)
        ensures
            r@ == Self::spec_catalog_name(),
    ;

    /// The catalog's schema, built from the compile-time metadata: one
    /// nullable, unmodified column per attribute (pairing names and types
    /// up to the shorter of the two lists).
    fn catalog_schema() -> (r: PgSchema)
        ensures
            r.spec_name() == Self::spec_catalog_name(),
            r@.len() == min_len(Self::spec_attr_names().len() as int, Self::spec_attr_types().len() as int),
            forall|i: int| 0 <= i < r@.len() ==> {
                &&& (#[trigger] r@[i]).name@ == Self::spec_attr_names()[i]
                &&& r@[i].type_id == Self::spec_attr_types()[i]
                &&& r@[i].nullable
                &&& r@[i].typmod == -1
            },
    {
        let names = Self::attr_names();
        let types = Self::attr_types();
        let n = if names.len() < types.len() { names.len() } else { types.len() };
        let mut columns: Vec<PgColumn> = Vec::with_capacity(n);
        let mut i: usize = 0;
        while i < n
            invariant
                n == min_len(names@.len() as int, types@.len() as int),
                names@.len() == Self::spec_attr_names().len(),
                forall|j: int| 0 <= j < names@.len() ==> #[trigger] names@[j]@ == Self::spec_attr_names()[j],
                types@ == Self::spec_attr_types(),
                i <= n,
                columns@.len() == i,
                forall|j: int| 0 <= j < i ==> {
                    &&& (#[trigger] columns@[j]).name@ == Self::spec_attr_names()[j]
                    &&& columns@[j].type_id == Self::spec_attr_types()[j]
                    &&& columns@[j].nullable
                    &&& columns@[j].typmod == -1
                },
            decreases n - i,
        {
            columns.push(PgColumn::new(names[i], types[i], true, -1));
            i = i + 1;
        }
        PgSchema::new(Self::catalog_name(), columns)
    }
}

/// The smaller of two lengths.
pub open spec fn min_len(a: int, b: int) -> int {
    if a < b { a } else { b }
}

// ── Decoding catalog rows ────────────────────────────────────────────────

/// An `oid` or `xid` column's value; 0 for NULL or any other datum.
pub open spec fn spec_as_u32(d: PgDatumView) -> u32 {
    match d {
        PgDatumView::Oid(v) | PgDatumView::Xid(v) => v,
        _ => 0,
    }
}

/// An `int4` column's value; 0 for NULL or any other datum.
pub open spec fn spec_as_i32(d: PgDatumView) -> i32 {
    match d {
        PgDatumView::Int4(v) => v,
        _ => 0,
    }
}

/// An `int2` column's value; 0 for NULL or any other datum.
pub open spec fn spec_as_i16(d: PgDatumView) -> i16 {
    match d {
        PgDatumView::Int2(v) => v,
        _ => 0,
    }
}

/// A `float4` column's bit pattern; the bits of 0.0 for NULL or any other
/// datum.
pub open spec fn spec_as_f32(d: PgDatumView) -> u32 {
    match d {
        PgDatumView::Float4(v) => v,
        _ => 0,
    }
}

/// A `bool` column's value; false for NULL or any other datum.
pub open spec fn spec_as_bool(d: PgDatumView) -> bool {
    match d {
        PgDatumView::Bool(v) => v,
        _ => false,
    }
}

/// A `"char"` column's value; 0 for NULL or any other datum.
pub open spec fn spec_as_u8(d: PgDatumView) -> u8 {
    match d {
        PgDatumView::Char(v) => v,
        _ => 0,
    }
}

/// A `name` column's text (names decode as text); empty for NULL or any
/// other datum.
pub open spec fn spec_as_name_str(d: PgDatumView) -> Seq<char> {
    match d {
        PgDatumView::Text(v) => v,
        _ => Seq::empty(),
    }
}

fn as_u32(d: &PgDatum) -> (r: u32)
    ensures
        r == spec_as_u32(d@),
{
    match d {
        PgDatum::Oid(v) | PgDatum::Xid(v) => *v,
        _ => 0,
    }
}

fn as_i32(d: &PgDatum) -> (r: i32)
    ensures
        r == spec_as_i32(d@),
{
    match d {
        PgDatum::Int4(v) => *v,
        _ => 0,
    }
}

fn as_i16(d: &PgDatum) -> (r: i16)
    ensures
        r == spec_as_i16(d@),
{
    match d {
        PgDatum::Int2(v) => *v,
        _ => 0,
    }
}

fn as_f32(d: &PgDatum) -> (r: u32)
    ensures
        r == spec_as_f32(d@),
{
    match d {
        PgDatum::Float4(v) => *v,
        _ => 0,
    }
}

fn as_bool(d: &PgDatum) -> (r: bool)
    ensures
        r == spec_as_bool(d@),
{
    match d {
        PgDatum::Bool(v) => *v,
        _ => false,
    }
}

fn as_u8(d: &PgDatum) -> (r: u8)
    ensures
        r == spec_as_u8(d@),
{
    match d {
        PgDatum::Char(v) => *v,
        _ => 0,
    }
}

fn as_name_str(d: &PgDatum) -> (r: String)
    ensures
        r@ == spec_as_name_str(d@),
{
    match d {
        PgDatum::Text(v) => v.clone(),
        _ => String::new(),
    }
}

/// Decode the column at `col_index` of `tuple`, whose previous column ended
/// at `*offset`, and move `*offset` past it. A NULL column gives `None`
/// and leaves the offset where it was; every other column is aligned
/// (`att_align_pointer`) and decoded.
fn next_datum(tuple: &HeapTupleData, schema: &PgSchema, offset: &mut usize, col_index: usize) -> (r: Result<Option<PgDatum>>)
    requires
        col_index < schema@.len(),
        tuple.data@.len() <= isize::MAX,
        *old(offset) <= tuple.data@.len(),
        !bitmap_says_null(tuple.null_bitmap@, col_index as int) ==> decode_datum_ok(
            schema@[col_index as int].type_id,
            tuple.data@,
            spec_att_align(schema@[col_index as int].type_id, tuple.data@, *old(offset) as int),
        ),
    ensures
        if bitmap_says_null(tuple.null_bitmap@, col_index as int) {
            r matches Ok(None) && *final(offset) == *old(offset)
        } else {
            let t = schema@[col_index as int].type_id;
            let off = spec_att_align(t, tuple.data@, *old(offset) as int);
            match spec_decode_datum(t, tuple.data@, off) {
                Ok((d, n)) => r matches Ok(Some(x)) && x@ == d && *final(offset) == off + n && off + n <= tuple.data@.len(),
                Err(de) => r matches Err(e) && e matches PgError::DecodeError(m) && m@ == decode_error_text(de),
            }
        },
{
    // NULL columns take no space: no alignment, no data.
    if tuple.is_null(col_index) {
        return Ok(None);
    }
    let col = &schema.columns()[col_index];
    let aligned = att_align(col.type_id, tuple.data.as_slice(), *offset);
    match tuple.get_column(ColumnSearchArg::ColumnIndex(col_index), schema, aligned) {
        Ok((datum, size)) => {
            proof {
                lemma_decode_within(col.type_id, tuple.data@, aligned as int);
            }
            *offset = aligned + size;
            Ok(Some(datum))
        },
        Err(PgError::NullColumnValue { .. }) => Ok(None),
        Err(e) => Err(e),
    }
}

/// Decode the first `n` columns of `tuple` (NULLs as `Null`), as
/// [`next_datum`] walks them.
fn decode_leading(tuple: &HeapTupleData, schema: &PgSchema, n: usize) -> (r: Result<Vec<PgDatum>>)
    requires
        n <= schema@.len(),
        tuple.data@.len() <= isize::MAX,
    ensures
        r matches Ok(v) ==> v@.len() == n,
        match spec_decode_columns(tuple.null_bitmap@, tuple.data@, schema@.subrange(0, n as int), 0, 0) {
            Ok(vals) => r matches Ok(v) && v@.map_values(|d: PgDatum| d@) == vals,
            Err(de) => r matches Err(e) && e matches PgError::DecodeError(m) && m@ == decode_error_text(de),
        },
{
    proof {
        lemma_columns_ok_within(tuple.null_bitmap@, tuple.data@, schema@.subrange(0, n as int), 0, 0);
    }
    let ghost bitmap = tuple.null_bitmap@;
    let ghost data = tuple.data@;
    let ghost cols = schema@.subrange(0, n as int);
    let mut columns: Vec<PgDatum> = Vec::with_capacity(n);
    let mut offset: usize = 0;
    let mut i: usize = 0;
    while i < n
        invariant
            n <= schema@.len(),
            cols == schema@.subrange(0, n as int),
            bitmap == tuple.null_bitmap@,
            data == tuple.data@,
            data.len() <= isize::MAX,
            i <= n,
            offset <= data.len(),
            columns@.len() == i,
            spec_columns_ok(bitmap, data, cols, i as int, offset as int),
            spec_decode_columns(bitmap, data, cols, 0, 0) == prepend(
                columns@.map_values(|d: PgDatum| d@),
                spec_decode_columns(bitmap, data, cols, i as int, offset as int),
            ),
        decreases n - i,
    {
        let ghost before = columns@.map_values(|d: PgDatum| d@);
        let ghost old_offset = offset as int;
        match next_datum(tuple, schema, &mut offset, i) {
            Ok(Some(d)) => {
                proof {
                    lemma_prepend_push(before, d@, spec_decode_columns(bitmap, data, cols, i + 1, offset as int));
                }
                columns.push(d);
                assert(columns@.map_values(|x: PgDatum| x@) =~= before.push(d@));
            },
            Ok(None) => {
                proof {
                    lemma_prepend_push(before, PgDatumView::Null, spec_decode_columns(bitmap, data, cols, i + 1, offset as int));
                }
                columns.push(PgDatum::Null);
                assert(columns@.map_values(|x: PgDatum| x@) =~= before.push(PgDatumView::Null));
            },
            Err(e) => return Err(e),
        }
        i = i + 1;
    }
    proof {
        assert(spec_decode_columns(bitmap, data, cols, n as int, offset as int) == Ok::<Seq<PgDatumView>, DecodeErrorView>(Seq::empty()));
        assert(columns@.map_values(|d: PgDatum| d@) + Seq::<PgDatumView>::empty() =~= columns@.map_values(|d: PgDatum| d@));
    }
    Ok(columns)
}

/// `c` holds the values of the first 31 decoded columns `ds` of a `pg_class`
/// row, in tuple order.
pub open spec fn class_from_datums(c: PgClass, ds: Seq<PgDatumView>) -> bool {
    &&& c.oid == spec_as_u32(ds[0])
    &&& c.relname@ == spec_as_name_str(ds[1])
    &&& c.relnamespace == spec_as_u32(ds[2])
    &&& c.reltype == spec_as_u32(ds[3])
    &&& c.reloftype == spec_as_u32(ds[4])
    &&& c.relowner == spec_as_u32(ds[5])
    &&& c.relam == spec_as_u32(ds[6])
    &&& c.relfilenode == spec_as_u32(ds[7])
    &&& c.reltablespace == spec_as_u32(ds[8])
    &&& c.relpages == spec_as_i32(ds[9])
    &&& c.reltuples == spec_as_f32(ds[10])
    &&& c.relallvisible == spec_as_i32(ds[11])
    &&& c.relallfrozen == spec_as_i32(ds[12])
    &&& c.reltoastrelid == spec_as_u32(ds[13])
    &&& c.relhasindex == spec_as_bool(ds[14])
    &&& c.relisshared == spec_as_bool(ds[15])
    &&& c.relpersistence == spec_as_u8(ds[16])
    &&& c.relkind == spec_as_u8(ds[17])
    &&& c.relnatts == spec_as_i16(ds[18])
    &&& c.relchecks == spec_as_i16(ds[19])
    &&& c.relhasrules == spec_as_bool(ds[20])
    &&& c.relhastriggers == spec_as_bool(ds[21])
    &&& c.relhassubclass == spec_as_bool(ds[22])
    &&& c.relrowsecurity == spec_as_bool(ds[23])
    &&& c.relforcerowsecurity == spec_as_bool(ds[24])
    &&& c.relispopulated == spec_as_bool(ds[25])
    &&& c.relreplident == spec_as_u8(ds[26])
    &&& c.relispartition == spec_as_bool(ds[27])
    &&& c.relrewrite == spec_as_u32(ds[28])
    &&& c.relfrozenxid == spec_as_u32(ds[29])
    &&& c.relminmxid == spec_as_u32(ds[30])
}

impl PgClass {
    /// Build a `PgClass` from a heap tuple of `pg_class` and its schema.
    ///
    /// Decodes the first 31 columns in tuple order; a NULL column (or a
    /// datum of an unexpected kind) gives the field's zero value. The first
    /// decoding error is returned.
    pub fn from_row(tuple: &HeapTupleData, schema: &PgSchema) -> (r: Result<Self>)
        requires
            schema@.len() >= 31,
            tuple.data@.len() <= isize::MAX,
        ensures
            match spec_decode_columns(tuple.null_bitmap@, tuple.data@, schema@.subrange(0, 31), 0, 0) {
                Ok(ds) => r matches Ok(c) && class_from_datums(c, ds),
                Err(de) => r matches Err(e) && e matches PgError::DecodeError(m) && m@ == decode_error_text(de),
            },
    {
        let d = decode_leading(tuple, schema, 31)?;
        proof {
            assert(d@.len() == 31);
        }
        Ok(PgClass {
            oid: as_u32(&d[0]),
            relname: as_name_str(&d[1]),
            relnamespace: as_u32(&d[2]),
            reltype: as_u32(&d[3]),
            reloftype: as_u32(&d[4]),
            relowner: as_u32(&d[5]),
            relam: as_u32(&d[6]),
            relfilenode: as_u32(&d[7]),
            reltablespace: as_u32(&d[8]),
            relpages: as_i32(&d[9]),
            reltuples: as_f32(&d[10]),
            relallvisible: as_i32(&d[11]),
            relallfrozen: as_i32(&d[12]),
            reltoastrelid: as_u32(&d[13]),
            relhasindex: as_bool(&d[14]),
            relisshared: as_bool(&d[15]),
            relpersistence: as_u8(&d[16]),
            relkind: as_u8(&d[17]),
            relnatts: as_i16(&d[18]),
            relchecks: as_i16(&d[19]),
            relhasrules: as_bool(&d[20]),
            relhastriggers: as_bool(&d[21]),
            relhassubclass: as_bool(&d[22]),
            relrowsecurity: as_bool(&d[23]),
            relforcerowsecurity: as_bool(&d[24]),
            relispopulated: as_bool(&d[25]),
            relreplident: as_u8(&d[26]),
            relispartition: as_bool(&d[27]),
            relrewrite: as_u32(&d[28]),
            relfrozenxid: as_u32(&d[29]),
            relminmxid: as_u32(&d[30]),
        })
    }
}

/// `c` holds the values of the first 29 decoded columns `ds` of a `pg_type`
/// row, in tuple order.
pub open spec fn type_from_datums(c: PgType, ds: Seq<PgDatumView>) -> bool {
    &&& c.oid == spec_as_u32(ds[0])
    &&& c.typname@ == spec_as_name_str(ds[1])
    &&& c.typnamespace == spec_as_u32(ds[2])
    &&& c.typowner == spec_as_u32(ds[3])
    &&& c.typlen == spec_as_i16(ds[4])
    &&& c.typbyval == spec_as_bool(ds[5])
    &&& c.typtype == spec_as_u8(ds[6])
    &&& c.typcategory == spec_as_u8(ds[7])
    &&& c.typispreferred == spec_as_bool(ds[8])
    &&& c.typisdefined == spec_as_bool(ds[9])
    &&& c.typdelim == spec_as_u8(ds[10])
    &&& c.typrelid == spec_as_u32(ds[11])
    &&& c.typsubscript == spec_as_u32(ds[12])
    &&& c.typelem == spec_as_u32(ds[13])
    &&& c.typarray == spec_as_u32(ds[14])
    &&& c.typinput == spec_as_u32(ds[15])
    &&& c.typoutput == spec_as_u32(ds[16])
    &&& c.typreceive == spec_as_u32(ds[17])
    &&& c.typsend == spec_as_u32(ds[18])
    &&& c.typmodin == spec_as_u32(ds[19])
    &&& c.typmodout == spec_as_u32(ds[20])
    &&& c.typanalyze == spec_as_u32(ds[21])
    &&& c.typalign == spec_as_u8(ds[22])
    &&& c.typstorage == spec_as_u8(ds[23])
    &&& c.typnotnull == spec_as_bool(ds[24])
    &&& c.typbasetype == spec_as_u32(ds[25])
    &&& c.typtypmod == spec_as_i32(ds[26])
    &&& c.typndims == spec_as_i32(ds[27])
    &&& c.typcollation == spec_as_u32(ds[28])
}

impl PgType {
    /// Build a `PgType` from a heap tuple of `pg_type` and its schema.
    ///
    /// Decodes the first 29 columns in tuple order; a NULL column (or a
    /// datum of an unexpected kind) gives the field's zero value. The first
    /// decoding error is returned.
    pub fn from_row(tuple: &HeapTupleData, schema: &PgSchema) -> (r: Result<Self>)
        requires
            schema@.len() >= 29,
            tuple.data@.len() <= isize::MAX,
        ensures
            match spec_decode_columns(tuple.null_bitmap@, tuple.data@, schema@.subrange(0, 29), 0, 0) {
                Ok(ds) => r matches Ok(c) && type_from_datums(c, ds),
                Err(de) => r matches Err(e) && e matches PgError::DecodeError(m) && m@ == decode_error_text(de),
            },
    {
        let d = decode_leading(tuple, schema, 29)?;
        proof {
            assert(d@.len() == 29);
        }
        Ok(PgType {
            oid: as_u32(&d[0]),
            typname: as_name_str(&d[1]),
            typnamespace: as_u32(&d[2]),
            typowner: as_u32(&d[3]),
            typlen: as_i16(&d[4]),
            typbyval: as_bool(&d[5]),
            typtype: as_u8(&d[6]),
            typcategory: as_u8(&d[7]),
            typispreferred: as_bool(&d[8]),
            typisdefined: as_bool(&d[9]),
            typdelim: as_u8(&d[10]),
            typrelid: as_u32(&d[11]),
            typsubscript: as_u32(&d[12]),
            typelem: as_u32(&d[13]),
            typarray: as_u32(&d[14]),
            typinput: as_u32(&d[15]),
            typoutput: as_u32(&d[16]),
            typreceive: as_u32(&d[17]),
            typsend: as_u32(&d[18]),
            typmodin: as_u32(&d[19]),
            typmodout: as_u32(&d[20]),
            typanalyze: as_u32(&d[21]),
            typalign: as_u8(&d[22]),
            typstorage: as_u8(&d[23]),
            typnotnull: as_bool(&d[24]),
            typbasetype: as_u32(&d[25]),
            typtypmod: as_i32(&d[26]),
            typndims: as_i32(&d[27]),
            typcollation: as_u32(&d[28]),
        })
    }
}

/// `c` holds the values of the first 20 decoded columns `ds` of a `pg_attribute`
/// row, in tuple order.
pub open spec fn attribute_from_datums(c: PgAttribute, ds: Seq<PgDatumView>) -> bool {
    &&& c.attrelid == spec_as_u32(ds[0])
    &&& c.attname@ == spec_as_name_str(ds[1])
    &&& c.atttypid == spec_as_u32(ds[2])
    &&& c.attlen == spec_as_i16(ds[3])
    &&& c.attnum == spec_as_i16(ds[4])
    &&& c.atttypmod == spec_as_i32(ds[5])
    &&& c.attndims == spec_as_i16(ds[6])
    &&& c.attbyval == spec_as_bool(ds[7])
    &&& c.attalign == spec_as_u8(ds[8])
    &&& c.attstorage == spec_as_u8(ds[9])
    &&& c.attcompression == spec_as_u8(ds[10])
    &&& c.attnotnull == spec_as_bool(ds[11])
    &&& c.atthasdef == spec_as_bool(ds[12])
    &&& c.atthasmissing == spec_as_bool(ds[13])
    &&& c.attidentity == spec_as_u8(ds[14])
    &&& c.attgenerated == spec_as_u8(ds[15])
    &&& c.attisdropped == spec_as_bool(ds[16])
    &&& c.attislocal == spec_as_bool(ds[17])
    &&& c.attinhcount == spec_as_i16(ds[18])
    &&& c.attcollation == spec_as_u32(ds[19])
}

/// `PgAttribute::from_row` agrees with `decode_row`: where every column of a
/// `pg_attribute` tuple decodes (to `vals`), the leading 20 columns that
/// `from_row` reads decode too, and the attribute they give is the one
/// built from the first 20 values of the full row.
pub proof fn lemma_attribute_agrees_with_row(bitmap: Seq<u8>, data: Seq<u8>, cols: Seq<PgColumn>, vals: Seq<PgDatumView>)
    requires
        cols.len() >= 20,
        data.len() <= isize::MAX,
        spec_decode_columns(bitmap, data, cols, 0, 0) == Ok::<Seq<PgDatumView>, DecodeErrorView>(vals),
    ensures
        spec_columns_ok(bitmap, data, cols.subrange(0, 20), 0, 0),
        spec_decode_columns(bitmap, data, cols.subrange(0, 20), 0, 0) matches Ok(ds) && forall|c: PgAttribute|
            attribute_from_datums(c, ds) <==> attribute_from_datums(c, vals),
{
    lemma_columns_ok_within(bitmap, data, cols, 0, 0);
    lemma_decode_columns_prefix(bitmap, data, cols, 20, 0, 0);
    assert(vals.subrange(0, 20 - 0) =~= vals.subrange(0, 20));
}

impl PgAttribute {
    /// Build a `PgAttribute` from a heap tuple of `pg_attribute` and its schema.
    ///
    /// Decodes the first 20 columns in tuple order; a NULL column (or a
    /// datum of an unexpected kind) gives the field's zero value. The first
    /// decoding error is returned.
    pub fn from_row(tuple: &HeapTupleData, schema: &PgSchema) -> (r: Result<Self>)
        requires
            schema@.len() >= 20,
            tuple.data@.len() <= isize::MAX,
        ensures
            match spec_decode_columns(tuple.null_bitmap@, tuple.data@, schema@.subrange(0, 20), 0, 0) {
                Ok(ds) => r matches Ok(c) && attribute_from_datums(c, ds),
                Err(de) => r matches Err(e) && e matches PgError::DecodeError(m) && m@ == decode_error_text(de),
            },
    {
        let d = decode_leading(tuple, schema, 20)?;
        proof {
            assert(d@.len() == 20);
        }
        Ok(PgAttribute {
            attrelid: as_u32(&d[0]),
            attname: as_name_str(&d[1]),
            atttypid: as_u32(&d[2]),
            attlen: as_i16(&d[3]),
            attnum: as_i16(&d[4]),
            atttypmod: as_i32(&d[5]),
            attndims: as_i16(&d[6]),
            attbyval: as_bool(&d[7]),
            attalign: as_u8(&d[8]),
            attstorage: as_u8(&d[9]),
            attcompression: as_u8(&d[10]),
            attnotnull: as_bool(&d[11]),
            atthasdef: as_bool(&d[12]),
            atthasmissing: as_bool(&d[13]),
            attidentity: as_u8(&d[14]),
            attgenerated: as_u8(&d[15]),
            attisdropped: as_bool(&d[16]),
            attislocal: as_bool(&d[17]),
            attinhcount: as_i16(&d[18]),
            attcollation: as_u32(&d[19]),
        })
    }
}

} // verus!
