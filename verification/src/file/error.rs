//! Errors produced by heap-file parsing and table reading.

use vstd::prelude::*;

verus! {

/// Errors produced by pg_arrow file parsing.
#[allow(inconsistent_fields)]
#[derive(Debug, Clone, PartialEq, Eq)]
pub enum PgError {
    /// Generic parse error.
    Generic,
    /// The raw page buffer is too short to hold a page header.
    PageBufferTooShort { actual: usize, expected: usize },
    /// A `u16` value did not match any known `InfoMask` variant.
    UnknownInfoMask(u16),
    /// The raw buffer is too short to hold a heap tuple header.
    TupleBufferTooShort { actual: usize, expected: usize },
    /// `t_hoff` is outside the valid range `[SIZEOF_HEAP_TUPLE_HEADER, buf_len]`.
    InvalidTupleHoff { t_hoff: u8, min: usize, buf_len: usize },
    /// The null bitmap (derived from `natts`) extends past `t_hoff`.
    NullBitmapOverflow { bitmap_end: usize, t_hoff: usize },
    /// The line pointer at `ip_posid` does not point at a live tuple.
    DeadTupleLinePointer { ip_posid: usize },
    /// The column is NULL.
    NullColumnValue { id: usize },
    /// Column not found by name or index.
    ColumnNotFound { column: String },
    /// Datum decoding failed.
    DecodeError(String),
    /// The requested table was not found in pg_class.
    TableNotFound { name: String },
    /// No table has been selected via `set_table()`.
    NoTableSelected,
    /// Catalog bootstrap (reading pg_class/pg_attribute) failed.
    CatalogBootstrapFailed { detail: String },
    /// Arrow RecordBatch conversion failed.
    ArrowConversionFailed { detail: String },
}

/// The result type of pg_arrow's parsing functions.
pub type Result<T, E = PgError> = core::result::Result<T, E>;

} // verus!
