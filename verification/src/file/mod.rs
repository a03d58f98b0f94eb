//! Errors of heap-file parsing and the `pg_filenode.map` format.

pub mod config;
pub mod error;
pub mod reader;
pub mod relation;
