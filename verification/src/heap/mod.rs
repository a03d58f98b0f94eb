//! Heap page and heap tuple layout.

pub mod page;
pub mod page_batch;
pub mod snapshot;
pub mod tuple;

pub use tuple::PgAlign;
