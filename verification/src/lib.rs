//! Reads PostgreSQL heap files: page and tuple layout, datum decoding, and the
//! conversion of decoded columns into Arrow-shaped column data.

pub mod codec;
pub mod file;
pub mod heap;
mod messages;
mod render;
pub mod table;
pub mod types;
