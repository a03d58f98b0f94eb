//! PostgreSQL type metadata and datum decoding.

pub mod datum;
pub mod display;
pub mod le;
pub mod text;
pub mod type_id;

pub use datum::{
    decode_datum, decode_fixed, decode_varlena, read_varlena_header, skip_datum, DecodeError, PgDatum,
};
pub use type_id::{
    align_class_of, typlen_of, PgTypeCategory, PgTypeId, PgTypeInfo, PgTypeLen, PgTypeStorage,
};
