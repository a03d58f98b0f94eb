# pg_arrow

Reads PostgreSQL heap files directly — pages, line pointers, tuple headers,
null bitmaps and column values — and shapes the decoded columns into Arrow
arrays. The library in `src/` is written in Verus: every function states what
it computes in its contract and is proved to meet it.

Layout:

- `src/codec` — type metadata (`PgTypeId`) and the decoding of raw column
  bytes into datums (`decode_fixed`, `decode_varlena`, `decode_datum`,
  `skip_datum`).
- `src/heap` — page and tuple layout, the conversion of a whole page into an
  Arrow-shaped batch, and snapshot visibility.
- `src/types` — schemas, system catalog rows, the Arrow data model, column
  builders and NUMERIC decoding.
- `src/table` — decoding whole rows, building Arrow columns from rows, and the
  catalog-backed table reader.
- `src/file` — the relation mapper file, the data directory named in the
  test configuration file (`pg-test-config.toml`), and the decisions of reading heap
  files: page locations, bulk reads, batch streams and row iteration.
- `app/` — the I/O around the library: opening segment files, the catalog
  bootstrap, table scans, Arrow arrays for the library's column data, and the
  error and display types.

Arrow columns are modelled in the library as plain data: a column is its
data type and a `Vec<Option<ArrowValue>>` of values, a batch is its fields
and its columns, and `types::batch::check_batch` states when columns form a
batch with their fields. `app/arrow_convert.rs` turns these values into the
`arrow` crate's arrays and record batches.
