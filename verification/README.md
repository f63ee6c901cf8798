# parquetpeek

Inspects a Parquet file's schema, row groups, row count, and per-column
min/max/null-count straight from the footer metadata.

Layout:

- `src/` — the verified library (Verus).
  - `footer.rs` — the calls into the `parquet` crate that read decoded
    footer metadata, each with the contract it is trusted to meet.
  - `inspect.rs` — the report: reading the decoded footer into plain values,
    merging statistics across row groups, and the laws of that merge.
  - `scalar.rs` — typed min/max values, their order, and decoding them from
    column statistics.
  - `text.rs` — hexadecimal and decimal renderings.
- `app/main.rs` — the command-line program: reads the file, calls the
  library, prints the report (floating-point values are formatted here).
- `tests/` — tests over real footers written by `arrow`'s `ArrowWriter`, over
  hand-built footers, and over scalars.
