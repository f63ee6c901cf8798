//! Reads a Parquet file's footer metadata and reports its schema, row
//! groups, row count and per-column statistics merged across row groups.

pub mod footer;
pub mod inspect;
pub mod scalar;
pub mod text;

pub use inspect::{
    check_footer_model, inspect_footer, read_footer_model, summarize, ChunkStats, FooterModel, RowGroupStats, ColumnSchema, ColumnStats, InspectError,
    Report, RowGroupSummary,
};
pub use scalar::{max_from_statistics, min_from_statistics, scalar_max, scalar_min, Scalar};
pub use text::hex_encode;
