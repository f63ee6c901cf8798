//! The report this library builds from a Parquet footer: schema, row
//! groups, total row count, and per-column null count, minimum and
//! maximum merged across every row group.

use vstd::prelude::*;
use parquet::file::metadata::{ColumnChunkMetaData, ParquetMetaData, RowGroupMetaData};
use parquet::schema::types::ColumnDescriptor;
use crate::footer::{
    chunk_statistics, chunk_statistics_of, column_is_leaf, stats_bytes_present, column_converted_of, column_converted_type,
    column_logical_of, column_logical_type, column_name, column_name_of, column_physical_of,
    column_physical_type, converted_type_is_none, converted_type_name, converted_type_text,
    error_text, file_num_rows, file_part, file_rows, file_schema, file_schema_descr, footer_of,
    logical_type_debug, logical_type_text, metadata_file, metadata_num_row_groups,
    metadata_row_group, parquet_error_text, physical_type_name, physical_type_text,
    read_footer_metadata, row_group_chunks, row_group_column, row_group_num_columns,
    row_group_num_rows, row_group_rows, row_groups_of, schema_column, schema_leaves,
    schema_num_columns, stats_max_of, stats_min_of, stats_null_count, stats_null_count_of,
};
use crate::scalar::{
    at_least, at_least_transitive, at_most, at_most_reflexive, at_most_transitive, comparable,
    min_max_bound_both, max_from_statistics, max_view, min_from_statistics, min_view, opt_scalar_view,
    opt_stat_scalar, scalar_max, scalar_min, Scalar, ScalarView,
};

verus! {

/// The view of an optional string.
pub open spec fn opt_string_view(o: Option<String>) -> Option<Seq<char>> {
    match o {
        Some(s) => Some(s@),
        None => None,
    }
}

/// One column's schema entry: its name and how it is physically and
/// logically typed in the file's own footer.
#[derive(Debug, Clone, PartialEq)]
pub struct ColumnSchema {
    pub name: String,
    pub physical_type: String,
    /// The richer logical/converted type name (`"String"`, `"DATE"`, ...)
    /// when the file declares one, distinct from the raw physical storage
    /// type (`BYTE_ARRAY`, `INT32`, ...).
    pub logical_type: Option<String>,
}

/// The mathematical value of a [`ColumnSchema`].
#[verifier::ext_equal]
pub struct ColumnSchemaView {
    pub name: Seq<char>,
    pub physical_type: Seq<char>,
    pub logical_type: Option<Seq<char>>,
}

impl View for ColumnSchema {
    type V = ColumnSchemaView;

    open spec fn view(&self) -> ColumnSchemaView {
        ColumnSchemaView {
            name: self.name@,
            physical_type: self.physical_type@,
            logical_type: opt_string_view(self.logical_type),
        }
    }
}

/// One row group's own row count, as recorded in the footer.
#[derive(Debug, Clone, Copy, PartialEq, Eq)]
pub struct RowGroupSummary {
    pub index: usize,
    pub num_rows: i64,
}

/// Per-column statistics, merged across every row group in the file.
/// A value that is honestly unknown is reported as unknown, not silently
/// as zero or by skipping a row group: all three are `None` once any row
/// group's chunk for the column has no statistics recorded at all.
/// `null_count` is also `None` when some chunk's statistics record no null
/// count; `min`/`max` are also `None` when no row group records one (an
/// all-null column).
#[derive(Debug, Clone, PartialEq)]
pub struct ColumnStats {
    pub name: String,
    pub null_count: Option<u64>,
    pub min: Option<Scalar>,
    pub max: Option<Scalar>,
}

/// The mathematical value of a [`ColumnStats`].
#[verifier::ext_equal]
pub struct ColumnStatsView {
    pub name: Seq<char>,
    pub null_count: Option<u64>,
    pub min: Option<ScalarView>,
    pub max: Option<ScalarView>,
}

impl View for ColumnStats {
    type V = ColumnStatsView;

    open spec fn view(&self) -> ColumnStatsView {
        ColumnStatsView {
            name: self.name@,
            null_count: self.null_count,
            min: opt_scalar_view(self.min),
            max: opt_scalar_view(self.max),
        }
    }
}

/// Everything reported about one Parquet file, read entirely from the
/// footer metadata: no row data is decoded to produce it.
#[derive(Debug, Clone, PartialEq)]
pub struct Report {
    pub num_rows: i64,
    pub num_row_groups: usize,
    pub schema: Vec<ColumnSchema>,
    pub row_groups: Vec<RowGroupSummary>,
    pub columns: Vec<ColumnStats>,
}

/// The mathematical value of a [`Report`].
#[verifier::ext_equal]
pub struct ReportView {
    pub num_rows: i64,
    pub num_row_groups: usize,
    pub schema: Seq<ColumnSchemaView>,
    pub row_groups: Seq<RowGroupSummary>,
    pub columns: Seq<ColumnStatsView>,
}

impl View for Report {
    type V = ReportView;

    open spec fn view(&self) -> ReportView {
        ReportView {
            num_rows: self.num_rows,
            num_row_groups: self.num_row_groups,
            schema: self.schema@.map_values(|c: ColumnSchema| c@),
            row_groups: self.row_groups@,
            columns: self.columns@.map_values(|c: ColumnStats| c@),
        }
    }
}

// ---------------------------------------------------------------------
// What the footer says, as plain values

/// What one column chunk's statistics record: its null count and its
/// decoded minimum and maximum, each when known.
#[derive(Debug, Clone, PartialEq)]
pub struct ChunkStats {
    pub null_count: Option<u64>,
    pub min: Option<Scalar>,
    pub max: Option<Scalar>,
}

/// The mathematical value of a [`ChunkStats`].
#[verifier::ext_equal]
pub struct ChunkStatsView {
    pub null_count: Option<u64>,
    pub min: Option<ScalarView>,
    pub max: Option<ScalarView>,
}

impl View for ChunkStats {
    type V = ChunkStatsView;

    open spec fn view(&self) -> ChunkStatsView {
        ChunkStatsView {
            null_count: self.null_count,
            min: opt_scalar_view(self.min),
            max: opt_scalar_view(self.max),
        }
    }
}

/// The view of a column chunk's optional statistics.
pub open spec fn opt_chunk_view(o: Option<ChunkStats>) -> Option<ChunkStatsView> {
    match o {
        Some(c) => Some(c@),
        None => None,
    }
}

/// One row group as the footer records it: its row count and, for each
/// column chunk in schema order, its statistics when it has any.
#[derive(Debug, Clone, PartialEq)]
pub struct RowGroupStats {
    pub num_rows: i64,
    pub chunks: Vec<Option<ChunkStats>>,
}

/// The mathematical value of a [`RowGroupStats`].
#[verifier::ext_equal]
pub struct RowGroupStatsView {
    pub num_rows: i64,
    pub chunks: Seq<Option<ChunkStatsView>>,
}

impl View for RowGroupStats {
    type V = RowGroupStatsView;

    open spec fn view(&self) -> RowGroupStatsView {
        RowGroupStatsView {
            num_rows: self.num_rows,
            chunks: self.chunks@.map_values(|c: Option<ChunkStats>| opt_chunk_view(c)),
        }
    }
}

/// A footer as plain values: total row count, schema, and row groups in
/// file order.
#[derive(Debug, Clone, PartialEq)]
pub struct FooterModel {
    pub num_rows: i64,
    pub schema: Vec<ColumnSchema>,
    pub row_groups: Vec<RowGroupStats>,
}

/// The mathematical value of a [`FooterModel`].
#[verifier::ext_equal]
pub struct FooterModelView {
    pub num_rows: i64,
    pub schema: Seq<ColumnSchemaView>,
    pub row_groups: Seq<RowGroupStatsView>,
}

impl View for FooterModel {
    type V = FooterModelView;

    open spec fn view(&self) -> FooterModelView {
        FooterModelView {
            num_rows: self.num_rows,
            schema: self.schema@.map_values(|c: ColumnSchema| c@),
            row_groups: self.row_groups@.map_values(|g: RowGroupStats| g@),
        }
    }
}

// ---------------------------------------------------------------------
// Merging statistics across row groups

/// The running null count of column `col` after one more row group: the
/// sum so far plus this chunk's count while both are known; unknown once
/// any chunk lacks statistics or a null count. A row group without a chunk
/// for the column leaves it as it was.
pub open spec fn null_step(prev: Option<int>, g: RowGroupStatsView, col: int) -> Option<int> {
    if 0 <= col < g.chunks.len() {
        match g.chunks[col] {
            Some(st) => match (prev, st.null_count) {
                (Some(a), Some(b)) => Some(a + b),
                _ => None,
            },
            None => None,
        }
    } else {
        prev
    }
}

/// The null count of column `col` merged over the first `k` row groups.
pub open spec fn null_upto(groups: Seq<RowGroupStatsView>, k: nat, col: int) -> Option<int>
    decreases k,
{
    if k == 0 {
        Some(0)
    } else {
        null_step(null_upto(groups, (k - 1) as nat, col), groups[k - 1], col)
    }
}

/// The running minimum of column `col` after one more row group: this
/// chunk's minimum, when it records one, is folded into the minimum so far
/// (see [`min_view`]).
pub open spec fn min_step(prev: Option<ScalarView>, g: RowGroupStatsView, col: int) -> Option<ScalarView> {
    if 0 <= col < g.chunks.len() {
        match g.chunks[col] {
            Some(st) => match st.min {
                Some(m) => match prev {
                    Some(e) => Some(min_view(e, m)),
                    None => Some(m),
                },
                None => prev,
            },
            None => prev,
        }
    } else {
        prev
    }
}

/// The minimum of column `col` merged over the first `k` row groups.
pub open spec fn min_upto(groups: Seq<RowGroupStatsView>, k: nat, col: int) -> Option<ScalarView>
    decreases k,
{
    if k == 0 {
        None
    } else {
        min_step(min_upto(groups, (k - 1) as nat, col), groups[k - 1], col)
    }
}

/// The running maximum of column `col` after one more row group.
pub open spec fn max_step(prev: Option<ScalarView>, g: RowGroupStatsView, col: int) -> Option<ScalarView> {
    if 0 <= col < g.chunks.len() {
        match g.chunks[col] {
            Some(st) => match st.max {
                Some(m) => match prev {
                    Some(e) => Some(max_view(e, m)),
                    None => Some(m),
                },
                None => prev,
            },
            None => prev,
        }
    } else {
        prev
    }
}

/// The maximum of column `col` merged over the first `k` row groups.
pub open spec fn max_upto(groups: Seq<RowGroupStatsView>, k: nat, col: int) -> Option<ScalarView>
    decreases k,
{
    if k == 0 {
        None
    } else {
        max_step(max_upto(groups, (k - 1) as nat, col), groups[k - 1], col)
    }
}

/// The minimum one row group records for column `col`, if any.
pub open spec fn recorded_min(g: RowGroupStatsView, col: int) -> Option<ScalarView> {
    if 0 <= col < g.chunks.len() {
        match g.chunks[col] {
            Some(st) => st.min,
            None => None,
        }
    } else {
        None
    }
}

/// The maximum one row group records for column `col`, if any.
pub open spec fn recorded_max(g: RowGroupStatsView, col: int) -> Option<ScalarView> {
    if 0 <= col < g.chunks.len() {
        match g.chunks[col] {
            Some(st) => st.max,
            None => None,
        }
    } else {
        None
    }
}

/// Whether a row group leaves column `col`'s null count unknown: it has a
/// chunk for the column, and that chunk has no statistics or no null
/// count.
pub open spec fn leaves_nulls_unknown(g: RowGroupStatsView, col: int) -> bool {
    0 <= col < g.chunks.len() && match g.chunks[col] {
        Some(st) => st.null_count is None,
        None => true,
    }
}

/// The null count one row group records for column `col`, zero when none.
pub open spec fn recorded_nulls(g: RowGroupStatsView, col: int) -> int {
    if 0 <= col < g.chunks.len() {
        match g.chunks[col] {
            Some(st) => match st.null_count {
                Some(n) => n as int,
                None => 0,
            },
            None => 0,
        }
    } else {
        0
    }
}

/// The sum of the null counts the first `k` row groups record for `col`.
pub open spec fn nulls_sum(groups: Seq<RowGroupStatsView>, k: nat, col: int) -> int
    decreases k,
{
    if k == 0 {
        0
    } else {
        nulls_sum(groups, (k - 1) as nat, col) + recorded_nulls(groups[k - 1], col)
    }
}

/// Whether a row group has a chunk for column `col` that records no
/// statistics at all.
pub open spec fn chunk_lacks_statistics(g: RowGroupStatsView, col: int) -> bool {
    0 <= col < g.chunks.len() && g.chunks[col] is None
}

/// Whether one of the first `k` row groups has a chunk for column `col`
/// without statistics.
pub open spec fn statistics_missing_upto(groups: Seq<RowGroupStatsView>, k: nat, col: int) -> bool
    decreases k,
{
    if k == 0 {
        false
    } else {
        statistics_missing_upto(groups, (k - 1) as nat, col) || chunk_lacks_statistics(groups[k - 1], col)
    }
}

/// The merged minimum a column reports: unknown (`None`) once any row
/// group's chunk for it has no statistics, and otherwise the minimums the
/// row groups record folded together (see [`min_step`]).
pub open spec fn column_min(groups: Seq<RowGroupStatsView>, col: int) -> Option<ScalarView> {
    if statistics_missing_upto(groups, groups.len(), col) {
        None
    } else {
        min_upto(groups, groups.len(), col)
    }
}

/// The merged maximum a column reports (see [`column_min`]).
pub open spec fn column_max(groups: Seq<RowGroupStatsView>, col: int) -> Option<ScalarView> {
    if statistics_missing_upto(groups, groups.len(), col) {
        None
    } else {
        max_upto(groups, groups.len(), col)
    }
}

/// No row group has more column chunks than the schema has columns.
pub open spec fn chunks_fit_schema(m: FooterModelView) -> bool {
    forall|i: int| 0 <= i < m.row_groups.len() ==> #[trigger] m.row_groups[i].chunks.len() <= m.schema.len()
}

/// Every running null-count sum fits in a `u64`.
pub open spec fn null_counts_fit(m: FooterModelView) -> bool {
    forall|k: nat, col: int|
        k <= m.row_groups.len() && 0 <= col < m.schema.len() ==> match #[trigger] null_upto(m.row_groups, k, col) {
            Some(v) => v <= u64::MAX,
            None => true,
        }
}

/// A footer the report can be built from without an out-of-range column
/// or an overflowing null count.
pub open spec fn summarizable(m: FooterModelView) -> bool {
    chunks_fit_schema(m) && null_counts_fit(m)
}

/// A merged null count as the report holds it.
pub open spec fn opt_count(o: Option<int>) -> Option<u64> {
    match o {
        Some(v) => Some(v as u64),
        None => None,
    }
}

/// The merged statistics of column `i`.
pub open spec fn column_stats_of(m: FooterModelView, i: int) -> ColumnStatsView {
    ColumnStatsView {
        name: m.schema[i].name,
        null_count: opt_count(null_upto(m.row_groups, m.row_groups.len(), i)),
        min: column_min(m.row_groups, i),
        max: column_max(m.row_groups, i),
    }
}

/// The report of a footer: its row count, its row groups numbered in file
/// order with their row counts, its schema, and one merged statistics
/// entry per schema column.
pub open spec fn report_of(m: FooterModelView) -> ReportView {
    ReportView {
        num_rows: m.num_rows,
        num_row_groups: m.row_groups.len() as usize,
        schema: m.schema,
        row_groups: Seq::new(
            m.row_groups.len(),
            |i: int| RowGroupSummary { index: i as usize, num_rows: m.row_groups[i].num_rows },
        ),
        columns: Seq::new(m.schema.len(), |i: int| column_stats_of(m, i)),
    }
}


/// A null count as an optional integer.
pub open spec fn count_view(o: Option<u64>) -> Option<int> {
    match o {
        Some(v) => Some(v as int),
        None => None,
    }
}

/// Builds the report of a footer: the schema as the footer records it,
/// each row group's own row count in file order, and for each schema
/// column its null count, minimum and maximum merged across every row
/// group (see [`null_step`], [`min_step`], [`max_step`]).
pub fn summarize(model: FooterModel) -> (r: Report)
    requires
        summarizable(model@),
    ensures
        r@ == report_of(model@),
{
    let ghost mv = model@;
    let FooterModel { num_rows, schema, row_groups } = model;
    let ghost groups = mv.row_groups;
    let mut row_groups = row_groups;
    let ncols = schema.len();
    let num_row_groups = row_groups.len();

    // running per-column aggregation, indexed the same as `schema`
    let mut null_counts: Vec<Option<u64>> = Vec::new();
    let mut mins: Vec<Option<Scalar>> = Vec::new();
    let mut maxes: Vec<Option<Scalar>> = Vec::new();
    let mut missing: Vec<bool> = Vec::new();
    let mut c: usize = 0;
    while c < ncols
        invariant
            c <= ncols,
            null_counts@.len() == c,
            mins@.len() == c,
            maxes@.len() == c,
            missing@.len() == c,
            forall|j: int| 0 <= j < c ==> !#[trigger] missing@[j],
            forall|j: int| 0 <= j < c ==> #[trigger] null_counts@[j] == Some(0u64),
            forall|j: int| 0 <= j < c ==> #[trigger] mins@[j] is None,
            forall|j: int| 0 <= j < c ==> #[trigger] maxes@[j] is None,
        decreases ncols - c,
    {
        null_counts.push(Some(0));
        mins.push(None);
        maxes.push(None);
        missing.push(false);
        c = c + 1;
    }

    let mut summaries: Vec<RowGroupSummary> = Vec::new();
    let mut k: usize = 0;
    while k < num_row_groups
        invariant
            k <= num_row_groups,
            num_row_groups == groups.len(),
            groups == mv.row_groups,
            ncols == mv.schema.len(),
            summarizable(mv),
            row_groups@.len() == groups.len(),
            forall|j: int| k <= j < groups.len() ==> (#[trigger] row_groups@[j])@ == groups[j],
            null_counts@.len() == ncols,
            mins@.len() == ncols,
            maxes@.len() == ncols,
            forall|j: int| 0 <= j < ncols ==> count_view(#[trigger] null_counts@[j]) == null_upto(groups, k as nat, j),
            forall|j: int| 0 <= j < ncols ==> opt_scalar_view(#[trigger] mins@[j]) == min_upto(groups, k as nat, j),
            forall|j: int| 0 <= j < ncols ==> opt_scalar_view(#[trigger] maxes@[j]) == max_upto(groups, k as nat, j),
            missing@.len() == ncols,
            forall|j: int| 0 <= j < ncols ==> #[trigger] missing@[j] == statistics_missing_upto(groups, k as nat, j),
            summaries@.len() == k,
            forall|j: int| 0 <= j < k ==> #[trigger] summaries@[j] == (RowGroupSummary { index: j as usize, num_rows: groups[j].num_rows }),
        decreases num_row_groups - k,
    {
        let mut rg = RowGroupStats { num_rows: 0, chunks: Vec::new() };
        std::mem::swap(&mut rg, &mut row_groups[k]);
        let ghost g = groups[k as int];
        assert(rg@ == g);
        summaries.push(RowGroupSummary { index: k, num_rows: rg.num_rows });
        let RowGroupStats { num_rows: _, chunks } = rg;
        let mut chunks = chunks;
        let nchunks = chunks.len();
        assert(mv.row_groups[k as int].chunks.len() <= mv.schema.len());
        assert(g.chunks.len() == nchunks);
        let mut col: usize = 0;
        while col < nchunks
            invariant
                k < num_row_groups,
                num_row_groups == groups.len(),
                groups == mv.row_groups,
                ncols == mv.schema.len(),
                summarizable(mv),
                g == groups[k as int],
                nchunks == g.chunks.len(),
                nchunks <= ncols,
                col <= nchunks,
                chunks@.len() == nchunks,
                forall|j: int| col <= j < nchunks ==> opt_chunk_view(#[trigger] chunks@[j]) == g.chunks[j],
                null_counts@.len() == ncols,
                mins@.len() == ncols,
                maxes@.len() == ncols,
                forall|j: int| 0 <= j < col ==> count_view(#[trigger] null_counts@[j]) == null_upto(groups, (k + 1) as nat, j),
                forall|j: int| 0 <= j < col ==> opt_scalar_view(#[trigger] mins@[j]) == min_upto(groups, (k + 1) as nat, j),
                forall|j: int| 0 <= j < col ==> opt_scalar_view(#[trigger] maxes@[j]) == max_upto(groups, (k + 1) as nat, j),
                missing@.len() == ncols,
                forall|j: int| 0 <= j < col ==> #[trigger] missing@[j] == statistics_missing_upto(groups, (k + 1) as nat, j),
                forall|j: int| col <= j < ncols ==> #[trigger] missing@[j] == statistics_missing_upto(groups, k as nat, j),
                forall|j: int| col <= j < ncols ==> count_view(#[trigger] null_counts@[j]) == null_upto(groups, k as nat, j),
                forall|j: int| col <= j < ncols ==> opt_scalar_view(#[trigger] mins@[j]) == min_upto(groups, k as nat, j),
                forall|j: int| col <= j < ncols ==> opt_scalar_view(#[trigger] maxes@[j]) == max_upto(groups, k as nat, j),
            decreases nchunks - col,
        {
            let ghost c = col as int;
            assert(null_upto(groups, (k + 1) as nat, c) == null_step(null_upto(groups, k as nat, c), g, c));
            assert(min_upto(groups, (k + 1) as nat, c) == min_step(min_upto(groups, k as nat, c), g, c));
            assert(max_upto(groups, (k + 1) as nat, c) == max_step(max_upto(groups, k as nat, c), g, c));
            assert(statistics_missing_upto(groups, (k + 1) as nat, c) == (statistics_missing_upto(groups, k as nat, c) || chunk_lacks_statistics(g, c)));
            let chunk = chunks[col].take();
            assert(opt_chunk_view(chunk) == g.chunks[c]);
            match chunk {
                Some(stats) => {
                    let ChunkStats { null_count, min, max } = stats;
                    let running = null_counts[col];
                    let merged_count = match (running, null_count) {
                        (Some(a), Some(b)) => {
                            assert(null_upto(groups, (k + 1) as nat, c) == Some(a + b));
                            Some(a + b)
                        },
                        _ => None,
                    };
                    null_counts.set(col, merged_count);
                    match min {
                        Some(m) => {
                            let existing = mins[col].take();
                            let folded = match existing {
                                Some(e) => scalar_min(e, m),
                                None => m,
                            };
                            mins.set(col, Some(folded));
                        },
                        None => {},
                    }
                    match max {
                        Some(m) => {
                            let existing = maxes[col].take();
                            let folded = match existing {
                                Some(e) => scalar_max(e, m),
                                None => m,
                            };
                            maxes.set(col, Some(folded));
                        },
                        None => {},
                    }
                },
                None => {
                    null_counts.set(col, None);
                    missing.set(col, true);
                },
            }
            col = col + 1;
        }
        assert forall|j: int| nchunks <= j < ncols implies
            null_upto(groups, (k + 1) as nat, j) == null_upto(groups, k as nat, j)
            && min_upto(groups, (k + 1) as nat, j) == min_upto(groups, k as nat, j)
            && max_upto(groups, (k + 1) as nat, j) == max_upto(groups, k as nat, j)
            && statistics_missing_upto(groups, (k + 1) as nat, j) == statistics_missing_upto(groups, k as nat, j) by {}
        k = k + 1;
    }

    let mut columns: Vec<ColumnStats> = Vec::new();
    let mut i: usize = 0;
    while i < ncols
        invariant
            i <= ncols,
            ncols == mv.schema.len(),
            schema@.map_values(|c: ColumnSchema| c@) == mv.schema,
            num_row_groups == groups.len(),
            groups == mv.row_groups,
            summarizable(mv),
            null_counts@.len() == ncols,
            mins@.len() == ncols,
            maxes@.len() == ncols,
            forall|j: int| 0 <= j < ncols ==> count_view(#[trigger] null_counts@[j]) == null_upto(groups, groups.len(), j),
            forall|j: int| i <= j < ncols ==> opt_scalar_view(#[trigger] mins@[j]) == min_upto(groups, groups.len(), j),
            forall|j: int| i <= j < ncols ==> opt_scalar_view(#[trigger] maxes@[j]) == max_upto(groups, groups.len(), j),
            missing@.len() == ncols,
            forall|j: int| 0 <= j < ncols ==> #[trigger] missing@[j] == statistics_missing_upto(groups, groups.len(), j),
            columns@.len() == i,
            forall|j: int| 0 <= j < i ==> (#[trigger] columns@[j])@ == column_stats_of(mv, j),
        decreases ncols - i,
    {
        let name = schema[i].name.clone();
        assert(schema@[i as int]@ == mv.schema[i as int]);
        // a row group without statistics leaves the bounds unknown
        let min = if missing[i] { None } else { mins[i].take() };
        let max = if missing[i] { None } else { maxes[i].take() };
        let null_count = null_counts[i];
        assert(null_upto(groups, groups.len(), i as int) matches Some(v) ==> v <= u64::MAX);
        columns.push(ColumnStats { name, null_count, min, max });
        i = i + 1;
    }
    let r = Report { num_rows, num_row_groups, schema, row_groups: summaries, columns };
    assert(r@.schema =~= report_of(mv).schema);
    assert(r@.row_groups =~= report_of(mv).row_groups);
    assert(r@.columns =~= report_of(mv).columns);
    r
}


/// Whether every row group has at most as many column chunks as the
/// schema has columns.
fn chunks_within_schema(model: &FooterModel) -> (b: bool)
    ensures
        b == chunks_fit_schema(model@),
{
    let ncols = model.schema.len();
    let n = model.row_groups.len();
    let mut k: usize = 0;
    while k < n
        invariant
            k <= n,
            n == model@.row_groups.len(),
            ncols == model@.schema.len(),
            forall|i: int| 0 <= i < k ==> #[trigger] model@.row_groups[i].chunks.len() <= model@.schema.len(),
        decreases n - k,
    {
        assert(model@.row_groups[k as int] == model.row_groups@[k as int]@);
        if model.row_groups[k].chunks.len() > ncols {
            assert(model@.row_groups[k as int].chunks.len() > model@.schema.len());
            return false;
        }
        k = k + 1;
    }
    true
}

/// Whether every running null-count sum fits in a `u64`.
fn null_counts_within_range(model: &FooterModel) -> (b: bool)
    requires
        chunks_fit_schema(model@),
    ensures
        b == null_counts_fit(model@),
{
    let ghost mv = model@;
    let ghost groups = mv.row_groups;
    let ncols = model.schema.len();
    let n = model.row_groups.len();
    let mut running: Vec<Option<u64>> = Vec::new();
    let mut c: usize = 0;
    while c < ncols
        invariant
            c <= ncols,
            running@.len() == c,
            forall|j: int| 0 <= j < c ==> #[trigger] running@[j] == Some(0u64),
        decreases ncols - c,
    {
        running.push(Some(0));
        c = c + 1;
    }
    let mut k: usize = 0;
    while k < n
        invariant
            k <= n,
            n == groups.len(),
            groups == mv.row_groups,
            mv == model@,
            ncols == mv.schema.len(),
            chunks_fit_schema(mv),
            running@.len() == ncols,
            forall|j: int| 0 <= j < ncols ==> count_view(#[trigger] running@[j]) == null_upto(groups, k as nat, j),
            forall|kk: nat, j: int| kk <= k && 0 <= j < ncols ==> match #[trigger] null_upto(groups, kk, j) {
                Some(v) => v <= u64::MAX,
                None => true,
            },
        decreases n - k,
    {
        let g = &model.row_groups[k];
        let ghost gv = groups[k as int];
        assert(g@ == gv);
        assert(mv.row_groups[k as int].chunks.len() <= mv.schema.len());
        let nchunks = g.chunks.len();
        assert(gv.chunks.len() == nchunks);
        let mut col: usize = 0;
        while col < nchunks
            invariant
                k < n,
                n == groups.len(),
                groups == mv.row_groups,
                mv == model@,
                ncols == mv.schema.len(),
                gv == groups[k as int],
                g@ == gv,
                nchunks == gv.chunks.len(),
                nchunks <= ncols,
                col <= nchunks,
                running@.len() == ncols,
                forall|j: int| 0 <= j < col ==> count_view(#[trigger] running@[j]) == null_upto(groups, (k + 1) as nat, j),
                forall|j: int| col <= j < ncols ==> count_view(#[trigger] running@[j]) == null_upto(groups, k as nat, j),
                forall|kk: nat, j: int| kk <= k && 0 <= j < ncols ==> match #[trigger] null_upto(groups, kk, j) {
                    Some(v) => v <= u64::MAX,
                    None => true,
                },
            decreases nchunks - col,
        {
            let ghost cc = col as int;
            assert(null_upto(groups, (k + 1) as nat, cc) == null_step(null_upto(groups, k as nat, cc), gv, cc));
            assert(opt_chunk_view(g.chunks@[cc]) == gv.chunks[cc]);
            match &g.chunks[col] {
                Some(st) => match (running[col], st.null_count) {
                    (Some(a), Some(b)) => {
                        if a > u64::MAX - b {
                            assert(null_upto(groups, (k + 1) as nat, cc) == Some(a + b));
                            assert(!(match null_upto(mv.row_groups, (k + 1) as nat, cc) {
                                Some(v) => v <= u64::MAX,
                                None => true,
                            }));
                            return false;
                        }
                        running.set(col, Some(a + b));
                    },
                    _ => {
                        running.set(col, None);
                    },
                },
                None => {
                    running.set(col, None);
                },
            }
            col = col + 1;
        }
        assert forall|j: int| nchunks <= j < ncols implies
            null_upto(groups, (k + 1) as nat, j) == null_upto(groups, k as nat, j) by {}
        assert forall|kk: nat, j: int| kk <= k + 1 && 0 <= j < ncols implies match #[trigger] null_upto(groups, kk, j) {
            Some(v) => v <= u64::MAX,
            None => true,
        } by {
            if kk == k + 1 {
                assert(count_view(running@[j]) == null_upto(groups, kk, j));
            }
        }
        k = k + 1;
    }
    true
}


// ---------------------------------------------------------------------
// Reading the footer the parquet crate decoded

/// The logical-type name a column reports: its logical type's `Debug`
/// text when it declares one, else its legacy converted type's name
/// unless that is `NONE`, else nothing.
pub open spec fn logical_name_of(c: ColumnDescriptor) -> Option<Seq<char>> {
    match column_logical_of(c) {
        Some(lt) => Some(logical_type_text(lt)),
        None => if converted_type_name(column_converted_of(c)) == seq!['N', 'O', 'N', 'E'] {
            None
        } else {
            Some(converted_type_name(column_converted_of(c)))
        },
    }
}

/// A column's schema entry: its name, its physical type's name, and its
/// logical-type name (see [`logical_name_of`]).
pub open spec fn column_schema_of(c: ColumnDescriptor) -> ColumnSchemaView {
    ColumnSchemaView {
        name: column_name_of(c),
        physical_type: physical_type_name(column_physical_of(c)),
        logical_type: logical_name_of(c),
    }
}

/// What a column chunk's statistics record, decoded; `None` when the
/// chunk has no statistics.
pub open spec fn chunk_stats_of(c: ColumnChunkMetaData) -> Option<ChunkStatsView> {
    match chunk_statistics_of(c) {
        Some(s) => Some(ChunkStatsView {
            null_count: stats_null_count_of(s),
            min: opt_stat_scalar(stats_min_of(s)),
            max: opt_stat_scalar(stats_max_of(s)),
        }),
        None => None,
    }
}

/// A row group's row count and its chunks' statistics, in order.
pub open spec fn row_group_stats_of(g: RowGroupMetaData) -> RowGroupStatsView {
    RowGroupStatsView {
        num_rows: row_group_rows(g),
        chunks: row_group_chunks(g).map_values(|c: ColumnChunkMetaData| chunk_stats_of(c)),
    }
}

/// A decoded footer as plain values.
pub open spec fn footer_model_of(m: ParquetMetaData) -> FooterModelView {
    FooterModelView {
        num_rows: file_rows(file_part(m)),
        schema: schema_leaves(file_schema(file_part(m))).map_values(|c: ColumnDescriptor| column_schema_of(c)),
        row_groups: row_groups_of(m).map_values(|g: RowGroupMetaData| row_group_stats_of(g)),
    }
}

/// One column's schema entry, read from its descriptor.
fn column_schema(desc: &ColumnDescriptor) -> (r: ColumnSchema)
    requires
        column_is_leaf(*desc),
    ensures
        r@ == column_schema_of(*desc),
{
    let physical_type = physical_type_text(&column_physical_type(desc));
    let logical_type = match column_logical_type(desc) {
        Some(lt) => Some(logical_type_debug(lt)),
        None => {
            let ct = column_converted_type(desc);
            if converted_type_is_none(&ct) {
                None
            } else {
                Some(converted_type_text(&ct))
            }
        },
    };
    ColumnSchema { name: column_name(desc), physical_type, logical_type }
}

/// One column chunk's statistics, read and decoded.
fn chunk_stats(chunk: &ColumnChunkMetaData) -> (r: Option<ChunkStats>)
    requires
        match chunk_statistics_of(*chunk) {
            Some(st) => stats_bytes_present(st),
            None => true,
        },
    ensures
        opt_chunk_view(r) == chunk_stats_of(*chunk),
{
    match chunk_statistics(chunk) {
        Some(stats) => Some(ChunkStats {
            null_count: stats_null_count(stats),
            min: min_from_statistics(stats),
            max: max_from_statistics(stats),
        }),
        None => None,
    }
}

/// Whether every column chunk's statistics in a footer hold the bytes of
/// their byte-array bounds, as those the parquet crate decodes do.
pub open spec fn footer_stats_have_bytes(m: ParquetMetaData) -> bool {
    forall|i: int, j: int|
        0 <= i < row_groups_of(m).len() && 0 <= j < row_group_chunks(row_groups_of(m)[i]).len()
            ==> match chunk_statistics_of(#[trigger] row_group_chunks(row_groups_of(m)[i])[j]) {
            Some(st) => stats_bytes_present(st),
            None => true,
        }
}

/// Reads what the report needs from decoded footer metadata: the total
/// row count, every schema column, and every row group's row count and
/// column-chunk statistics, in order.
pub fn read_footer_model(metadata: &ParquetMetaData) -> (r: FooterModel)
    requires
        footer_stats_have_bytes(*metadata),
    ensures
        r@ == footer_model_of(*metadata),
{
    let file = metadata_file(metadata);
    let num_rows = file_num_rows(file);
    let schema_descr = file_schema_descr(file);
    let ghost leaves = schema_leaves(file_schema(file_part(*metadata)));
    let ncols = schema_num_columns(schema_descr);
    let mut schema: Vec<ColumnSchema> = Vec::new();
    let mut i: usize = 0;
    while i < ncols
        invariant
            i <= ncols,
            ncols == leaves.len(),
            *schema_descr == file_schema(file_part(*metadata)),
            leaves == schema_leaves(*schema_descr),
            schema@.len() == i,
            forall|j: int| 0 <= j < i ==> (#[trigger] schema@[j])@ == column_schema_of(leaves[j]),
        decreases ncols - i,
    {
        let desc = schema_column(schema_descr, i);
        schema.push(column_schema(&desc));
        i = i + 1;
    }

    let ghost groups = row_groups_of(*metadata);
    let n = metadata_num_row_groups(metadata);
    let mut row_groups: Vec<RowGroupStats> = Vec::new();
    let mut k: usize = 0;
    while k < n
        invariant
            k <= n,
            n == groups.len(),
            groups == row_groups_of(*metadata),
            footer_stats_have_bytes(*metadata),
            row_groups@.len() == k,
            forall|j: int| 0 <= j < k ==> (#[trigger] row_groups@[j])@ == row_group_stats_of(groups[j]),
        decreases n - k,
    {
        let group = metadata_row_group(metadata, k);
        let ghost gchunks = row_group_chunks(*group);
        let nchunks = row_group_num_columns(group);
        let mut chunks: Vec<Option<ChunkStats>> = Vec::new();
        let mut c: usize = 0;
        while c < nchunks
            invariant
                c <= nchunks,
                nchunks == gchunks.len(),
                gchunks == row_group_chunks(*group),
                k < groups.len(),
                *group == groups[k as int],
                groups == row_groups_of(*metadata),
                footer_stats_have_bytes(*metadata),
                chunks@.len() == c,
                forall|j: int| 0 <= j < c ==> opt_chunk_view(#[trigger] chunks@[j]) == chunk_stats_of(gchunks[j]),
            decreases nchunks - c,
        {
            let chunk = row_group_column(group, c);
            assert(*chunk == row_group_chunks(row_groups_of(*metadata)[k as int])[c as int]);
            chunks.push(chunk_stats(chunk));
            c = c + 1;
        }
        let rg = RowGroupStats { num_rows: row_group_num_rows(group), chunks };
        assert(rg@.chunks =~= row_group_stats_of(*group).chunks);
        row_groups.push(rg);
        k = k + 1;
    }
    let r = FooterModel { num_rows, schema, row_groups };
    assert(r@.schema =~= footer_model_of(*metadata).schema);
    assert(r@.row_groups =~= footer_model_of(*metadata).row_groups);
    r
}

/// Why a footer could not be reported on.
#[derive(Debug, PartialEq)]
pub enum InspectError {
    /// The parquet crate refused the bytes as a Parquet file; its message.
    Footer(String),
    /// A row group lists more column chunks than the schema has columns.
    ColumnCountMismatch,
    /// A column's null counts, summed across row groups, exceed `u64::MAX`.
    NullCountOverflow,
}

/// Checks that a footer can be merged into a report (see
/// [`summarizable`]), naming what stands in the way when it cannot.
pub fn check_footer_model(model: &FooterModel) -> (r: Result<(), InspectError>)
    ensures
        !chunks_fit_schema(model@) ==> r matches Err(InspectError::ColumnCountMismatch),
        chunks_fit_schema(model@) && !null_counts_fit(model@) ==> r matches Err(InspectError::NullCountOverflow),
        summarizable(model@) ==> r is Ok,
{
    if !chunks_within_schema(model) {
        Err(InspectError::ColumnCountMismatch)
    } else if !null_counts_within_range(model) {
        Err(InspectError::NullCountOverflow)
    } else {
        Ok(())
    }
}

/// Builds the report of a whole Parquet file held in memory, from its
/// footer alone: the parquet crate decodes the footer, and the report is
/// [`report_of`] the decoded footer. A footer the crate refuses is
/// [`InspectError::Footer`] with the crate's own message; one that cannot be merged (see
/// [`summarizable`]) is one of the other errors.
pub fn inspect_footer(bytes: Vec<u8>) -> (r: Result<Report, InspectError>)
    ensures
        footer_of(bytes@) matches Err(e) ==> r matches Err(InspectError::Footer(message))
            && message@ == error_text(e),
        footer_of(bytes@) matches Ok(m) ==> {
            if !chunks_fit_schema(footer_model_of(m)) {
                r matches Err(InspectError::ColumnCountMismatch)
            } else if !null_counts_fit(footer_model_of(m)) {
                r matches Err(InspectError::NullCountOverflow)
            } else {
                r matches Ok(report) && report@ == report_of(footer_model_of(m))
            }
        },
{
    match read_footer_metadata(bytes) {
        Err(e) => Err(InspectError::Footer(parquet_error_text(&e))),
        Ok(metadata) => {
            let model = read_footer_model(&metadata);
            match check_footer_model(&model) {
                Err(e) => Err(e),
                Ok(()) => Ok(summarize(model)),
            }
        },
    }
}


// ---------------------------------------------------------------------
// Laws of merging across row groups

/// All minimums (or all maximums, `maxes`) recorded for column `col` can
/// be ranked against each other: one kind of value, no NaN.
pub open spec fn recorded_comparable(groups: Seq<RowGroupStatsView>, col: int, maxes: bool) -> bool {
    forall|i: int, j: int|
        0 <= i < groups.len() && 0 <= j < groups.len() ==> match (
            if maxes { recorded_max(#[trigger] groups[i], col) } else { recorded_min(groups[i], col) },
            if maxes { recorded_max(#[trigger] groups[j], col) } else { recorded_min(groups[j], col) },
        ) {
            (Some(x), Some(y)) => comparable(x, y),
            _ => true,
        }
}

/// The known null count of a column merged over `k` row groups is the
/// sum of the counts they record; it is unknown exactly when one of them
/// has a chunk for the column without statistics or without a null count.
pub proof fn merged_null_count_is_sum(groups: Seq<RowGroupStatsView>, k: nat, col: int)
    requires
        k <= groups.len(),
        0 <= col,
    ensures
        null_upto(groups, k, col) == if (exists|i: int| 0 <= i < k && leaves_nulls_unknown(#[trigger] groups[i], col)) {
            None
        } else {
            Some(nulls_sum(groups, k, col))
        },
    decreases k,
{
    if k > 0 {
        merged_null_count_is_sum(groups, (k - 1) as nat, col);
        if exists|i: int| 0 <= i < k - 1 && leaves_nulls_unknown(#[trigger] groups[i], col) {
            let i0 = choose|i: int| 0 <= i < k - 1 && leaves_nulls_unknown(#[trigger] groups[i], col);
            assert(0 <= i0 < k && leaves_nulls_unknown(groups[i0], col));
        } else if leaves_nulls_unknown(groups[k - 1], col) {
            assert(0 <= k - 1 < k && leaves_nulls_unknown(groups[k - 1], col));
        } else {
            assert forall|i: int| 0 <= i < k implies !leaves_nulls_unknown(#[trigger] groups[i], col) by {
                if i < k - 1 {
                }
            }
        }
    }
}

/// The minimum of a column merged over `k` row groups is absent exactly
/// when none of them records one; the same holds of the maximum.
proof fn fold_bounds_absent_iff_unrecorded(groups: Seq<RowGroupStatsView>, k: nat, col: int)
    requires
        k <= groups.len(),
        0 <= col,
    ensures
        min_upto(groups, k, col) is None <==> (forall|i: int| 0 <= i < k ==> (#[trigger] recorded_min(groups[i], col)) is None),
        max_upto(groups, k, col) is None <==> (forall|i: int| 0 <= i < k ==> (#[trigger] recorded_max(groups[i], col)) is None),
    decreases k,
{
    if k > 0 {
        fold_bounds_absent_iff_unrecorded(groups, (k - 1) as nat, col);
        if recorded_min(groups[k - 1], col) is None {
            assert forall|i: int| 0 <= i < k && (forall|j: int| 0 <= j < k - 1 ==> (#[trigger] recorded_min(groups[j], col)) is None) implies (#[trigger] recorded_min(groups[i], col)) is None by {
                if i < k - 1 {
                    assert(recorded_min(groups[i], col) is None);
                }
            }
        }
        if recorded_max(groups[k - 1], col) is None {
            assert forall|i: int| 0 <= i < k && (forall|j: int| 0 <= j < k - 1 ==> (#[trigger] recorded_max(groups[j], col)) is None) implies (#[trigger] recorded_max(groups[i], col)) is None by {
                if i < k - 1 {
                    assert(recorded_max(groups[i], col) is None);
                }
            }
        }
    }
}

/// The minimum of a column merged over `k` row groups is a minimum that
/// one of them records, and no row group records a smaller one - when the
/// recorded minimums can all be ranked (one kind of value, no NaN).
proof fn fold_min_is_least(groups: Seq<RowGroupStatsView>, k: nat, col: int)
    requires
        k <= groups.len(),
        0 <= col,
        recorded_comparable(groups, col, false),
    ensures
        min_upto(groups, k, col) matches Some(v) ==> {
            &&& exists|i: int| 0 <= i < k && #[trigger] recorded_min(groups[i], col) == Some(v)
            &&& forall|i: int| 0 <= i < k ==> match #[trigger] recorded_min(groups[i], col) {
                Some(m) => at_most(v, m),
                None => true,
            }
        },
    decreases k,
{
    if k > 0 {
        fold_min_is_least(groups, (k - 1) as nat, col);
        fold_bounds_absent_iff_unrecorded(groups, (k - 1) as nat, col);
        let last = k - 1;
        match recorded_min(groups[last], col) {
            None => {
                assert(min_upto(groups, k, col) == min_upto(groups, (k - 1) as nat, col));
            },
            Some(m) => {
                assert(match (recorded_min(groups[last], col), recorded_min(groups[last], col)) {
                    (Some(x), Some(y)) => comparable(x, y),
                    _ => true,
                });
                at_most_reflexive(m);
                match min_upto(groups, (k - 1) as nat, col) {
                    None => {
                        assert(min_upto(groups, k, col) == Some(m));
                        assert(recorded_min(groups[last], col) == Some(m));
                    },
                    Some(e) => {
                        let i0 = choose|i: int| 0 <= i < k - 1 && #[trigger] recorded_min(groups[i], col) == Some(e);
                        assert(match (recorded_min(groups[i0], col), recorded_min(groups[last], col)) {
                            (Some(x), Some(y)) => comparable(x, y),
                            _ => true,
                        });
                        let v = min_view(e, m);
                        assert(min_upto(groups, k, col) == Some(v));
                        min_max_bound_both(e, m);
                        at_most_reflexive(e);
                        if v == e {
                            assert(recorded_min(groups[i0], col) == Some(v));
                        } else {
                            assert(recorded_min(groups[last], col) == Some(v));
                        }
                        assert forall|i: int| 0 <= i < k implies match #[trigger] recorded_min(groups[i], col) {
                            Some(x) => at_most(v, x),
                            None => true,
                        } by {
                            if i < k - 1 {
                                if let Some(x) = recorded_min(groups[i], col) {
                                    assert(match (recorded_min(groups[i0], col), recorded_min(groups[i], col)) {
                                        (Some(p), Some(q)) => comparable(p, q),
                                        _ => true,
                                    });
                                    assert(at_most(e, x));
                                    at_most_transitive(v, e, x);
                                }
                            }
                        }
                    },
                }
            },
        }
    }
}

/// The maximum of a column merged over `k` row groups is a maximum that
/// one of them records, and no row group records a larger one - when the
/// recorded maximums can all be ranked (one kind of value, no NaN).
proof fn fold_max_is_greatest(groups: Seq<RowGroupStatsView>, k: nat, col: int)
    requires
        k <= groups.len(),
        0 <= col,
        recorded_comparable(groups, col, true),
    ensures
        max_upto(groups, k, col) matches Some(v) ==> {
            &&& exists|i: int| 0 <= i < k && #[trigger] recorded_max(groups[i], col) == Some(v)
            &&& forall|i: int| 0 <= i < k ==> match #[trigger] recorded_max(groups[i], col) {
                Some(m) => at_least(v, m),
                None => true,
            }
        },
    decreases k,
{
    if k > 0 {
        fold_max_is_greatest(groups, (k - 1) as nat, col);
        fold_bounds_absent_iff_unrecorded(groups, (k - 1) as nat, col);
        let last = k - 1;
        match recorded_max(groups[last], col) {
            None => {
                assert(max_upto(groups, k, col) == max_upto(groups, (k - 1) as nat, col));
            },
            Some(m) => {
                assert(match (recorded_max(groups[last], col), recorded_max(groups[last], col)) {
                    (Some(x), Some(y)) => comparable(x, y),
                    _ => true,
                });
                at_most_reflexive(m);
                match max_upto(groups, (k - 1) as nat, col) {
                    None => {
                        assert(max_upto(groups, k, col) == Some(m));
                        assert(recorded_max(groups[last], col) == Some(m));
                    },
                    Some(e) => {
                        let i0 = choose|i: int| 0 <= i < k - 1 && #[trigger] recorded_max(groups[i], col) == Some(e);
                        assert(match (recorded_max(groups[i0], col), recorded_max(groups[last], col)) {
                            (Some(x), Some(y)) => comparable(x, y),
                            _ => true,
                        });
                        let v = max_view(e, m);
                        assert(max_upto(groups, k, col) == Some(v));
                        min_max_bound_both(e, m);
                        at_most_reflexive(e);
                        if v == e {
                            assert(recorded_max(groups[i0], col) == Some(v));
                        } else {
                            assert(recorded_max(groups[last], col) == Some(v));
                        }
                        assert forall|i: int| 0 <= i < k implies match #[trigger] recorded_max(groups[i], col) {
                            Some(x) => at_least(v, x),
                            None => true,
                        } by {
                            if i < k - 1 {
                                if let Some(x) = recorded_max(groups[i], col) {
                                    assert(match (recorded_max(groups[i0], col), recorded_max(groups[i], col)) {
                                        (Some(p), Some(q)) => comparable(p, q),
                                        _ => true,
                                    });
                                    assert(at_least(e, x));
                                    at_least_transitive(v, e, x);
                                }
                            }
                        }
                    },
                }
            },
        }
    }
}

/// Statistics are missing among the first `k` row groups exactly when one
/// of them has a chunk for the column without statistics.
proof fn missing_iff_some_chunk_lacks(groups: Seq<RowGroupStatsView>, k: nat, col: int)
    requires
        k <= groups.len(),
    ensures
        statistics_missing_upto(groups, k, col) <==> exists|j: int| 0 <= j < k && chunk_lacks_statistics(#[trigger] groups[j], col),
    decreases k,
{
    if k > 0 {
        missing_iff_some_chunk_lacks(groups, (k - 1) as nat, col);
        if statistics_missing_upto(groups, (k - 1) as nat, col) {
            let j = choose|j: int| 0 <= j < k - 1 && chunk_lacks_statistics(#[trigger] groups[j], col);
            assert(0 <= j < k && chunk_lacks_statistics(groups[j], col));
        } else if chunk_lacks_statistics(groups[k - 1], col) {
            assert(0 <= k - 1 < k && chunk_lacks_statistics(groups[k - 1], col));
        } else {
            assert forall|j: int| 0 <= j < k implies !chunk_lacks_statistics(#[trigger] groups[j], col) by {
                if j < k - 1 {
                }
            }
        }
    }
}

/// Once any row group's chunk for a column records no statistics at all,
/// the column's merged null count, minimum and maximum are all unknown:
/// the other row groups' values are not reported as if they were all.
pub proof fn missing_statistics_make_column_unknown(groups: Seq<RowGroupStatsView>, col: int, j: int)
    requires
        0 <= j < groups.len(),
        chunk_lacks_statistics(groups[j], col),
    ensures
        column_min(groups, col) is None,
        column_max(groups, col) is None,
        null_upto(groups, groups.len(), col) is None,
{
    missing_iff_some_chunk_lacks(groups, groups.len(), col);
    merged_null_count_is_sum(groups, groups.len(), col);
    assert(leaves_nulls_unknown(groups[j], col));
}

/// A column's merged minimum is absent exactly when some row group has a
/// chunk for it without statistics, or no row group records a minimum;
/// the same holds of the maximum.
pub proof fn merged_bounds_absent_iff(groups: Seq<RowGroupStatsView>, col: int)
    requires
        0 <= col,
    ensures
        column_min(groups, col) is None <==> (
            (exists|j: int| 0 <= j < groups.len() && chunk_lacks_statistics(#[trigger] groups[j], col))
            || forall|i: int| 0 <= i < groups.len() ==> (#[trigger] recorded_min(groups[i], col)) is None),
        column_max(groups, col) is None <==> (
            (exists|j: int| 0 <= j < groups.len() && chunk_lacks_statistics(#[trigger] groups[j], col))
            || forall|i: int| 0 <= i < groups.len() ==> (#[trigger] recorded_max(groups[i], col)) is None),
{
    missing_iff_some_chunk_lacks(groups, groups.len(), col);
    fold_bounds_absent_iff_unrecorded(groups, groups.len(), col);
}

/// A column's merged minimum is a minimum that one of the row groups
/// records, and no row group records a smaller one - when the recorded
/// minimums can all be ranked (one kind of value, no NaN).
pub proof fn merged_min_is_least(groups: Seq<RowGroupStatsView>, col: int)
    requires
        0 <= col,
        recorded_comparable(groups, col, false),
    ensures
        column_min(groups, col) matches Some(v) ==> {
            &&& exists|i: int| 0 <= i < groups.len() && #[trigger] recorded_min(groups[i], col) == Some(v)
            &&& forall|i: int| 0 <= i < groups.len() ==> match #[trigger] recorded_min(groups[i], col) {
                Some(m) => at_most(v, m),
                None => true,
            }
        },
{
    fold_min_is_least(groups, groups.len(), col);
}

/// A column's merged maximum is a maximum that one of the row groups
/// records, and no row group records a larger one - when the recorded
/// maximums can all be ranked (one kind of value, no NaN).
pub proof fn merged_max_is_greatest(groups: Seq<RowGroupStatsView>, col: int)
    requires
        0 <= col,
        recorded_comparable(groups, col, true),
    ensures
        column_max(groups, col) matches Some(v) ==> {
            &&& exists|i: int| 0 <= i < groups.len() && #[trigger] recorded_max(groups[i], col) == Some(v)
            &&& forall|i: int| 0 <= i < groups.len() ==> match #[trigger] recorded_max(groups[i], col) {
                Some(m) => at_least(v, m),
                None => true,
            }
        },
{
    fold_max_is_greatest(groups, groups.len(), col);
}

/// What a report says of each schema column: its name; its null count,
/// the sum of the counts the row groups record unless one of them leaves
/// it unknown; and its minimum and maximum - unknown once a row group's
/// chunk for the column has no statistics at all, and otherwise merged
/// from every row group that records one, whatever the null counts say:
/// absent only when no row group records one, and, when the recorded
/// values can be ranked, one of them and not beaten by any.
pub proof fn reported_column_law(m: FooterModelView, i: int)
    requires
        0 <= i < m.schema.len(),
    ensures
        report_of(m).columns[i].name == m.schema[i].name,
        report_of(m).columns[i].null_count == if (exists|j: int| 0 <= j < m.row_groups.len() && leaves_nulls_unknown(#[trigger] m.row_groups[j], i)) {
            None
        } else {
            Some(nulls_sum(m.row_groups, m.row_groups.len(), i) as u64)
        },
        (exists|j: int| 0 <= j < m.row_groups.len() && chunk_lacks_statistics(#[trigger] m.row_groups[j], i))
            ==> report_of(m).columns[i].min is None && report_of(m).columns[i].max is None,
        !(exists|j: int| 0 <= j < m.row_groups.len() && chunk_lacks_statistics(#[trigger] m.row_groups[j], i)) ==> {
            &&& (report_of(m).columns[i].min is None <==> forall|j: int| 0 <= j < m.row_groups.len() ==> (#[trigger] recorded_min(m.row_groups[j], i)) is None)
            &&& (report_of(m).columns[i].max is None <==> forall|j: int| 0 <= j < m.row_groups.len() ==> (#[trigger] recorded_max(m.row_groups[j], i)) is None)
        },
        recorded_comparable(m.row_groups, i, false) ==> (report_of(m).columns[i].min matches Some(v) ==> {
            &&& exists|j: int| 0 <= j < m.row_groups.len() && #[trigger] recorded_min(m.row_groups[j], i) == Some(v)
            &&& forall|j: int| 0 <= j < m.row_groups.len() ==> match #[trigger] recorded_min(m.row_groups[j], i) {
                Some(x) => at_most(v, x),
                None => true,
            }
        }),
        recorded_comparable(m.row_groups, i, true) ==> (report_of(m).columns[i].max matches Some(v) ==> {
            &&& exists|j: int| 0 <= j < m.row_groups.len() && #[trigger] recorded_max(m.row_groups[j], i) == Some(v)
            &&& forall|j: int| 0 <= j < m.row_groups.len() ==> match #[trigger] recorded_max(m.row_groups[j], i) {
                Some(x) => at_least(v, x),
                None => true,
            }
        }),
{
    let groups = m.row_groups;
    merged_null_count_is_sum(groups, groups.len(), i);
    merged_bounds_absent_iff(groups, i);
    missing_iff_some_chunk_lacks(groups, groups.len(), i);
    if recorded_comparable(groups, i, false) {
        merged_min_is_least(groups, i);
    }
    if recorded_comparable(groups, i, true) {
        merged_max_is_greatest(groups, i);
    }
    assert(report_of(m).columns[i] == column_stats_of(m, i));
}

/// What a footer's schema entry says of a column: its name, its physical
/// type's name, and as its logical type the declared logical type's text;
/// failing that, the name of its legacy converted type unless that is
/// `NONE`; failing that, nothing.
pub proof fn schema_entry_law(md: ParquetMetaData, i: int)
    requires
        0 <= i < schema_leaves(file_schema(file_part(md))).len(),
    ensures
        footer_model_of(md).schema[i].name == column_name_of(schema_leaves(file_schema(file_part(md)))[i]),
        footer_model_of(md).schema[i].physical_type
            == physical_type_name(column_physical_of(schema_leaves(file_schema(file_part(md)))[i])),
        column_logical_of(schema_leaves(file_schema(file_part(md)))[i]) matches Some(lt)
            ==> footer_model_of(md).schema[i].logical_type == Some(logical_type_text(lt)),
        column_logical_of(schema_leaves(file_schema(file_part(md)))[i]) is None
            && converted_type_name(column_converted_of(schema_leaves(file_schema(file_part(md)))[i])) != seq!['N', 'O', 'N', 'E']
            ==> footer_model_of(md).schema[i].logical_type
                == Some(converted_type_name(column_converted_of(schema_leaves(file_schema(file_part(md)))[i]))),
        column_logical_of(schema_leaves(file_schema(file_part(md)))[i]) is None
            && converted_type_name(column_converted_of(schema_leaves(file_schema(file_part(md)))[i])) == seq!['N', 'O', 'N', 'E']
            ==> footer_model_of(md).schema[i].logical_type is None,
{
}

/// A report carries the footer's row count and schema unchanged, one
/// entry per row group in file order (numbered from zero, with that row
/// group's own row count), and one statistics entry per schema column.
pub proof fn report_shape_law(m: FooterModelView)
    ensures
        report_of(m).num_rows == m.num_rows,
        report_of(m).num_row_groups == m.row_groups.len() as usize,
        report_of(m).schema == m.schema,
        report_of(m).row_groups.len() == m.row_groups.len(),
        forall|k: int| 0 <= k < m.row_groups.len() ==> (#[trigger] report_of(m).row_groups[k]).index == k as usize
            && report_of(m).row_groups[k].num_rows == m.row_groups[k].num_rows,
        report_of(m).columns.len() == m.schema.len(),
{
}

} // verus!
