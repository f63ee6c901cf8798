//! What this library reads from the `parquet` crate's decoded footer
//! metadata. Each item here makes one call into the crate; the names
//! (`uninterp spec fn`s) stand for what the crate's decoded values hold,
//! and the wrappers' contracts say which of those the call hands back.

use vstd::prelude::*;
use std::sync::Arc;
use self::StatValue::{Bool, Bytes as Raw, F32, F64, I32, I64};
use bytes::Bytes;
use parquet::basic::{ConvertedType, LogicalType};
use parquet::errors::ParquetError;
use parquet::file::metadata::{ColumnChunkMetaData, FileMetaData, ParquetMetaData, RowGroupMetaData};
use parquet::file::reader::FileReader;
use parquet::file::serialized_reader::SerializedFileReader;
use parquet::file::statistics::Statistics;
use parquet::file::statistics::Statistics::{Boolean, ByteArray, Double, FixedLenByteArray, Float, Int32, Int64};
use parquet::schema::types::{ColumnDescriptor, SchemaDescriptor};

verus! {

#[verifier::external_type_specification]
#[verifier::external_body]
pub struct ExParquetError(ParquetError);

#[verifier::external_type_specification]
#[verifier::external_body]
pub struct ExParquetMetaData(ParquetMetaData);

#[verifier::external_type_specification]
#[verifier::external_body]
pub struct ExFileMetaData(FileMetaData);

#[verifier::external_type_specification]
#[verifier::external_body]
pub struct ExSchemaDescriptor(SchemaDescriptor);

#[verifier::external_type_specification]
#[verifier::external_body]
pub struct ExColumnDescriptor(ColumnDescriptor);

#[verifier::external_type_specification]
#[verifier::external_body]
pub struct ExPhysicalType(parquet::basic::Type);

#[verifier::external_type_specification]
#[verifier::external_body]
pub struct ExLogicalType(LogicalType);

#[verifier::external_type_specification]
#[verifier::external_body]
pub struct ExConvertedType(ConvertedType);

#[verifier::external_type_specification]
#[verifier::external_body]
pub struct ExRowGroupMetaData(RowGroupMetaData);

#[verifier::external_type_specification]
#[verifier::external_body]
pub struct ExColumnChunkMetaData(ColumnChunkMetaData);

#[verifier::external_type_specification]
#[verifier::external_body]
pub struct ExStatistics(Statistics);

/// One min or max value as a column chunk's statistics record it, by the
/// chunk's physical type. Floating-point values are held as their IEEE 754
/// bit pattern; `Int96` values carry nothing this library decodes; both
/// byte-array kinds hold their bytes.
#[derive(Debug)]
pub enum StatValue {
    Bool(bool),
    I32(i32),
    I64(i64),
    F32(u32),
    F64(u64),
    Int96,
    Bytes(Vec<u8>),
}

/// The mathematical value of a [`StatValue`].
pub enum StatValueView {
    Bool(bool),
    I32(i32),
    I64(i64),
    F32(u32),
    F64(u64),
    Int96,
    Bytes(Seq<u8>),
}

impl View for StatValue {
    type V = StatValueView;

    open spec fn view(&self) -> StatValueView {
        match self {
            StatValue::Bool(b) => StatValueView::Bool(*b),
            StatValue::I32(v) => StatValueView::I32(*v),
            StatValue::I64(v) => StatValueView::I64(*v),
            StatValue::F32(v) => StatValueView::F32(*v),
            StatValue::F64(v) => StatValueView::F64(*v),
            StatValue::Int96 => StatValueView::Int96,
            StatValue::Bytes(b) => StatValueView::Bytes(b@),
        }
    }
}

/// The kinds of column statistics, one per physical type (the variants of
/// `Statistics`).
#[derive(Debug, Clone, Copy, PartialEq, Eq)]
pub enum StatsKind {
    Boolean,
    Int32,
    Int64,
    Int96,
    Float,
    Double,
    ByteArray,
    FixedLenByteArray,
}

/// Whether a statistics value is of the kind its statistics are: a boolean
/// for `Boolean`, a 32-bit integer for `Int32`, and so on; bytes for both
/// byte-array kinds.
pub open spec fn value_fits_kind(v: StatValueView, k: StatsKind) -> bool {
    match (v, k) {
        (StatValueView::Bool(_), StatsKind::Boolean) => true,
        (StatValueView::I32(_), StatsKind::Int32) => true,
        (StatValueView::I64(_), StatsKind::Int64) => true,
        (StatValueView::Int96, StatsKind::Int96) => true,
        (StatValueView::F32(_), StatsKind::Float) => true,
        (StatValueView::F64(_), StatsKind::Double) => true,
        (StatValueView::Bytes(_), StatsKind::ByteArray) => true,
        (StatValueView::Bytes(_), StatsKind::FixedLenByteArray) => true,
        _ => false,
    }
}

/// The view of an optional statistics value.
pub open spec fn opt_stat_view(o: Option<StatValue>) -> Option<StatValueView> {
    match o {
        Some(v) => Some(v@),
        None => None,
    }
}

// ---------------------------------------------------------------------
// Names for what the parquet crate decodes and what its values hold

/// What `SerializedFileReader::new` makes of a file's bytes: the footer
/// metadata it decodes, or the error with which it refuses them.
pub uninterp spec fn footer_of(bytes: Seq<u8>) -> Result<ParquetMetaData, ParquetError>;

/// The text of a parquet error (its `Display`).
pub uninterp spec fn error_text(e: ParquetError) -> Seq<char>;

/// The file-level part of a footer (`ParquetMetaData::file_metadata`).
pub uninterp spec fn file_part(m: ParquetMetaData) -> FileMetaData;

/// The row groups a footer lists, in file order
/// (`ParquetMetaData::num_row_groups` / `row_group`).
pub uninterp spec fn row_groups_of(m: ParquetMetaData) -> Seq<RowGroupMetaData>;

/// The total row count a footer records (`FileMetaData::num_rows`).
pub uninterp spec fn file_rows(f: FileMetaData) -> i64;

/// The schema a footer records (`FileMetaData::schema_descr`).
pub uninterp spec fn file_schema(f: FileMetaData) -> SchemaDescriptor;

/// The leaf columns of a schema, in order
/// (`SchemaDescriptor::num_columns` / `column`).
pub uninterp spec fn schema_leaves(s: SchemaDescriptor) -> Seq<ColumnDescriptor>;

/// Whether a column descriptor describes a leaf, that is a primitive
/// (non-group) type. Every column a schema lists is one.
pub uninterp spec fn column_is_leaf(c: ColumnDescriptor) -> bool;

/// A column's name (`ColumnDescriptor::name`).
pub uninterp spec fn column_name_of(c: ColumnDescriptor) -> Seq<char>;

/// A column's physical type (`ColumnDescriptor::physical_type`).
pub uninterp spec fn column_physical_of(c: ColumnDescriptor) -> parquet::basic::Type;

/// The name of a physical type (its `Display`, such as `INT32`).
pub uninterp spec fn physical_type_name(t: parquet::basic::Type) -> Seq<char>;

/// A column's logical type, when it declares one
/// (`ColumnDescriptor::logical_type_ref`).
pub uninterp spec fn column_logical_of(c: ColumnDescriptor) -> Option<LogicalType>;

/// The `Debug` text of a logical type (such as `String`).
pub uninterp spec fn logical_type_text(t: LogicalType) -> Seq<char>;

/// A column's legacy converted type (`ColumnDescriptor::converted_type`),
/// `NONE` when it declares none.
pub uninterp spec fn column_converted_of(c: ColumnDescriptor) -> ConvertedType;

/// The name of a converted type (its `Display`, the variant's name, such
/// as `UTF8` or `NONE`).
pub uninterp spec fn converted_type_name(t: ConvertedType) -> Seq<char>;

/// A row group's row count (`RowGroupMetaData::num_rows`).
pub uninterp spec fn row_group_rows(g: RowGroupMetaData) -> i64;

/// A row group's column chunks, in schema order
/// (`RowGroupMetaData::num_columns` / `column`).
pub uninterp spec fn row_group_chunks(g: RowGroupMetaData) -> Seq<ColumnChunkMetaData>;

/// A column chunk's statistics, when the file records any
/// (`ColumnChunkMetaData::statistics`).
pub uninterp spec fn chunk_statistics_of(c: ColumnChunkMetaData) -> Option<Statistics>;

/// Which kind of statistics these are: the variant of `Statistics`, one
/// per physical type.
pub uninterp spec fn stats_kind_of(s: Statistics) -> StatsKind;

/// Whether every byte-array minimum or maximum the statistics record holds
/// its bytes (a `ByteArray` made by `ByteArray::new` holds none until
/// `set_data`). Statistics the crate decodes from a footer always do.
pub uninterp spec fn stats_bytes_present(s: Statistics) -> bool;

/// The null count statistics record, when known
/// (`Statistics::null_count_opt`).
pub uninterp spec fn stats_null_count_of(s: Statistics) -> Option<u64>;

/// The minimum statistics record, when known (`min_opt` of the variant's
/// value statistics).
pub uninterp spec fn stats_min_of(s: Statistics) -> Option<StatValueView>;

/// The maximum statistics record, when known (`max_opt`).
pub uninterp spec fn stats_max_of(s: Statistics) -> Option<StatValueView>;

// ---------------------------------------------------------------------
// The calls

/// Decodes the footer metadata of a whole Parquet file held in memory
/// (`SerializedFileReader::new` over the bytes), handing back a copy of
/// the metadata the reader decoded (`FileReader::metadata`). Claims: the
/// outcome, metadata or error, is the one those bytes give
/// ([`footer_of`]); and every column chunk's decoded statistics hold the
/// bytes of their byte-array bounds (the decoder builds each such bound
/// from the bytes it read).
#[verifier::external_body]
pub(crate) fn read_footer_metadata(bytes: Vec<u8>) -> (r: Result<ParquetMetaData, ParquetError>)
    ensures
        r == footer_of(bytes@),
        r matches Ok(m) ==> forall|i: int, j: int|
            0 <= i < row_groups_of(m).len() && 0 <= j < row_group_chunks(row_groups_of(m)[i]).len()
                ==> match chunk_statistics_of(#[trigger] row_group_chunks(row_groups_of(m)[i])[j]) {
                Some(st) => stats_bytes_present(st),
                None => true,
            },
{
    SerializedFileReader::new(Bytes::from(bytes)).map(|reader| reader.metadata().clone())
}

/// The message of a parquet error (`ParquetError`'s `Display`). Claims:
/// the text is [`error_text`] of the error.
#[verifier::external_body]
pub(crate) fn parquet_error_text(e: &ParquetError) -> (s: String)
    ensures
        s@ == error_text(*e),
{
    e.to_string()
}

/// `ParquetMetaData::file_metadata`. Claims: the file-level part it hands
/// back is the footer's ([`file_part`]).
#[verifier::external_body]
pub(crate) fn metadata_file(m: &ParquetMetaData) -> (f: &FileMetaData)
    ensures
        *f == file_part(*m),
{
    m.file_metadata()
}

/// `ParquetMetaData::num_row_groups`. Claims: it is how many row groups
/// the footer lists.
#[verifier::external_body]
pub(crate) fn metadata_num_row_groups(m: &ParquetMetaData) -> (n: usize)
    ensures
        n == row_groups_of(*m).len(),
{
    m.num_row_groups()
}

/// `ParquetMetaData::row_group`. Claims: it hands back the footer's `i`th
/// row group. It panics out of range, which `requires` rules out.
#[verifier::external_body]
pub(crate) fn metadata_row_group(m: &ParquetMetaData, i: usize) -> (g: &RowGroupMetaData)
    requires
        i < row_groups_of(*m).len(),
    ensures
        *g == row_groups_of(*m)[i as int],
{
    m.row_group(i)
}

/// `FileMetaData::num_rows`. Claims: it is the row count the footer
/// records ([`file_rows`]).
#[verifier::external_body]
pub(crate) fn file_num_rows(f: &FileMetaData) -> (n: i64)
    ensures
        n == file_rows(*f),
{
    f.num_rows()
}

/// `FileMetaData::schema_descr`. Claims: it hands back the footer's schema
/// ([`file_schema`]).
#[verifier::external_body]
pub(crate) fn file_schema_descr(f: &FileMetaData) -> (s: &SchemaDescriptor)
    ensures
        *s == file_schema(*f),
{
    f.schema_descr()
}

/// `SchemaDescriptor::num_columns`. Claims: it is how many leaf columns
/// the schema has.
#[verifier::external_body]
pub(crate) fn schema_num_columns(s: &SchemaDescriptor) -> (n: usize)
    ensures
        n == schema_leaves(*s).len(),
{
    s.num_columns()
}

/// `SchemaDescriptor::column`. Claims: it hands back (shared) the schema's
/// `i`th leaf column, which describes a primitive type (the schema's
/// leaves are built from its primitive types only). It panics out of
/// range, which `requires` rules out.
#[verifier::external_body]
pub(crate) fn schema_column(s: &SchemaDescriptor, i: usize) -> (c: Arc<ColumnDescriptor>)
    requires
        i < schema_leaves(*s).len(),
    ensures
        *c == schema_leaves(*s)[i as int],
        column_is_leaf(*c),
{
    s.column(i)
}

/// `ColumnDescriptor::name`, copied into an owned string. Claims: the text
/// is the column's name ([`column_name_of`]).
#[verifier::external_body]
pub(crate) fn column_name(c: &ColumnDescriptor) -> (s: String)
    ensures
        s@ == column_name_of(*c),
{
    c.name().to_string()
}

/// `ColumnDescriptor::physical_type`. Claims: it is the column's physical
/// type ([`column_physical_of`]). It panics on a group (non-leaf) type,
/// which `requires` rules out.
#[verifier::external_body]
pub(crate) fn column_physical_type(c: &ColumnDescriptor) -> (t: parquet::basic::Type)
    requires
        column_is_leaf(*c),
    ensures
        t == column_physical_of(*c),
{
    c.physical_type()
}

/// The name of a physical type (its `Display`). Claims: the text is
/// [`physical_type_name`] of the type.
#[verifier::external_body]
pub(crate) fn physical_type_text(t: &parquet::basic::Type) -> (s: String)
    ensures
        s@ == physical_type_name(*t),
{
    t.to_string()
}

/// `ColumnDescriptor::logical_type_ref`. Claims: it is the column's
/// logical type when it declares one, and `None` exactly when it declares
/// none ([`column_logical_of`]).
#[verifier::external_body]
pub(crate) fn column_logical_type(c: &ColumnDescriptor) -> (t: Option<&LogicalType>)
    ensures
        match t {
            Some(lt) => column_logical_of(*c) == Some(*lt),
            None => column_logical_of(*c) is None,
        },
{
    c.logical_type_ref()
}

/// The `Debug` text of a logical type (`format!("{:?}")`). Claims: the text
/// is [`logical_type_text`] of the type.
#[verifier::external_body]
pub(crate) fn logical_type_debug(t: &LogicalType) -> (s: String)
    ensures
        s@ == logical_type_text(*t),
{
    format!("{t:?}")
}

/// `ColumnDescriptor::converted_type`. Claims: it is the column's converted
/// type ([`column_converted_of`]).
#[verifier::external_body]
pub(crate) fn column_converted_type(c: &ColumnDescriptor) -> (t: ConvertedType)
    ensures
        t == column_converted_of(*c),
{
    c.converted_type()
}

/// Whether a converted type is `ConvertedType::NONE` (its `==`). A
/// converted type's `Display` is its variant's name, so this is whether
/// that name is `NONE`.
#[verifier::external_body]
pub(crate) fn converted_type_is_none(t: &ConvertedType) -> (b: bool)
    ensures
        b <==> converted_type_name(*t) == seq!['N', 'O', 'N', 'E'],
{
    *t == ConvertedType::NONE
}

/// The name of a converted type (its `Display`). Claims: the text is
/// [`converted_type_name`] of the type.
#[verifier::external_body]
pub(crate) fn converted_type_text(t: &ConvertedType) -> (s: String)
    ensures
        s@ == converted_type_name(*t),
{
    t.to_string()
}

/// `RowGroupMetaData::num_rows`. Claims: it is the row count the row group
/// records ([`row_group_rows`]).
#[verifier::external_body]
pub(crate) fn row_group_num_rows(g: &RowGroupMetaData) -> (n: i64)
    ensures
        n == row_group_rows(*g),
{
    g.num_rows()
}

/// `RowGroupMetaData::num_columns`. Claims: it is how many column chunks
/// the row group has.
#[verifier::external_body]
pub(crate) fn row_group_num_columns(g: &RowGroupMetaData) -> (n: usize)
    ensures
        n == row_group_chunks(*g).len(),
{
    g.num_columns()
}

/// `RowGroupMetaData::column`. Claims: it hands back the row group's `i`th
/// column chunk. It panics out of range, which `requires` rules out.
#[verifier::external_body]
pub(crate) fn row_group_column(g: &RowGroupMetaData, i: usize) -> (c: &ColumnChunkMetaData)
    requires
        i < row_group_chunks(*g).len(),
    ensures
        *c == row_group_chunks(*g)[i as int],
{
    g.column(i)
}

/// `ColumnChunkMetaData::statistics`. Claims: it is the chunk's statistics
/// when it has any, and `None` exactly when it has none
/// ([`chunk_statistics_of`]).
#[verifier::external_body]
pub(crate) fn chunk_statistics(c: &ColumnChunkMetaData) -> (s: Option<&Statistics>)
    ensures
        match s {
            Some(st) => chunk_statistics_of(*c) == Some(*st),
            None => chunk_statistics_of(*c) is None,
        },
{
    c.statistics()
}

/// `Statistics::null_count_opt`. Claims: it is the null count the
/// statistics record, when known ([`stats_null_count_of`]).
#[verifier::external_body]
pub(crate) fn stats_null_count(s: &Statistics) -> (n: Option<u64>)
    ensures
        n == stats_null_count_of(*s),
{
    s.null_count_opt()
}

/// The minimum a chunk's statistics record (`min_opt` of the variant's
/// value statistics), converted to a [`StatValue`] of the same kind:
/// floats to their bit patterns, byte arrays to their bytes
/// (`ByteArray::data`). Claims: the value is the minimum the statistics
/// record ([`stats_min_of`]), of the statistics' kind. `data` panics on a
/// byte array that was never given bytes, which `requires` rules out.
#[verifier::external_body]
pub(crate) fn stats_min(s: &Statistics) -> (v: Option<StatValue>)
    requires
        stats_bytes_present(*s),
    ensures
        opt_stat_view(v) == stats_min_of(*s),
        v matches Some(x) ==> value_fits_kind(x@, stats_kind_of(*s)),
{
    match s {
        Boolean(t) => t.min_opt().copied().map(Bool),
        Int32(t) => t.min_opt().copied().map(I32),
        Int64(t) => t.min_opt().copied().map(I64),
        Statistics::Int96(t) => t.min_opt().map(|_| StatValue::Int96),
        Float(t) => t.min_opt().map(|x| F32(x.to_bits())),
        Double(t) => t.min_opt().map(|x| F64(x.to_bits())),
        ByteArray(t) => t.min_opt().map(|x| Raw(x.data().to_vec())),
        FixedLenByteArray(t) => t.min_opt().map(|x| Raw(x.data().to_vec())),
    }
}

/// The maximum a chunk's statistics record (`max_opt`), converted to a
/// [`StatValue`] of the same kind as in [`stats_min`]. Claims: the value
/// is the maximum the statistics record ([`stats_max_of`]), of the
/// statistics' kind. `ByteArray::data` panics on a byte array that was
/// never given bytes, which `requires` rules out.
#[verifier::external_body]
pub(crate) fn stats_max(s: &Statistics) -> (v: Option<StatValue>)
    requires
        stats_bytes_present(*s),
    ensures
        opt_stat_view(v) == stats_max_of(*s),
        v matches Some(x) ==> value_fits_kind(x@, stats_kind_of(*s)),
{
    match s {
        Boolean(t) => t.max_opt().copied().map(Bool),
        Int32(t) => t.max_opt().copied().map(I32),
        Int64(t) => t.max_opt().copied().map(I64),
        Statistics::Int96(t) => t.max_opt().map(|_| StatValue::Int96),
        Float(t) => t.max_opt().map(|x| F32(x.to_bits())),
        Double(t) => t.max_opt().map(|x| F64(x.to_bits())),
        ByteArray(t) => t.max_opt().map(|x| Raw(x.data().to_vec())),
        FixedLenByteArray(t) => t.max_opt().map(|x| Raw(x.data().to_vec())),
    }
}

} // verus!
