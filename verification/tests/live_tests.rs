//! Real Parquet footers, written with `arrow`'s own `ArrowWriter` into
//! memory and read back with this crate's footer-only inspection.

use std::sync::Arc;

use arrow::array::{ArrayRef, BooleanArray, Float64Array, Int32Array, Int64Array, RecordBatch, StringArray};
use arrow::datatypes::{DataType, Field, Schema};
use parquet::arrow::arrow_writer::ArrowWriter;
use parquet::file::properties::{EnabledStatistics, WriterProperties};
use parquetpeek::{inspect_footer, InspectError, Scalar};

/// A small single-row-group fixture: 5 rows, 4 columns (`id: Int32`,
/// `name: Utf8` with one null, `score: Float64`, `active: Boolean`).
struct BasicFixture {
    ids: Vec<i32>,
    names: Vec<Option<&'static str>>,
    scores: Vec<f64>,
    active: Vec<bool>,
}

fn write_batch(schema: Arc<Schema>, columns: Vec<ArrayRef>, props: Option<WriterProperties>) -> Vec<u8> {
    let batch = RecordBatch::try_new(schema.clone(), columns).expect("valid record batch");
    let mut writer = ArrowWriter::try_new(Vec::new(), schema, props).expect("create arrow parquet writer");
    writer.write(&batch).expect("write record batch");
    writer.into_inner().expect("close parquet writer")
}

fn write_basic_fixture() -> (BasicFixture, Vec<u8>) {
    let fixture = BasicFixture {
        ids: vec![1, 2, 3, 4, 5],
        names: vec![Some("alice"), Some("bob"), None, Some("dave"), Some("eve")],
        scores: vec![10.5, -3.25, 7.0, 42.125, 0.0],
        active: vec![true, false, true, false, true],
    };
    let schema = Arc::new(Schema::new(vec![
        Field::new("id", DataType::Int32, false),
        Field::new("name", DataType::Utf8, true),
        Field::new("score", DataType::Float64, false),
        Field::new("active", DataType::Boolean, false),
    ]));
    let columns: Vec<ArrayRef> = vec![
        Arc::new(Int32Array::from(fixture.ids.clone())),
        Arc::new(StringArray::from(fixture.names.clone())),
        Arc::new(Float64Array::from(fixture.scores.clone())),
        Arc::new(BooleanArray::from(fixture.active.clone())),
    ];
    let bytes = write_batch(schema, columns, None);
    (fixture, bytes)
}

/// A fixture forced into 3 row groups (sizes 2, 2, 1); `code: Int32` has
/// a null in the first row group only.
struct MultiGroupFixture {
    codes: Vec<Option<i32>>,
    row_group_sizes: Vec<i64>,
}

fn write_multi_row_group_fixture() -> (MultiGroupFixture, Vec<u8>) {
    let fixture = MultiGroupFixture {
        codes: vec![Some(30), None, Some(10), Some(50), Some(20)],
        row_group_sizes: vec![2, 2, 1],
    };
    let schema = Arc::new(Schema::new(vec![Field::new("code", DataType::Int32, true)]));
    let columns: Vec<ArrayRef> = vec![Arc::new(Int32Array::from(fixture.codes.clone()))];
    let props = WriterProperties::builder()
        .set_max_row_group_row_count(Some(2))
        .build();
    let bytes = write_batch(schema, columns, Some(props));
    (fixture, bytes)
}

/// `all_null: Utf8` where every value is null, and `plain: Int64` with
/// no logical or converted type annotation.
fn write_edge_case_fixture() -> Vec<u8> {
    let schema = Arc::new(Schema::new(vec![
        Field::new("all_null", DataType::Utf8, true),
        Field::new("plain", DataType::Int64, false),
    ]));
    let all_null: Vec<Option<&str>> = vec![None, None, None];
    let columns: Vec<ArrayRef> = vec![
        Arc::new(StringArray::from(all_null)),
        Arc::new(Int64Array::from(vec![100i64, 200, 300])),
    ];
    write_batch(schema, columns, None)
}

#[test]
fn inspects_a_real_single_row_group_parquet_file() {
    let (fixture, bytes) = write_basic_fixture();

    let report = inspect_footer(bytes).expect("inspecting a real parquet file");

    assert_eq!(report.num_rows, fixture.ids.len() as i64);
    assert_eq!(report.num_row_groups, 1);
    assert_eq!(report.row_groups.len(), 1);
    assert_eq!(report.row_groups[0].num_rows, fixture.ids.len() as i64);

    let names: Vec<&str> = report.schema.iter().map(|c| c.name.as_str()).collect();
    assert_eq!(names, vec!["id", "name", "score", "active"]);
    assert_eq!(report.schema[0].physical_type, "INT32");
    assert_eq!(report.schema[1].physical_type, "BYTE_ARRAY");
    assert_eq!(report.schema[1].logical_type.as_deref(), Some("String"));
    assert_eq!(report.schema[2].physical_type, "DOUBLE");
    assert_eq!(report.schema[3].physical_type, "BOOLEAN");

    assert_eq!(report.columns.len(), 4);

    let id_stats = &report.columns[0];
    assert_eq!(id_stats.null_count, Some(0));
    assert_eq!(id_stats.min, Some(Scalar::I32(*fixture.ids.iter().min().unwrap())));
    assert_eq!(id_stats.max, Some(Scalar::I32(*fixture.ids.iter().max().unwrap())));

    let name_stats = &report.columns[1];
    let expected_nulls = fixture.names.iter().filter(|n| n.is_none()).count() as u64;
    assert_eq!(name_stats.null_count, Some(expected_nulls));
    let mut present_names: Vec<&str> = fixture.names.iter().flatten().copied().collect();
    present_names.sort();
    assert_eq!(name_stats.min, Some(Scalar::Str(present_names.first().unwrap().to_string())));
    assert_eq!(name_stats.max, Some(Scalar::Str(present_names.last().unwrap().to_string())));

    let score_stats = &report.columns[2];
    assert_eq!(score_stats.null_count, Some(0));
    let min_score = fixture.scores.iter().cloned().fold(f64::INFINITY, f64::min);
    let max_score = fixture.scores.iter().cloned().fold(f64::NEG_INFINITY, f64::max);
    assert_eq!(score_stats.min, Some(Scalar::F64(min_score.to_bits())));
    assert_eq!(score_stats.max, Some(Scalar::F64(max_score.to_bits())));

    let active_stats = &report.columns[3];
    assert_eq!(active_stats.null_count, Some(0));
    assert_eq!(active_stats.min, Some(Scalar::Bool(false)));
    assert_eq!(active_stats.max, Some(Scalar::Bool(true)));
}

#[test]
fn aggregates_stats_correctly_across_multiple_real_row_groups() {
    let (fixture, bytes) = write_multi_row_group_fixture();

    let report = inspect_footer(bytes).expect("inspecting a real multi-row-group parquet file");

    assert_eq!(report.num_rows, fixture.codes.len() as i64);
    assert_eq!(report.num_row_groups, fixture.row_group_sizes.len());

    let actual_sizes: Vec<i64> = report.row_groups.iter().map(|rg| rg.num_rows).collect();
    assert_eq!(actual_sizes, fixture.row_group_sizes);

    let code_stats = &report.columns[0];
    let expected_nulls = fixture.codes.iter().filter(|c| c.is_none()).count() as u64;
    assert_eq!(code_stats.null_count, Some(expected_nulls));

    let present: Vec<i32> = fixture.codes.iter().flatten().copied().collect();
    assert_eq!(code_stats.min, Some(Scalar::I32(*present.iter().min().unwrap())));
    assert_eq!(code_stats.max, Some(Scalar::I32(*present.iter().max().unwrap())));
}

#[test]
fn inspecting_a_non_parquet_file_is_a_clean_error() {
    let result = inspect_footer(b"this is definitely not a parquet file".to_vec());
    assert!(result.is_err());
    assert!(matches!(result, Err(InspectError::Footer(_))));
}

#[test]
fn all_null_column_has_null_count_but_no_min_or_max() {
    let bytes = write_edge_case_fixture();

    let report = inspect_footer(bytes).expect("inspecting a real parquet file");
    let all_null_stats = &report.columns[0];
    assert_eq!(all_null_stats.null_count, Some(3));
    assert_eq!(all_null_stats.min, None);
    assert_eq!(all_null_stats.max, None);
}

#[test]
fn column_with_no_logical_type_reports_none_not_a_placeholder() {
    let bytes = write_edge_case_fixture();

    let report = inspect_footer(bytes).expect("inspecting a real parquet file");
    let plain_col = &report.schema[1];
    assert_eq!(plain_col.name, "plain");
    assert_eq!(plain_col.physical_type, "INT64");
    assert_eq!(plain_col.logical_type, None);

    let plain_stats = &report.columns[1];
    assert_eq!(plain_stats.null_count, Some(0));
    assert_eq!(plain_stats.min, Some(Scalar::I64(100)));
    assert_eq!(plain_stats.max, Some(Scalar::I64(300)));
}

#[test]
fn row_groups_are_numbered_in_file_order() {
    let (_, bytes) = write_multi_row_group_fixture();
    let report = inspect_footer(bytes).expect("inspecting a real multi-row-group parquet file");
    let indexes: Vec<usize> = report.row_groups.iter().map(|rg| rg.index).collect();
    assert_eq!(indexes, vec![0, 1, 2]);
    assert_eq!(report.columns[0].name, "code");
    assert_eq!(report.schema[0].physical_type, "INT32");
    assert_eq!(report.schema[0].logical_type, None);
}

#[test]
fn truncated_footer_is_a_clean_error() {
    let (_, bytes) = write_basic_fixture();
    let cut = bytes[..bytes.len() - 3].to_vec();
    match inspect_footer(cut) {
        Err(InspectError::Footer(message)) => assert!(!message.is_empty()),
        other => panic!("expected a footer error, got {other:?}"),
    }
    assert!(matches!(inspect_footer(Vec::new()), Err(InspectError::Footer(_))));
}

#[test]
fn date_column_reports_its_logical_type() {
    // A Date32 column carries the DATE logical type.
    let schema = Arc::new(Schema::new(vec![Field::new("d", DataType::Date32, false)]));
    let columns: Vec<ArrayRef> = vec![Arc::new(arrow::array::Date32Array::from(vec![1, 5]))];
    let bytes = write_batch(schema, columns, None);
    let report = inspect_footer(bytes).expect("inspecting a real parquet file");
    assert_eq!(report.schema[0].physical_type, "INT32");
    assert_eq!(report.schema[0].logical_type.as_deref(), Some("Date"));
    assert_eq!(report.columns[0].min, Some(Scalar::I32(1)));
    assert_eq!(report.columns[0].max, Some(Scalar::I32(5)));
}

#[test]
fn file_written_without_statistics_reports_unknown() {
    let schema = Arc::new(Schema::new(vec![Field::new("id", DataType::Int32, false)]));
    let columns: Vec<ArrayRef> = vec![Arc::new(Int32Array::from(vec![3, 1, 2]))];
    let props = WriterProperties::builder()
        .set_statistics_enabled(EnabledStatistics::None)
        .build();
    let bytes = write_batch(schema, columns, Some(props));
    let report = inspect_footer(bytes).expect("inspecting a real parquet file");
    assert_eq!(report.num_rows, 3);
    assert_eq!(report.columns[0].null_count, None);
    assert_eq!(report.columns[0].min, None);
    assert_eq!(report.columns[0].max, None);
}
