use parquetpeek::{
    check_footer_model, summarize, ChunkStats, ColumnSchema, FooterModel, InspectError, RowGroupStats,
    Scalar,
};

fn column(name: &str) -> ColumnSchema {
    ColumnSchema { name: name.to_string(), physical_type: "INT32".to_string(), logical_type: None }
}

fn stats(nulls: Option<u64>, min: Option<i32>, max: Option<i32>) -> Option<ChunkStats> {
    Some(ChunkStats { null_count: nulls, min: min.map(Scalar::I32), max: max.map(Scalar::I32) })
}

fn group(num_rows: i64, chunks: Vec<Option<ChunkStats>>) -> RowGroupStats {
    RowGroupStats { num_rows, chunks }
}

#[test]
fn merges_min_max_and_null_counts_across_groups() {
    let model = FooterModel {
        num_rows: 9,
        schema: vec![column("a"), column("b")],
        row_groups: vec![
            group(3, vec![stats(Some(1), Some(30), Some(40)), stats(Some(0), Some(5), Some(5))]),
            group(3, vec![stats(Some(2), Some(9), Some(100)), stats(Some(0), None, None)]),
            group(3, vec![stats(Some(0), Some(10), Some(11)), stats(Some(4), Some(-2), Some(3))]),
        ],
    };
    assert_eq!(check_footer_model(&model), Ok(()));
    let report = summarize(model);
    assert_eq!(report.num_rows, 9);
    assert_eq!(report.num_row_groups, 3);
    assert_eq!(report.row_groups.iter().map(|g| (g.index, g.num_rows)).collect::<Vec<_>>(), vec![(0, 3), (1, 3), (2, 3)]);
    assert_eq!(report.columns.len(), 2);
    assert_eq!(report.columns[0].name, "a");
    assert_eq!(report.columns[0].null_count, Some(3));
    assert_eq!(report.columns[0].min, Some(Scalar::I32(9)));
    assert_eq!(report.columns[0].max, Some(Scalar::I32(100)));
    assert_eq!(report.columns[1].null_count, Some(4));
    assert_eq!(report.columns[1].min, Some(Scalar::I32(-2)));
    assert_eq!(report.columns[1].max, Some(Scalar::I32(5)));
}

#[test]
fn missing_statistics_make_the_column_unknown() {
    let model = FooterModel {
        num_rows: 4,
        schema: vec![column("a")],
        row_groups: vec![
            group(2, vec![stats(Some(1), Some(7), Some(8))]),
            group(1, vec![None]),
            group(1, vec![stats(Some(5), Some(2), Some(3))]),
        ],
    };
    let report = summarize(model);
    assert_eq!(report.columns[0].null_count, None);
    assert_eq!(report.columns[0].min, None);
    assert_eq!(report.columns[0].max, None);
}

#[test]
fn missing_statistics_in_the_first_group_are_not_skipped() {
    let model = FooterModel {
        num_rows: 2,
        schema: vec![column("a"), column("b")],
        row_groups: vec![
            group(1, vec![None, stats(Some(0), Some(1), Some(1))]),
            group(1, vec![stats(Some(0), Some(10), Some(20)), stats(Some(0), Some(2), Some(2))]),
        ],
    };
    let report = summarize(model);
    assert_eq!(report.columns[0].null_count, None);
    assert_eq!(report.columns[0].min, None);
    assert_eq!(report.columns[0].max, None);
    assert_eq!(report.columns[1].null_count, Some(0));
    assert_eq!(report.columns[1].min, Some(Scalar::I32(1)));
    assert_eq!(report.columns[1].max, Some(Scalar::I32(2)));
}

#[test]
fn chunk_without_recorded_bounds_is_skipped() {
    // an all-null chunk has statistics but no minimum or maximum
    let model = FooterModel {
        num_rows: 4,
        schema: vec![column("a")],
        row_groups: vec![group(2, vec![stats(Some(2), None, None)]), group(2, vec![stats(Some(0), Some(4), Some(9))])],
    };
    let report = summarize(model);
    assert_eq!(report.columns[0].null_count, Some(2));
    assert_eq!(report.columns[0].min, Some(Scalar::I32(4)));
    assert_eq!(report.columns[0].max, Some(Scalar::I32(9)));
}

#[test]
fn unknown_null_count_in_statistics_makes_total_unknown() {
    let model = FooterModel {
        num_rows: 2,
        schema: vec![column("a")],
        row_groups: vec![group(1, vec![stats(None, Some(1), Some(1))]), group(1, vec![stats(Some(0), Some(2), Some(2))])],
    };
    let report = summarize(model);
    assert_eq!(report.columns[0].null_count, None);
}

#[test]
fn no_recorded_bounds_report_none() {
    let model = FooterModel {
        num_rows: 3,
        schema: vec![column("a")],
        row_groups: vec![group(3, vec![stats(Some(3), None, None)])],
    };
    let report = summarize(model);
    assert_eq!(report.columns[0].null_count, Some(3));
    assert_eq!(report.columns[0].min, None);
    assert_eq!(report.columns[0].max, None);
}

#[test]
fn empty_footer_reports_zero_counts() {
    let model = FooterModel { num_rows: 0, schema: vec![column("a")], row_groups: vec![] };
    let report = summarize(model);
    assert_eq!(report.num_row_groups, 0);
    assert!(report.row_groups.is_empty());
    assert_eq!(report.columns[0].null_count, Some(0));
    assert_eq!(report.columns[0].min, None);
}

#[test]
fn row_group_with_fewer_chunks_leaves_other_columns_alone() {
    let model = FooterModel {
        num_rows: 2,
        schema: vec![column("a"), column("b")],
        row_groups: vec![
            group(1, vec![stats(Some(1), Some(4), Some(4)), stats(Some(2), Some(6), Some(6))]),
            group(1, vec![stats(Some(1), Some(3), Some(3))]),
        ],
    };
    assert_eq!(check_footer_model(&model), Ok(()));
    let report = summarize(model);
    assert_eq!(report.columns[0].null_count, Some(2));
    assert_eq!(report.columns[0].min, Some(Scalar::I32(3)));
    assert_eq!(report.columns[1].null_count, Some(2));
    assert_eq!(report.columns[1].max, Some(Scalar::I32(6)));
}

#[test]
fn more_chunks_than_columns_is_refused() {
    let model = FooterModel {
        num_rows: 1,
        schema: vec![column("a")],
        row_groups: vec![group(1, vec![stats(Some(0), None, None), stats(Some(0), None, None)])],
    };
    assert_eq!(check_footer_model(&model), Err(InspectError::ColumnCountMismatch));
}

#[test]
fn overflowing_null_counts_are_refused() {
    let model = FooterModel {
        num_rows: 1,
        schema: vec![column("a")],
        row_groups: vec![
            group(1, vec![stats(Some(u64::MAX - 1), None, None)]),
            group(1, vec![stats(Some(2), None, None)]),
        ],
    };
    assert_eq!(check_footer_model(&model), Err(InspectError::NullCountOverflow));
}

#[test]
fn null_counts_up_to_the_limit_are_summed() {
    let model = FooterModel {
        num_rows: 1,
        schema: vec![column("a")],
        row_groups: vec![
            group(1, vec![stats(Some(u64::MAX - 1), None, None)]),
            group(1, vec![stats(Some(1), None, None)]),
        ],
    };
    assert_eq!(check_footer_model(&model), Ok(()));
    assert_eq!(summarize(model).columns[0].null_count, Some(u64::MAX));
}

#[test]
fn overflow_after_unknown_count_is_harmless() {
    // once the running count is unknown, later counts are not added
    let model = FooterModel {
        num_rows: 1,
        schema: vec![column("a")],
        row_groups: vec![
            group(1, vec![stats(Some(u64::MAX), None, None)]),
            group(1, vec![None]),
            group(1, vec![stats(Some(u64::MAX), None, None)]),
        ],
    };
    assert_eq!(check_footer_model(&model), Ok(()));
    assert_eq!(summarize(model).columns[0].null_count, None);
}

#[test]
fn merged_minimum_is_least_recorded() {
    // law: the merged minimum is recorded by some group and no group records less
    let mins = [17, -3, 40, -3, 8, 0];
    let model = FooterModel {
        num_rows: 6,
        schema: vec![column("a")],
        row_groups: mins.iter().map(|&m| group(1, vec![stats(Some(0), Some(m), Some(m))])).collect(),
    };
    let report = summarize(model);
    assert_eq!(report.columns[0].min, Some(Scalar::I32(-3)));
    assert_eq!(report.columns[0].max, Some(Scalar::I32(40)));
}

#[test]
fn merged_strings_use_byte_order() {
    let model = FooterModel {
        num_rows: 2,
        schema: vec![column("s")],
        row_groups: vec![
            group(1, vec![Some(ChunkStats { null_count: Some(0), min: Some(Scalar::Str("9".into())), max: Some(Scalar::Str("9".into())) })]),
            group(1, vec![Some(ChunkStats { null_count: Some(0), min: Some(Scalar::Str("10".into())), max: Some(Scalar::Str("10".into())) })]),
        ],
    };
    let report = summarize(model);
    assert_eq!(report.columns[0].min, Some(Scalar::Str("10".into())));
    assert_eq!(report.columns[0].max, Some(Scalar::Str("9".into())));
}
