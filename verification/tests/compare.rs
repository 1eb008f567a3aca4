use pdl::compare::{
    compare_row, comparison_header, comparison_line, comparison_result, markdown_header,
    markdown_row, read_report_rows, report_columns, Comparison, ReportRow,
};

fn strings(cells: &[&str]) -> Vec<String> {
    cells.iter().map(|cell| cell.to_string()).collect()
}

fn header() -> Vec<String> {
    strings(&[
        "workload", "input_format", "output_format", "engine", "status", "elapsed_ms", "median_ms",
        "output_bytes", "peak_rss_bytes", "stddev_ms",
    ])
}

fn record(cells: &[&str]) -> csv::StringRecord {
    csv::StringRecord::from(cells.to_vec())
}

fn rows(records: &[&[&str]]) -> Vec<ReportRow> {
    let records = records.iter().map(|cells| record(cells)).collect::<Vec<_>>();
    read_report_rows(&header(), &records, "report.csv").expect("report reads")
}

#[test]
fn report_header_must_name_required_columns() {
    let headers = strings(&["workload", "input_format", "output_format", "elapsed_ms"]);
    assert_eq!(
        report_columns(&headers, "bench/runs/x/report.csv").expect_err("status is missing"),
        "report bench/runs/x/report.csv is missing `status`"
    );
    let older = strings(&["status", "elapsed_ms", "output_format", "input_format", "workload"]);
    let columns = report_columns(&older, "old.csv").expect("optional columns may be absent");
    assert_eq!((columns.workload, columns.status, columns.engine, columns.median_ms), (4, 0, None, None));
}

#[test]
fn report_rows_read_defaults_for_missing_and_bad_cells() {
    let read = rows(&[
        &["join", "csv", "parquet", "", "ok", "abc", "", "12", "x", "1.250"],
        &["sort", "csv", "csv", "native", "ok", "40", "35"],
    ]);
    assert_eq!(read[0].engine, "unspecified");
    assert_eq!(read[0].elapsed_ms, 0);
    assert_eq!(read[0].median_ms, None);
    assert_eq!(read[0].output_bytes, Some(12));
    assert_eq!(read[0].peak_rss_bytes, None);
    assert_eq!(read[0].stddev_cell.as_deref(), Some("1.250"));
    assert_eq!(read[1].engine, "native");
    assert_eq!(read[1].compare_ms(), 35);
    assert_eq!(read[1].output_bytes, None);
    assert_eq!(read[1].format_label(), "csv->csv");
    assert_eq!(
        read[1].key_without_engine(),
        ("sort".to_string(), "csv".to_string(), "csv".to_string())
    );
}

#[test]
fn run_rows_compare_with_the_last_matching_baseline() {
    let baseline = rows(&[
        &["sort", "csv", "csv", "row", "ok", "100", ""],
        &["sort", "csv", "csv", "native", "ok", "50", "40"],
        &["join", "csv", "csv", "row", "failed", "10", ""],
    ]);
    let run = rows(&[
        &["sort", "csv", "csv", "native", "ok", "70", "60"],
        &["join", "csv", "csv", "native", "ok", "5", ""],
        &["scan", "csv", "csv", "native", "ok", "5", ""],
        &["sort", "csv", "csv", "native", "ok", "30", ""],
    ]);
    assert_eq!(
        compare_row(&baseline, &run[0], 10),
        Comparison::Compared { baseline_ms: 40, current_ms: 60, regression_ms: 20, over_absolute: true }
    );
    assert_eq!(compare_row(&baseline, &run[1], 10), Comparison::NotCompared { baseline_ms: 10 });
    assert_eq!(compare_row(&baseline, &run[2], 10), Comparison::NoBaseline);
    assert_eq!(
        compare_row(&baseline, &run[3], 10),
        Comparison::Compared { baseline_ms: 40, current_ms: 30, regression_ms: 0, over_absolute: false }
    );
}

#[test]
fn comparison_lines_align_their_columns() {
    let run = rows(&[&["sort", "csv", "csv", "native", "ok", "70", "60"]]);
    assert_eq!(
        comparison_header(),
        format!(
            "{:<43} {:<18} {:<7} {:<11} {:>10} {:>10} {:>11}",
            "workload", "format", "engine", "status", "baseline", "current", "improvement"
        )
    );
    assert_eq!(
        comparison_line(&run[0], Comparison::NoBaseline, "", false),
        format!("{:<43} {:<18} {:<7} {:<11} {:>10} {:>10} {:>11}", "sort", "csv->csv", "native", "ok", "-", "60", "no baseline")
    );
    assert_eq!(
        comparison_line(&run[0], Comparison::NotCompared { baseline_ms: 7 }, "", false),
        format!("{:<43} {:<18} {:<7} {:<11} {:>10} {:>10} {:>11}", "sort", "csv->csv", "native", "ok", 7, 60, "-")
    );
    let improvement = format!("{:+10.1}", -50.0f64);
    assert_eq!(
        comparison_line(
            &run[0],
            Comparison::Compared { baseline_ms: 40, current_ms: 60, regression_ms: 20, over_absolute: true },
            &improvement,
            true
        ),
        format!("{:<43} {:<18} {:<7} {:<11} {:>10} {:>10} {:+10.1}%{}", "sort", "csv->csv", "native", "ok", 40, 60, -50.0f64, " regression")
    );
    assert_eq!(comparison_result(0), Ok(()));
    assert_eq!(comparison_result(2), Err("2 regression(s) exceeded configured thresholds".to_string()));
}

#[test]
fn markdown_rows_list_each_report_row() {
    let run = rows(&[&["sort", "csv", "csv", "native", "ok", "70", "60", "123", "", "1.5"]]);
    let (first, second) = markdown_header();
    assert_eq!(first, "| workload | format | engine | status | median ms | stddev ms | output bytes | peak RSS bytes |");
    assert_eq!(second, "| --- | --- | --- | --- | ---: | ---: | ---: | ---: |");
    assert_eq!(
        markdown_row(&run[0], &format!("{:.3}", 1.5f64)),
        "| sort | csv->csv | native | ok | 60 | 1.500 | 123 |  |"
    );
}
