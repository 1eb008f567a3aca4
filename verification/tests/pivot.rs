use pdl::frame::{Row, Table};
use pdl::pivot::{pivot_longer_rows, pivot_longer_table};
use pdl::value::Value;

fn s(text: &str) -> Value {
    Value::String(text.to_string())
}

fn table() -> Table {
    Table::new(
        vec!["region".to_string(), "q1".to_string(), "q2".to_string()],
        vec![Row { values: vec![s("West"), s("10"), s("20")] }, Row { values: vec![s("East"), s("5")] }],
    )
}

fn cells(table: &Table) -> Vec<Vec<String>> {
    table.rows.iter().map(|row| row.values.iter().map(|v| v.to_csv_cell()).collect()).collect()
}

#[test]
fn pivot_longer_gives_one_row_per_chosen_column() {
    let out = pivot_longer_rows(table(), &["q1".to_string(), "q2".to_string()], "quarter", "amount").expect("pivots");
    assert_eq!(out.columns, vec!["region", "quarter", "amount"]);
    assert_eq!(
        cells(&out),
        vec![
            vec!["West", "q1", "10"],
            vec!["West", "q2", "20"],
            vec!["East", "q1", "5"],
            vec!["East", "q2", ""],
        ]
    );
}

#[test]
fn pivot_longer_reports_bad_columns() {
    let err = pivot_longer_rows(table(), &["q3".to_string()], "quarter", "amount").expect_err("unknown");
    assert_eq!(err.code.as_str(), "E1005");
    assert_eq!(err.message, "unknown column `q3`");
    let err = pivot_longer_rows(table(), &["q1".to_string()], "region", "amount").expect_err("taken");
    assert_eq!(err.message, "pivot_longer names_to `region` already exists");
    let err = pivot_longer_rows(table(), &["q1".to_string()], "quarter", "q2").expect_err("taken");
    assert_eq!(err.message, "pivot_longer values_to `q2` already exists");
    let err = pivot_longer_rows(table(), &["q1".to_string()], "x", "x").expect_err("same");
    assert_eq!(err.code.as_str(), "E1207");
    assert_eq!(err.message, "pivot_longer names_to and values_to must be different columns");
}

#[test]
fn pivot_longer_of_no_columns_is_refused() {
    let error = pivot_longer_table(table(), &[], "quarter", "amount").expect_err("empty column list");
    assert_eq!(error.code.as_str(), "E1211");
    assert_eq!(error.message, "operation `pivot_longer column list` is not supported by the native data backend");
    let out = pivot_longer_table(table(), &["q2".to_string(), "q1".to_string()], "quarter", "amount").expect("pivots");
    assert_eq!(
        cells(&out),
        vec![vec!["West", "q2", "20"], vec!["West", "q1", "10"], vec!["East", "q2", ""], vec!["East", "q1", "5"]]
    );
}
