use pdl::frame::{Row, Table};
use pdl::row_union::union_rows;
use pdl::value::Value;

fn s(text: &str) -> Value {
    Value::String(text.to_string())
}

fn n(value: f64) -> Value {
    Value::Number { bits: value.to_bits(), text: format!("{value}") }
}

fn t(columns: &[&str], rows: Vec<Vec<Value>>) -> Table {
    Table::new(
        columns.iter().map(|c| c.to_string()).collect(),
        rows.into_iter().map(|values| Row { values }).collect(),
    )
}

fn cells(table: &Table) -> Vec<Vec<String>> {
    table.rows.iter().map(|row| row.values.iter().map(|v| v.to_csv_cell()).collect()).collect()
}

#[test]
fn union_by_name_aligns_columns() {
    let left = t(&["region", "amount"], vec![vec![s("West"), n(10.0)]]);
    let right = t(&["amount", "note"], vec![vec![n(20.0), s("x")]]);
    let out = union_rows(left, right, true, false).expect("compatible");
    assert_eq!(out.columns, vec!["region", "amount", "note"]);
    assert_eq!(cells(&out), vec![vec!["West", "10", ""], vec!["", "20", "x"]]);
}

#[test]
fn union_by_position_keeps_left_names() {
    let left = t(&["a"], vec![vec![s("1")]]);
    let right = t(&["x", "y"], vec![vec![s("2"), s("3")]]);
    let out = union_rows(left, right, false, false).expect("compatible");
    assert_eq!(out.columns, vec!["a", "y"]);
    assert_eq!(cells(&out), vec![vec!["1", ""], vec!["2", "3"]]);
}

#[test]
fn union_rejects_incompatible_classes() {
    let left = t(&["b", "a"], vec![vec![n(1.0), n(2.0)]]);
    let right = t(&["a", "b"], vec![vec![s("x"), s("y")]]);
    let err = union_rows(left, right, true, false).expect_err("classes differ");
    assert_eq!(err.code.as_str(), "E1209");
    assert_eq!(err.message, "union columns `a` and `a` have incompatible observed types");
    let left = t(&["b", "a"], vec![vec![n(1.0), Value::Null]]);
    let right = t(&["c", "d"], vec![vec![s("x"), s("y")]]);
    let err = union_rows(left, right, false, false).expect_err("classes differ by position");
    assert_eq!(err.message, "union columns `b` and `c` have incompatible observed types");
    // An all-null column stacks with anything.
    let left = t(&["a"], vec![vec![Value::Null]]);
    let right = t(&["a"], vec![vec![s("x")]]);
    assert!(union_rows(left, right, true, false).is_ok());
}

#[test]
fn union_distinct_keeps_first_rows() {
    let left = t(&["a"], vec![vec![s("x")], vec![s("y")]]);
    let right = t(&["a"], vec![vec![s("y")], vec![s("z")]]);
    let out = union_rows(left, right, true, true).expect("compatible");
    assert_eq!(cells(&out), vec![vec!["x"], vec!["y"], vec!["z"]]);
}
