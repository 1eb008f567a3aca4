use pdl::diagnostic::Diagnostic;
use pdl::frame::{Row, Table};
use pdl::mutate::{filter_table, mutate_table, offset_row, offset_target};
use pdl::span::Span;
use pdl::value::Value;

fn s(text: &str) -> Value {
    Value::String(text.to_string())
}

fn names(items: &[&str]) -> Vec<String> {
    items.iter().map(|item| item.to_string()).collect()
}

fn cells(table: &Table) -> Vec<Vec<String>> {
    table.rows.iter().map(|row| row.values.iter().map(|v| v.to_csv_cell()).collect()).collect()
}

fn table() -> Table {
    Table::new(
        names(&["region", "amount"]),
        vec![Row { values: vec![s("West"), s("10")] }, Row { values: vec![s("East")] }],
    )
}

#[test]
fn mutate_appends_new_columns_and_a_later_item_wins() {
    let items = names(&["share", "region", "share"]);
    let evaluated = vec![
        vec![Ok(s("a")), Ok(s("WEST")), Ok(s("b"))],
        vec![Ok(s("c")), Ok(Value::Null), Ok(s("d"))],
    ];
    let out = mutate_table(table(), &items, evaluated).expect("mutates");
    assert_eq!(out.columns, names(&["region", "amount", "share"]));
    assert_eq!(cells(&out), vec![vec!["WEST", "10", "b"], vec!["", "", "d"]]);
}

#[test]
fn mutate_stops_at_the_first_failed_item() {
    let items = names(&["x", "y"]);
    let first = Diagnostic::error(pdl::codes::E1207(), "first", Span::zero());
    let second = Diagnostic::error(pdl::codes::E1207(), "second", Span::zero());
    let evaluated = vec![vec![Ok(s("1")), Err(first)], vec![Err(second), Ok(s("2"))]];
    let error = mutate_table(table(), &items, evaluated).expect_err("fails");
    assert_eq!(error.message, "first");
}

#[test]
fn filter_keeps_rows_whose_predicate_is_true() {
    let out = filter_table(table(), vec![Ok(Value::Bool(false)), Ok(Value::Bool(true))]).expect("filters");
    assert_eq!(cells(&out), vec![vec!["East"]]);
    let out = filter_table(table(), vec![Ok(s("true")), Ok(Value::Null)]).expect("filters");
    assert!(out.rows.is_empty());
    let error = filter_table(
        table(),
        vec![Ok(Value::Bool(true)), Err(Diagnostic::error(pdl::codes::E1207(), "bad", Span::zero()))],
    )
    .expect_err("fails");
    assert_eq!(error.message, "bad");
}

#[test]
fn lag_and_lead_reach_within_the_partition() {
    assert_eq!(offset_target(2, 1, 4, false), Some(1));
    assert_eq!(offset_target(2, 1, 4, true), Some(3));
    assert_eq!(offset_target(0, 1, 4, false), None);
    assert_eq!(offset_target(3, 1, 4, true), None);
    assert_eq!(offset_target(1, 0, 4, true), Some(1));
    let partition = vec![7, 3, 9];
    assert_eq!(offset_row(&partition, 0, 2, true), Some(9));
    assert_eq!(offset_row(&partition, 2, 1, false), Some(3));
    assert_eq!(offset_row(&partition, 2, 5, false), None);
}
