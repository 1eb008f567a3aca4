use pdl::aggregate::{aggregate_groups, aggregate_table};
use pdl::diagnostic::Diagnostic;
use pdl::frame::{Row, Table};
use pdl::span::Span;
use pdl::value::Value;

fn s(text: &str) -> Value {
    Value::String(text.to_string())
}

fn names(items: &[&str]) -> Vec<String> {
    items.iter().map(|item| item.to_string()).collect()
}

fn table() -> Table {
    Table::new(
        names(&["region", "amount"]),
        vec![
            Row { values: vec![s("West"), s("10")] },
            Row { values: vec![s("East"), s("5")] },
            Row { values: vec![s("West"), s("20")] },
            Row { values: vec![s("Était")] },
        ],
    )
}

#[test]
fn groups_come_in_key_order_with_rows_in_input_order() {
    let groups = aggregate_groups(&table(), &names(&["region"]));
    assert_eq!(
        groups,
        vec![
            (names(&["East"]), vec![1]),
            (names(&["West"]), vec![0, 2]),
            (names(&["Était"]), vec![3]),
        ]
    );
    let groups = aggregate_groups(&table(), &names(&["amount", "region"]));
    assert_eq!(groups[0], (names(&["", "Était"]), vec![3]));
    assert_eq!(groups[1], (names(&["10", "West"]), vec![0]));
    assert_eq!(aggregate_groups(&table(), &names(&[])), vec![(names(&[]), vec![0, 1, 2, 3])]);
    assert_eq!(aggregate_groups(&table(), &names(&["missing"])), vec![(names(&[""]), vec![0, 1, 2, 3])]);
}

#[test]
fn aggregated_tables_hold_keys_then_items() {
    let groups = vec![names(&["East"]), names(&["West"])];
    let out = aggregate_table(&names(&["region"]), &names(&["total"]), &groups, vec![vec![Ok(s("5"))], vec![Ok(s("30"))]])
        .expect("aggregates");
    assert_eq!(out.columns, names(&["region", "total"]));
    let cells: Vec<Vec<String>> = out.rows.iter().map(|row| row.values.iter().map(|v| v.to_csv_cell()).collect()).collect();
    assert_eq!(cells, vec![vec!["East", "5"], vec!["West", "30"]]);
    let error = aggregate_table(
        &names(&["region"]),
        &names(&["total"]),
        &groups,
        vec![vec![Ok(s("5"))], vec![Err(Diagnostic::error(pdl::codes::E1207(), "bad", Span::zero()))]],
    )
    .expect_err("fails");
    assert_eq!(error.message, "bad");
}
