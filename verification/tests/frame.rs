use pdl::frame::{Row, Table};
use pdl::value::Value;

fn s(text: &str) -> Value {
    Value::String(text.to_string())
}

fn n(value: f64) -> Value {
    Value::Number { bits: value.to_bits(), text: format!("{value}") }
}

fn table() -> Table {
    Table::new(
        vec!["region".to_string(), "amount".to_string(), "note".to_string()],
        vec![
            Row { values: vec![s("West"), n(10.0), Value::Null] },
            Row { values: vec![s("East"), n(20.0), s("x")] },
            Row { values: vec![s("West"), n(10.0), s("y")] },
            Row { values: vec![s("North")] },
        ],
    )
}

fn cells(table: &Table) -> Vec<Vec<String>> {
    table.rows.iter().map(|row| row.values.iter().map(|v| v.to_csv_cell()).collect()).collect()
}

#[test]
fn column_lookup_and_cells() {
    let t = table();
    assert_eq!(t.column_index("amount"), Some(1));
    assert_eq!(t.column_index("missing"), None);
    assert_eq!(t.value(&t.rows[1], "note").map(|v| v.to_csv_cell()), Some("x".to_string()));
    assert!(t.value(&t.rows[3], "amount").is_none());
    assert!(t.geometry_columns().is_empty());
    let geo = Table::new(vec!["a".to_string(), "geom".to_string()], vec![Row { values: vec![Value::Null, Value::Geometry] }]);
    assert_eq!(geo.geometry_columns(), vec!["geom".to_string()]);
    assert!(geo.column_is_geometry(1));
    assert!(!geo.column_is_geometry(0));
}

#[test]
fn select_renames_and_skips_missing_sources() {
    let selected = table().select(&[
        ("amount".to_string(), "total".to_string()),
        ("missing".to_string(), "gone".to_string()),
        ("region".to_string(), "region".to_string()),
    ]);
    assert_eq!(selected.columns, vec!["total", "gone", "region"]);
    assert_eq!(cells(&selected)[0], vec!["10", "West"]);
    assert_eq!(cells(&selected)[3], vec!["", "North"]);
}

#[test]
fn drop_rename_and_limit() {
    let dropped = table().drop_columns(&["note".to_string(), "nothing".to_string()]);
    assert_eq!(dropped.columns, vec!["region", "amount"]);
    assert_eq!(cells(&dropped)[3], vec!["North", ""]);
    let renamed = table().rename_columns(&[
        ("amount".to_string(), "a".to_string()),
        ("amount".to_string(), "b".to_string()),
    ]);
    assert_eq!(renamed.columns, vec!["region", "a", "note"]);
    assert_eq!(table().limit(2).rows.len(), 2);
    assert_eq!(table().limit(10).rows.len(), 4);
}

#[test]
fn distinct_keeps_the_first_row_of_each_key() {
    let by_region = table().distinct(&["region".to_string()]);
    assert_eq!(cells(&by_region), vec![vec!["West", "10", ""], vec!["East", "20", "x"], vec!["North"]]);
    let whole = table().distinct(&[]);
    assert_eq!(whole.rows.len(), 4);
    let twice = table().distinct(&["region".to_string(), "amount".to_string()]).distinct(&["region".to_string(), "amount".to_string()]);
    assert_eq!(cells(&twice), vec![vec!["West", "10", ""], vec!["East", "20", "x"], vec!["North"]]);
    // A missing key column is left out of the key.
    assert_eq!(table().distinct(&["nothing".to_string()]).rows.len(), 1);
}
