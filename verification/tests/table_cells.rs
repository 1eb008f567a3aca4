use pdl::frame::{Row, Table};
use pdl::readers::{
    json_cell_to_value, parse_json_lines, read_csv_cells_from_bytes, read_json_lines_cells_from_bytes,
    write_csv_to_vec, JsonCell,
};
use pdl::value::Value;

fn strings(items: &[&str]) -> Vec<String> {
    items.iter().map(|item| item.to_string()).collect()
}

#[test]
fn csv_cells_keep_header_and_record_text() {
    let (columns, records) =
        read_csv_cells_from_bytes("sales.csv", b"region,amount\nWest,200\n\"North, upper\",12.50\n").expect("csv");
    assert_eq!(columns, strings(&["region", "amount"]));
    assert_eq!(records, vec![strings(&["West", "200"]), strings(&["North, upper", "12.50"])]);
}

#[test]
fn csv_cells_report_the_failing_record() {
    let error = read_csv_cells_from_bytes("ragged.csv", b"a,b\n1,2\n3\n").expect_err("ragged record");
    assert_eq!(error.code.as_str(), "E1804");
    assert!(error.message.starts_with("CSV row parse failed for `ragged.csv`: "), "{}", error.message);
}

#[test]
fn csv_cells_read_as_null_booleans_numbers_or_text() {
    assert!(matches!(Value::parse_csv_cell("", Some((0, "0".to_string()))), Value::Null));
    assert!(matches!(Value::parse_csv_cell("true", None), Value::Bool(true)));
    assert!(matches!(Value::parse_csv_cell("false", None), Value::Bool(false)));
    match Value::parse_csv_cell("12.50", Some((12.5f64.to_bits(), "12.5".to_string()))) {
        Value::Number { bits, text } => {
            assert_eq!(bits, 12.5f64.to_bits());
            assert_eq!(text, "12.5");
        }
        other => panic!("expected a number, got {other:?}"),
    }
    match Value::parse_csv_cell("West", None) {
        Value::String(text) => assert_eq!(text, "West"),
        other => panic!("expected text, got {other:?}"),
    }
}

#[test]
fn json_lines_cells_fill_missing_members_with_null() {
    let bytes = br#"{"region":"West","amount":10,"tags":[1,2]}

{"amount":12.5,"extra":{"k":null},"ok":true}
"#;
    let (columns, rows) = read_json_lines_cells_from_bytes("m.jsonl", bytes).expect("jsonl");
    assert_eq!(columns, strings(&["region", "amount", "tags", "extra", "ok"]));
    assert_eq!(rows.len(), 2);
    assert!(matches!(&rows[0][0], JsonCell::Text(t) if t == "West"));
    assert!(matches!(&rows[0][1], JsonCell::Number(t) if t == "10"));
    assert!(matches!(&rows[0][2], JsonCell::Nested(t) if t == "[1,2]"));
    assert!(matches!(&rows[0][3], JsonCell::Null));
    assert!(matches!(&rows[1][0], JsonCell::Null));
    assert!(matches!(&rows[1][1], JsonCell::Number(t) if t == "12.5"));
    assert!(matches!(&rows[1][3], JsonCell::Nested(t) if t == "{\"k\":null}"));
    assert!(matches!(&rows[1][4], JsonCell::Bool(true)));
}

#[test]
fn json_lines_objects_stop_at_the_first_bad_line() {
    let objects = parse_json_lines("m.jsonl", b"{\"a\":1}\n\n{\"b\":2}\n").expect("two objects");
    assert_eq!(objects.len(), 2);
    assert_eq!(objects[1][0].0, "b");
    let error = parse_json_lines("m.jsonl", b"{\"a\":1}\n[1]\n{oops}\n").expect_err("array line");
    assert!(error.message.contains("at line 2 is not an object"), "{}", error.message);
}

#[test]
fn json_cells_become_table_values() {
    assert!(matches!(json_cell_to_value(&JsonCell::Null, None), Value::Null));
    assert!(matches!(json_cell_to_value(&JsonCell::Bool(false), None), Value::Bool(false)));
    match json_cell_to_value(&JsonCell::Number("10".to_string()), Some((10f64.to_bits(), "10".to_string()))) {
        Value::Number { bits, text } => {
            assert_eq!(bits, 10f64.to_bits());
            assert_eq!(text, "10");
        }
        other => panic!("expected a number, got {other:?}"),
    }
    match json_cell_to_value(&JsonCell::Number("1e999".to_string()), None) {
        Value::String(text) => assert_eq!(text, "1e999"),
        other => panic!("expected text, got {other:?}"),
    }
    match json_cell_to_value(&JsonCell::Nested("[1,2]".to_string()), None) {
        Value::String(text) => assert_eq!(text, "[1,2]"),
        other => panic!("expected text, got {other:?}"),
    }
}

#[test]
fn csv_bytes_hold_a_header_line_and_a_line_per_row() {
    let table = Table {
        columns: strings(&["region", "amount"]),
        rows: vec![
            Row { values: vec![Value::String("West".to_string()), Value::Number { bits: 200f64.to_bits(), text: "200".to_string() }] },
            Row { values: vec![Value::String("a,b".to_string()), Value::Null] },
        ],
    };
    assert_eq!(write_csv_to_vec(&table).expect("csv"), b"region,amount\nWest,200\n\"a,b\",\n".to_vec());
    let short = Table {
        columns: strings(&["region", "amount"]),
        rows: vec![Row { values: vec![Value::Bool(true)] }],
    };
    let error = write_csv_to_vec(&short).expect_err("short row");
    assert_eq!(error.code.as_str(), "E1704");
    assert!(error.message.starts_with("CSV row write failed: "), "{}", error.message);
}
