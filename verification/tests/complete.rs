use pdl::complete::{complete_fill, complete_plan};
use pdl::frame::{Row, Table};
use pdl::value::Value;

fn s(text: &str) -> Value {
    Value::String(text.to_string())
}

fn names(items: &[&str]) -> Vec<String> {
    items.iter().map(|item| item.to_string()).collect()
}

fn cells(rows: &[Row]) -> Vec<Vec<String>> {
    rows.iter().map(|row| row.values.iter().map(|v| v.to_csv_cell()).collect()).collect()
}

fn table() -> Table {
    Table::new(
        names(&["region", "quarter", "amount"]),
        vec![
            Row { values: vec![s("West"), s("q1"), s("10")] },
            Row { values: vec![s("East"), s("q2"), s("5")] },
        ],
    )
}

#[test]
fn complete_plans_every_key_combination() {
    let t = table();
    let (rows, missing) = complete_plan(&t, &names(&["region", "quarter"]), &names(&["amount"])).expect("plans");
    assert_eq!(
        cells(&rows),
        vec![
            vec!["West", "q1", "10"],
            vec!["West", "q2", ""],
            vec!["East", "q1", ""],
            vec!["East", "q2", "5"],
        ]
    );
    assert_eq!(missing, vec![false, true, true, false]);
    let evaluated = vec![vec![], vec![Ok(s("0"))], vec![Ok(s("0"))], vec![]];
    let done = complete_fill(t.columns.clone(), rows, &missing, &names(&["amount"]), evaluated).expect("fills");
    assert_eq!(
        cells(&done.rows),
        vec![
            vec!["West", "q1", "10"],
            vec!["West", "q2", "0"],
            vec!["East", "q1", "0"],
            vec!["East", "q2", "5"],
        ]
    );
}

#[test]
fn complete_refuses_bad_keys_and_duplicates() {
    let t = table();
    let error = complete_plan(&t, &names(&[]), &names(&[])).expect_err("no keys");
    assert_eq!(error.code.as_str(), "E1211");
    let error = complete_plan(&t, &names(&["nope"]), &names(&[])).expect_err("unknown key");
    assert_eq!(error.code.as_str(), "E1005");
    assert_eq!(error.message, "unknown column `nope`");
    let error = complete_plan(&t, &names(&["region"]), &names(&["missing"])).expect_err("unknown fill");
    assert_eq!(error.message, "unknown column `missing`");
    let dup = Table::new(
        names(&["region", "amount"]),
        vec![Row { values: vec![s("West"), s("1")] }, Row { values: vec![s("West"), s("2")] }],
    );
    let error = complete_plan(&dup, &names(&["region"]), &names(&[])).expect_err("duplicate");
    assert_eq!(error.code.as_str(), "E1208");
    assert_eq!(error.message, "complete found duplicate input rows for the same key tuple");
}
