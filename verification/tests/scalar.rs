use pdl::diagnostic::Diagnostic;
use pdl::engine::DataScalarFunction;
use pdl::scalar::{
    binary64_bits, eval_scalar_function, text_contains, text_replace, text_starts_with,
    ScalarOutcome,
};
use pdl::value::Value;

fn text(value: &str) -> Result<Value, Diagnostic> {
    Ok(Value::String(value.to_string()))
}

fn number(value: f64) -> Result<Value, Diagnostic> {
    Ok(Value::Number { bits: value.to_bits(), text: format!("{value}") })
}

fn null() -> Result<Value, Diagnostic> {
    Ok(Value::Null)
}

fn failed(code: &str) -> Result<Value, Diagnostic> {
    Err(Diagnostic::error(
        pdl::diagnostic::DiagnosticCode::new(code),
        "argument failed",
        pdl::span::Span::zero(),
    ))
}

/// The cell text of a call that gives a value.
fn cell(function: DataScalarFunction, args: Vec<Result<Value, Diagnostic>>) -> String {
    match eval_scalar_function(function, &args).expect("call succeeds") {
        ScalarOutcome::Value(value) => value.to_csv_cell(),
        other => panic!("expected a value, got {other:?}"),
    }
}

fn error_code(function: DataScalarFunction, args: Vec<Result<Value, Diagnostic>>) -> String {
    eval_scalar_function(function, &args).expect_err("call fails").code.as_str().to_string()
}

#[test]
fn scalar_date_functions_render_like_the_row_runtime() {
    let rows = [
        ("2025-02-17T14:20:59Z", ["2025-02-17", "2025-02-17T14:20:59Z", "2025", "2", "17", "2025-02-01T00:00:00Z", "2025-02"]),
        ("2025-02-17T14:20:59+00:00", ["2025-02-17", "2025-02-17T14:20:59Z", "2025", "2", "17", "2025-02-01T00:00:00Z", "2025-02"]),
        ("2024-01-15T10:22:33.123-05:00", ["2024-01-15", "2024-01-15T10:22:33-05:00", "2024", "1", "15", "2024-01-01T00:00:00-05:00", "2024-01"]),
        ("2024-01-15", ["2024-01-15", "", "2024", "1", "15", "2024-01-01", "2024-01"]),
        ("not-a-date", ["", "", "", "", "", "", ""]),
    ];
    for (stamp, expected) in rows {
        let got = [
            cell(DataScalarFunction::Date, vec![text(stamp)]),
            cell(DataScalarFunction::Datetime, vec![text(stamp)]),
            cell(DataScalarFunction::Year, vec![text(stamp)]),
            cell(DataScalarFunction::Month, vec![text(stamp)]),
            cell(DataScalarFunction::Day, vec![text(stamp)]),
            cell(DataScalarFunction::DateFloor, vec![text(stamp), text("month")]),
            cell(DataScalarFunction::DateFormat, vec![text(stamp), text("%Y-%m")]),
        ];
        assert_eq!(got, expected, "{stamp}");
    }
}

#[test]
fn scalar_unit_and_pattern_errors_have_their_codes() {
    assert!(eval_scalar_function(DataScalarFunction::DateFloor, &vec![text("2024-01-15"), text("week")]).is_ok());
    assert_eq!(error_code(DataScalarFunction::DateFloor, vec![text("2024-01-15"), text("fortnight")]), "E1406");
    assert_eq!(error_code(DataScalarFunction::DateFloor, vec![text("2024-01-15"), number(1.0)]), "E1403");
    assert_eq!(error_code(DataScalarFunction::DateFormat, vec![text("2024-01-15"), text("%B")]), "E1406");
    assert_eq!(error_code(DataScalarFunction::DateFormat, vec![text("2024-01-15"), null()]), "E1403");
    let message = eval_scalar_function(DataScalarFunction::DateFloor, &vec![text("x"), text("fortnight")])
        .expect_err("unsupported unit")
        .message;
    assert_eq!(
        message,
        "date_floor() unit `fortnight` is not supported; use \"day\", \"week\", \"month\", or \"year\""
    );
}

#[test]
fn scalar_arity_is_checked_before_arguments() {
    assert_eq!(error_code(DataScalarFunction::IfElse, vec![failed("E1005")]), "E1402");
    assert_eq!(error_code(DataScalarFunction::Contains, vec![text("a")]), "E1402");
    assert_eq!(error_code(DataScalarFunction::Replace, vec![text("a"), text("b")]), "E1402");
    assert_eq!(error_code(DataScalarFunction::Upper, vec![]), "E1402");
    assert_eq!(error_code(DataScalarFunction::DateFormat, vec![text("a")]), "E1402");
}

#[test]
fn scalar_arguments_are_read_in_evaluation_order() {
    // coalesce stops at the first non-null value; a later failure is never read.
    assert_eq!(cell(DataScalarFunction::Coalesce, vec![null(), text("x"), failed("E1005")]), "x");
    assert_eq!(error_code(DataScalarFunction::Coalesce, vec![null(), failed("E1005"), text("x")]), "E1005");
    assert_eq!(cell(DataScalarFunction::Coalesce, vec![null(), null()]), "");
    // if_else reads one branch only.
    assert_eq!(cell(DataScalarFunction::IfElse, vec![Ok(Value::Bool(true)), text("yes"), failed("E1005")]), "yes");
    assert_eq!(error_code(DataScalarFunction::IfElse, vec![text("maybe"), text("yes"), text("no")]), "E1302");
    assert_eq!(cell(DataScalarFunction::IfElse, vec![null(), text("yes"), text("no")]), "");
    // date_floor reads its unit before its value.
    assert_eq!(error_code(DataScalarFunction::DateFloor, vec![failed("E1005"), text("fortnight")]), "E1406");
}

#[test]
fn scalar_text_functions() {
    assert_eq!(cell(DataScalarFunction::Concat, vec![text("a"), null(), number(2.5), Ok(Value::Bool(true))]), "a2.5true");
    assert_eq!(cell(DataScalarFunction::Upper, vec![text("straße")]), "STRASSE");
    assert_eq!(cell(DataScalarFunction::Lower, vec![text("ÀB")]), "àb");
    assert_eq!(cell(DataScalarFunction::Trim, vec![text("  x y \t")]), "x y");
    assert_eq!(cell(DataScalarFunction::Replace, vec![text("aaa"), text("aa"), text("b")]), "ba");
    assert_eq!(cell(DataScalarFunction::Replace, vec![text("ab"), text(""), text("-")]), "-a-b-");
    assert_eq!(cell(DataScalarFunction::Contains, vec![text("pipeline"), text("eli")]), "true");
    assert_eq!(cell(DataScalarFunction::StartsWith, vec![text("pipeline"), text("eli")]), "false");
    assert_eq!(cell(DataScalarFunction::StartsWith, vec![null(), text("eli")]), "");
    assert_eq!(cell(DataScalarFunction::ToBoolean, vec![text(" true ")]), "true");
    assert_eq!(cell(DataScalarFunction::ToBoolean, vec![text("yes")]), "");
    assert_eq!(cell(DataScalarFunction::ToString, vec![number(10.0)]), "10");
    assert_eq!(cell(DataScalarFunction::IsNull, vec![null()]), "true");
    assert_eq!(cell(DataScalarFunction::NotNull, vec![null()]), "false");
}

#[test]
fn scalar_numeric_steps_are_handed_back() {
    let bits = (-2.5f64).to_bits();
    let args = vec![Ok(Value::Number { bits, text: "-2.5".to_string() })];
    assert!(matches!(
        eval_scalar_function(DataScalarFunction::Abs, &args),
        Ok(ScalarOutcome::Abs(b)) if b == bits
    ));
    assert!(matches!(
        eval_scalar_function(DataScalarFunction::Round { digits: 1 }, &args),
        Ok(ScalarOutcome::Round { bits: b, digits: 1 }) if b == bits
    ));
    assert!(matches!(
        eval_scalar_function(DataScalarFunction::ToNumber, &vec![text(" 12 ")]),
        Ok(ScalarOutcome::ParseNumber(t)) if t == "12"
    ));
    assert_eq!(error_code(DataScalarFunction::Abs, vec![text("x")]), "E1302");
    assert_eq!(error_code(DataScalarFunction::Round { digits: 0 }, vec![text("x")]), "E1302");
}

#[test]
fn integers_get_their_binary64_bits() {
    for n in [0i64, 1, 2, 3, 7, 12, 2025, -1, -44, -262143, 4503599627370497, -9007199254740991] {
        assert_eq!(binary64_bits(n), (n as f64).to_bits(), "{n}");
    }
}

#[test]
fn text_helpers_follow_std() {
    for (s, p) in [("abc", ""), ("abc", "c"), ("abc", "bd"), ("", ""), ("aé", "é")] {
        assert_eq!(text_contains(s, p), s.contains(p));
        assert_eq!(text_starts_with(s, p), s.starts_with(p));
    }
    for (s, p, r) in [("aaaa", "aa", "x"), ("abc", "", "_"), ("", "", "_"), ("abab", "ba", "")] {
        assert_eq!(text_replace(s, p, r), s.replace(p, r));
    }
}
