use pdl::engine::{
    DataBinaryOp, DataScalarFunction, DataUnaryOp, DataWindowFrame, DataWindowFunction, DataWindowSpec,
    NativeMaterializationReason,
};
use pdl::engine::NativeWindowSortGroup;
use pdl::expr::{
    copy_expr, data_expr_collect_multi_key_window_sort, data_expr_contains_window,
    data_expr_native_numeric_result,
    data_expr_materialization_reason, data_expr_proven_value_class,
    data_expr_with_presorted_multi_key_windows, data_expr_with_window_row_index,
    data_if_else_homogeneous, native_window_partition_mutate_items, DataExpr, DataLiteral,
    DataValueClass,
};
use pdl::frame::{NullsOrder, SortDirection, SortSpec};

fn col(name: &str) -> DataExpr {
    DataExpr::Column(name.to_string())
}

fn num(value: f64) -> DataExpr {
    DataExpr::Literal(DataLiteral::Number(value.to_bits()))
}

fn text(value: &str) -> DataExpr {
    DataExpr::Literal(DataLiteral::String(value.to_string()))
}

fn null() -> DataExpr {
    DataExpr::Literal(DataLiteral::Null)
}

fn call(function: DataScalarFunction, args: Vec<DataExpr>) -> DataExpr {
    DataExpr::Call { function, args }
}

fn sort(column: &str) -> SortSpec {
    SortSpec { column: column.to_string(), direction: SortDirection::Asc, nulls: NullsOrder::Last }
}

fn window(function: DataWindowFunction, args: Vec<DataExpr>, order_by: Vec<SortSpec>) -> DataExpr {
    DataExpr::Window {
        function,
        args,
        spec: DataWindowSpec {
            partition_by: vec!["g".to_string()],
            order_by,
            frame: DataWindowFrame::WholePartition,
            row_index: None,
            presorted: false,
        },
    }
}

#[test]
fn value_classes_follow_literals_operators_and_functions() {
    assert_eq!(data_expr_proven_value_class(&num(2.5)), Some(DataValueClass::Number));
    assert_eq!(data_expr_proven_value_class(&text("a")), Some(DataValueClass::String));
    assert_eq!(data_expr_proven_value_class(&null()), Some(DataValueClass::Null));
    assert_eq!(data_expr_proven_value_class(&col("a")), None);
    let not = DataExpr::Unary { op: DataUnaryOp::Not, expr: Box::new(col("a")) };
    assert_eq!(data_expr_proven_value_class(&not), Some(DataValueClass::Bool));
    let sum = DataExpr::Binary { left: Box::new(col("a")), op: DataBinaryOp::Add, right: Box::new(num(1.0)) };
    assert_eq!(data_expr_proven_value_class(&sum), Some(DataValueClass::Number));
    let less = DataExpr::Binary { left: Box::new(col("a")), op: DataBinaryOp::Lt, right: Box::new(num(1.0)) };
    assert_eq!(data_expr_proven_value_class(&less), Some(DataValueClass::Bool));
    assert_eq!(data_expr_proven_value_class(&call(DataScalarFunction::Concat, vec![col("a")])), Some(DataValueClass::String));
    assert_eq!(data_expr_proven_value_class(&call(DataScalarFunction::Year, vec![col("a")])), Some(DataValueClass::Number));
    assert_eq!(data_expr_proven_value_class(&window(DataWindowFunction::RowNumber, vec![], vec![])), Some(DataValueClass::Number));
    assert_eq!(data_expr_proven_value_class(&window(DataWindowFunction::Lag, vec![text("x")], vec![])), Some(DataValueClass::String));
    assert_eq!(data_expr_proven_value_class(&window(DataWindowFunction::Max, vec![], vec![])), None);
}

#[test]
fn coalesce_has_a_class_only_when_its_arguments_agree() {
    let coalesce = |args| call(DataScalarFunction::Coalesce, args);
    assert_eq!(data_expr_proven_value_class(&coalesce(vec![null(), num(1.0), num(2.0)])), Some(DataValueClass::Number));
    assert_eq!(data_expr_proven_value_class(&coalesce(vec![null(), null()])), Some(DataValueClass::Null));
    assert_eq!(data_expr_proven_value_class(&coalesce(vec![])), Some(DataValueClass::Null));
    assert_eq!(data_expr_proven_value_class(&coalesce(vec![text("a"), num(1.0)])), None);
    assert_eq!(data_expr_proven_value_class(&coalesce(vec![num(1.0), col("a")])), None);
}

#[test]
fn if_else_is_homogeneous_when_branches_share_a_class() {
    assert!(data_if_else_homogeneous(&[col("c"), num(1.0), null()]));
    assert!(data_if_else_homogeneous(&[col("c"), null(), text("x")]));
    assert!(data_if_else_homogeneous(&[col("c"), text("y"), text("x")]));
    assert!(!data_if_else_homogeneous(&[col("c"), num(1.0), text("x")]));
    assert!(!data_if_else_homogeneous(&[col("c"), col("a"), null()]));
    assert!(!data_if_else_homogeneous(&[num(1.0), text("x")]));
    let if_else = |args| call(DataScalarFunction::IfElse, args);
    assert_eq!(data_expr_proven_value_class(&if_else(vec![col("c"), null(), text("x")])), Some(DataValueClass::String));
    assert_eq!(data_expr_proven_value_class(&if_else(vec![col("c"), num(1.0), null()])), Some(DataValueClass::Number));
    assert_eq!(data_expr_proven_value_class(&if_else(vec![col("c"), num(1.0), text("x")])), None);
}

#[test]
fn materialization_reasons_name_the_first_row_only_construct() {
    let dynamic = DataExpr::DynamicColumn(Box::new(text("a")));
    assert_eq!(data_expr_materialization_reason(&col("a")), None);
    assert_eq!(data_expr_materialization_reason(&dynamic), Some(NativeMaterializationReason::DynamicColumnLookup));
    let upper = call(DataScalarFunction::Upper, vec![DataExpr::DynamicColumn(Box::new(text("a")))]);
    assert_eq!(data_expr_materialization_reason(&upper), Some(NativeMaterializationReason::DynamicColumnLookup));
    let replace_dynamic = call(DataScalarFunction::Replace, vec![col("a"), text("x"), col("b")]);
    assert_eq!(data_expr_materialization_reason(&replace_dynamic), Some(NativeMaterializationReason::DynamicReplaceText));
    let replace_static = call(DataScalarFunction::Replace, vec![col("a"), text("x"), num(1.0)]);
    assert_eq!(data_expr_materialization_reason(&replace_static), None);
    let mixed = call(DataScalarFunction::IfElse, vec![col("c"), num(1.0), text("x")]);
    assert_eq!(data_expr_materialization_reason(&mixed), Some(NativeMaterializationReason::MixedClassConditional));
    let year = call(DataScalarFunction::Year, vec![col("d")]);
    assert_eq!(data_expr_materialization_reason(&year), Some(NativeMaterializationReason::TemporalScalar));
    let lag_dynamic = window(DataWindowFunction::Lag, vec![col("v"), col("n")], vec![sort("t")]);
    assert_eq!(data_expr_materialization_reason(&lag_dynamic), Some(NativeMaterializationReason::WindowDynamicOffset));
    let lag_fixed = window(DataWindowFunction::Lag, vec![col("v"), num(2.0)], vec![sort("t")]);
    assert_eq!(data_expr_materialization_reason(&lag_fixed), None);
    let multi = window(DataWindowFunction::Sum, vec![col("v")], vec![sort("a"), sort("b")]);
    assert_eq!(data_expr_materialization_reason(&multi), Some(NativeMaterializationReason::WindowMultiOrder));
    let both = DataExpr::Binary { left: Box::new(year), op: DataBinaryOp::Add, right: Box::new(dynamic) };
    assert_eq!(data_expr_materialization_reason(&both), Some(NativeMaterializationReason::TemporalScalar));
}

#[test]
fn windows_are_found_inside_calls_and_operators() {
    let lag = window(DataWindowFunction::Lag, vec![col("v")], vec![sort("t")]);
    assert!(data_expr_contains_window(&lag));
    let nested = call(DataScalarFunction::Coalesce, vec![null(), DataExpr::Unary { op: DataUnaryOp::Neg, expr: Box::new(lag) }]);
    assert!(data_expr_contains_window(&nested));
    assert!(!data_expr_contains_window(&call(DataScalarFunction::Concat, vec![col("a"), text("b")])));
}

fn window_spec(expr: &DataExpr) -> &DataWindowSpec {
    match expr {
        DataExpr::Window { spec, .. } => spec,
        other => panic!("expected a window, got {other:?}"),
    }
}

#[test]
fn rewrites_touch_only_window_specs() {
    let inner = window(DataWindowFunction::Sum, vec![col("v")], vec![sort("a"), sort("b")]);
    let single = window(DataWindowFunction::Lag, vec![inner, num(1.0)], vec![sort("t")]);
    let expr = call(DataScalarFunction::Coalesce, vec![single, text("x")]);

    let indexed = data_expr_with_window_row_index(&expr, "__row");
    let DataExpr::Call { args, .. } = &indexed else { panic!("call") };
    assert_eq!(window_spec(&args[0]).row_index.as_deref(), Some("__row"));
    let DataExpr::Window { args: lag_args, .. } = &args[0] else { panic!("window") };
    assert_eq!(window_spec(&lag_args[0]).row_index.as_deref(), Some("__row"));
    assert!(matches!(&args[1], DataExpr::Literal(DataLiteral::String(x)) if x == "x"));

    let presorted = data_expr_with_presorted_multi_key_windows(&expr);
    let DataExpr::Call { args, .. } = &presorted else { panic!("call") };
    assert!(!window_spec(&args[0]).presorted);
    let DataExpr::Window { args: lag_args, .. } = &args[0] else { panic!("window") };
    assert!(window_spec(&lag_args[0]).presorted);
    assert_eq!(window_spec(&lag_args[0]).order_by.len(), 2);

    let copy = copy_expr(&expr);
    assert_eq!(format!("{copy:?}"), format!("{expr:?}"));
}

#[test]
fn multi_key_window_groups_must_agree() {
    let a = window(DataWindowFunction::Sum, vec![col("v")], vec![sort("a"), sort("b")]);
    let a_again = window(DataWindowFunction::Mean, vec![col("w")], vec![sort("a"), sort("b")]);
    let b = window(DataWindowFunction::Sum, vec![col("v")], vec![sort("b"), sort("a")]);
    let mut group = None;
    data_expr_collect_multi_key_window_sort(&call(DataScalarFunction::Coalesce, vec![a, a_again]), &mut group).expect("one group");
    let found: NativeWindowSortGroup = group.expect("group");
    assert_eq!(found.partition_by, vec!["g".to_string()]);
    assert_eq!(found.order_by, vec![sort("a"), sort("b")]);
    let mut group = Some(found);
    let error = data_expr_collect_multi_key_window_sort(&b, &mut group).unwrap_err();
    assert_eq!(error.code.as_str(), "E1211");
    assert!(error.message.contains("multiple multi-key window order groups"), "{}", error.message);
    let mut none = None;
    data_expr_collect_multi_key_window_sort(&window(DataWindowFunction::Sum, vec![], vec![sort("a")]), &mut none).expect("single key");
    assert!(none.is_none());
}

#[test]
fn mutate_items_are_split_by_window_sort_group() {
    let group_ab = || window(DataWindowFunction::Sum, vec![col("v")], vec![sort("a"), sort("b")]);
    let group_ba = || window(DataWindowFunction::Sum, vec![col("v")], vec![sort("b"), sort("a")]);
    let items = vec![
        ("x".to_string(), group_ab()),
        ("y".to_string(), col("y")),
        ("z".to_string(), group_ba()),
        ("w".to_string(), group_ab()),
    ];
    let (direct, grouped) = native_window_partition_mutate_items(&items).expect("partition");
    assert_eq!(direct.iter().map(|(c, _)| c.as_str()).collect::<Vec<_>>(), vec!["y"]);
    assert_eq!(grouped.len(), 2);
    assert_eq!(grouped[0].0.order_by, vec![sort("a"), sort("b")]);
    assert_eq!(grouped[0].1.iter().map(|(c, _)| c.as_str()).collect::<Vec<_>>(), vec!["x", "w"]);
    assert_eq!(grouped[1].0.order_by, vec![sort("b"), sort("a")]);
    assert_eq!(grouped[1].1.iter().map(|(c, _)| c.as_str()).collect::<Vec<_>>(), vec!["z"]);
    let clash = vec![("q".to_string(), call(DataScalarFunction::Coalesce, vec![group_ab(), group_ba()]))];
    assert!(native_window_partition_mutate_items(&clash).is_err());
}

#[test]
fn rewritten_expressions_keep_their_analysis() {
    let inner = window(DataWindowFunction::Lag, vec![col("v"), col("n")], vec![sort("a"), sort("b")]);
    let expr = call(DataScalarFunction::IfElse, vec![col("c"), inner, null()]);
    for rewritten in [
        data_expr_with_window_row_index(&expr, "__row"),
        data_expr_with_presorted_multi_key_windows(&expr),
        copy_expr(&expr),
    ] {
        assert_eq!(data_expr_proven_value_class(&rewritten), data_expr_proven_value_class(&expr));
        assert_eq!(data_expr_materialization_reason(&rewritten), data_expr_materialization_reason(&expr));
        assert_eq!(data_expr_contains_window(&rewritten), data_expr_contains_window(&expr));
    }
}

#[test]
fn native_numeric_results_follow_the_expression_shape() {
    assert!(data_expr_native_numeric_result(&num(1.0)));
    assert!(!data_expr_native_numeric_result(&text("1")));
    assert!(!data_expr_native_numeric_result(&col("amount")));
    assert!(data_expr_native_numeric_result(&DataExpr::Unary { op: DataUnaryOp::Neg, expr: Box::new(col("a")) }));
    assert!(!data_expr_native_numeric_result(&DataExpr::Unary { op: DataUnaryOp::Not, expr: Box::new(col("a")) }));
    assert!(data_expr_native_numeric_result(&DataExpr::Binary {
        left: Box::new(col("a")),
        op: DataBinaryOp::Rem,
        right: Box::new(col("b")),
    }));
    assert!(!data_expr_native_numeric_result(&DataExpr::Binary {
        left: Box::new(col("a")),
        op: DataBinaryOp::Lt,
        right: Box::new(col("b")),
    }));
    assert!(data_expr_native_numeric_result(&call(DataScalarFunction::Coalesce, vec![num(1.0), num(2.0)])));
    assert!(!data_expr_native_numeric_result(&call(DataScalarFunction::Coalesce, vec![num(1.0), col("b")])));
    assert!(data_expr_native_numeric_result(&call(DataScalarFunction::IfElse, vec![col("c"), num(1.0), num(2.0)])));
    assert!(!data_expr_native_numeric_result(&call(DataScalarFunction::IfElse, vec![col("c"), num(1.0)])));
    assert!(data_expr_native_numeric_result(&call(DataScalarFunction::Round { digits: 2 }, vec![col("a")])));
    assert!(!data_expr_native_numeric_result(&call(DataScalarFunction::Year, vec![col("a")])));
    assert!(data_expr_native_numeric_result(&window(DataWindowFunction::Rank, vec![], vec![sort("a")])));
    assert!(data_expr_native_numeric_result(&window(DataWindowFunction::Lag, vec![num(1.0)], vec![sort("a")])));
    assert!(!data_expr_native_numeric_result(&window(DataWindowFunction::Max, vec![col("a")], vec![sort("a")])));
    assert!(!data_expr_native_numeric_result(&window(DataWindowFunction::FirstValue, vec![], vec![sort("a")])));
}
