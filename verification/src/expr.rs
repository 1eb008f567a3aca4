//! Data expressions, and what the native engine can tell about one before
//! evaluating it: the class of value it is sure to produce, whether it
//! holds a window function, and why it would have to fall back to
//! row-at-a-time evaluation.
use vstd::prelude::*;

use crate::diagnostic::Diagnostic;
use crate::engine::{
    unsupported_native_operation, unsupported_operation_view, DataBinaryOp, DataScalarFunction,
    DataUnaryOp, DataWindowFrame, DataWindowFunction, DataWindowSpec, NativeMaterializationReason,
    NativeWindowSortGroup,
};
use crate::frame::{sort_spec_view, sort_specs_view, NullsOrder, SortDirection, SortSpec};
use crate::text::{copy_str, copy_string, copy_strings, string_eq, strings_view};

verus! {

/// A literal of a data expression. A number is held by its IEEE 754
/// binary64 bit pattern (`f64::to_bits`).
#[derive(Clone, Debug, Eq, PartialEq)]
pub enum DataLiteral {
    String(String),
    Number(u64),
    Bool(bool),
    Null,
}

/// An expression evaluated against the rows of a table.
#[derive(Debug)]
pub enum DataExpr {
    Column(String),
    DynamicColumn(Box<DataExpr>),
    Literal(DataLiteral),
    Unary { op: DataUnaryOp, expr: Box<DataExpr> },
    Binary { left: Box<DataExpr>, op: DataBinaryOp, right: Box<DataExpr> },
    Call { function: DataScalarFunction, args: Vec<DataExpr> },
    Window { function: DataWindowFunction, args: Vec<DataExpr>, spec: DataWindowSpec },
}

/// The classes of values an expression can produce.
#[derive(Clone, Copy, Debug, Eq, PartialEq, Structural)]
pub enum DataValueClass {
    Null,
    Bool,
    Number,
    String,
}

/// Whether an expression holds a window function anywhere.
pub open spec fn contains_window(e: DataExpr) -> bool
    decreases e,
{
    match e {
        DataExpr::Window { .. } => true,
        DataExpr::DynamicColumn(inner) => contains_window(*inner),
        DataExpr::Unary { expr, .. } => contains_window(*expr),
        DataExpr::Binary { left, right, .. } => contains_window(*left) || contains_window(*right),
        DataExpr::Call { args, .. } => any_contains_window(args@),
        DataExpr::Column(_) | DataExpr::Literal(_) => false,
    }
}

pub open spec fn any_contains_window(args: Seq<DataExpr>) -> bool
    decreases args,
{
    if args.len() == 0 {
        false
    } else {
        any_contains_window(args.drop_last()) || contains_window(args.last())
    }
}

/// Whether an expression holds a window function anywhere.
pub fn data_expr_contains_window(expr: &DataExpr) -> (r: bool)
    ensures
        r == contains_window(*expr),
    decreases expr,
{
    match expr {
        DataExpr::Window { .. } => true,
        DataExpr::DynamicColumn(inner) => data_expr_contains_window(inner),
        DataExpr::Unary { expr, .. } => data_expr_contains_window(expr),
        DataExpr::Binary { left, right, .. } => data_expr_contains_window(left) || data_expr_contains_window(right),
        DataExpr::Call { function, args } => {
            let mut i: usize = 0;
            while i < args.len()
                invariant
                    i <= args.len(),
                    *expr == (DataExpr::Call { function: *function, args: *args }),
                    !any_contains_window(args@.take(i as int)),
                decreases args.len() - i,
            {
                assert(args@.take(i + 1).drop_last() =~= args@.take(i as int));
                proof {
                    assert(decreases_to!(*expr => (*expr)->Call_args));
                    assert(decreases_to!(*args => args@));
                    assert(decreases_to!(args@ => args@[i as int]));
                }
                if data_expr_contains_window(&args[i]) {
                    proof {
                        lemma_any_window_prefix(args@, i + 1);
                    }
                    return true;
                }
                i += 1;
            }
            assert(args@.take(args.len() as int) =~= args@);
            false
        },
        DataExpr::Column(_) | DataExpr::Literal(_) => false,
    }
}

/// Whether the native engine computes an expression as a number: number
/// literals, negation, arithmetic, `to_number`, `abs`, `round`, a
/// `coalesce` of numbers, an `if_else` with two numeric branches, the
/// numbering, counting, summing and averaging windows, and the other windows
/// over a numeric first argument.
pub open spec fn numeric_result(e: DataExpr) -> bool
    decreases e,
{
    match e {
        DataExpr::Literal(l) => l is Number,
        DataExpr::Column(_) | DataExpr::DynamicColumn(_) => false,
        DataExpr::Unary { op, .. } => op is Neg,
        DataExpr::Binary { op, .. } => op is Add || op is Sub || op is Mul || op is Div || op is Rem,
        DataExpr::Call { function, args } => match function {
            DataScalarFunction::ToNumber | DataScalarFunction::Abs | DataScalarFunction::Round { .. } => true,
            DataScalarFunction::Coalesce => all_numeric(args@),
            DataScalarFunction::IfElse => args@.len() == 3 && numeric_result(args@[1]) && numeric_result(args@[2]),
            _ => false,
        },
        DataExpr::Window { function, args, .. } => match function {
            DataWindowFunction::RowNumber | DataWindowFunction::Rank | DataWindowFunction::DenseRank
            | DataWindowFunction::PercentRank | DataWindowFunction::CumeDist | DataWindowFunction::Count
            | DataWindowFunction::Sum | DataWindowFunction::Mean => true,
            _ => args@.len() > 0 && numeric_result(args@[0]),
        },
    }
}

pub open spec fn all_numeric(args: Seq<DataExpr>) -> bool
    decreases args,
{
    if args.len() == 0 {
        true
    } else {
        all_numeric(args.drop_last()) && numeric_result(args.last())
    }
}

proof fn lemma_all_numeric_prefix(args: Seq<DataExpr>, i: int)
    requires
        0 <= i <= args.len(),
        !all_numeric(args.take(i)),
    ensures
        !all_numeric(args),
    decreases args.len(),
{
    if i == args.len() {
        assert(args.take(i) =~= args);
    } else {
        let shorter = args.drop_last();
        assert(shorter.take(i) =~= args.take(i));
        lemma_all_numeric_prefix(shorter, i);
    }
}

/// Whether the native engine computes an expression as a number.
pub fn data_expr_native_numeric_result(expr: &DataExpr) -> (r: bool)
    ensures
        r == numeric_result(*expr),
    decreases expr,
{
    match expr {
        DataExpr::Literal(DataLiteral::Number(_)) => true,
        DataExpr::Literal(_) => false,
        DataExpr::Column(_) | DataExpr::DynamicColumn(_) => false,
        DataExpr::Unary { op, .. } => match op {
            DataUnaryOp::Neg => true,
            DataUnaryOp::Not => false,
        },
        DataExpr::Binary { op, .. } => match op {
            DataBinaryOp::Add | DataBinaryOp::Sub | DataBinaryOp::Mul | DataBinaryOp::Div
            | DataBinaryOp::Rem => true,
            _ => false,
        },
        DataExpr::Call { function, args } => match function {
            DataScalarFunction::ToNumber | DataScalarFunction::Abs | DataScalarFunction::Round { .. } => true,
            DataScalarFunction::Coalesce => {
                let mut i: usize = 0;
                while i < args.len()
                    invariant
                        i <= args.len(),
                        *expr == (DataExpr::Call { function: *function, args: *args }),
                        *function == DataScalarFunction::Coalesce,
                        all_numeric(args@.take(i as int)),
                    decreases args.len() - i,
                {
                    assert(args@.take(i + 1).drop_last() =~= args@.take(i as int));
                    proof {
                        assert(decreases_to!(*expr => (*expr)->Call_args));
                        assert(decreases_to!(*args => args@));
                        assert(decreases_to!(args@ => args@[i as int]));
                    }
                    assert(args@.take(i + 1).last() == args@[i as int]);
                    if !data_expr_native_numeric_result(&args[i]) {
                        proof {
                            lemma_all_numeric_prefix(args@, i + 1);
                        }
                        return false;
                    }
                    i += 1;
                }
                assert(args@.take(args.len() as int) =~= args@);
                true
            },
            DataScalarFunction::IfElse => {
                if args.len() != 3 {
                    return false;
                }
                proof {
                    assert(decreases_to!(*expr => (*expr)->Call_args));
                    assert(decreases_to!(*args => args@));
                    assert(decreases_to!(args@ => args@[1]));
                    assert(decreases_to!(args@ => args@[2]));
                }
                data_expr_native_numeric_result(&args[1]) && data_expr_native_numeric_result(&args[2])
            },
            _ => false,
        },
        DataExpr::Window { function, args, spec } => match function {
            DataWindowFunction::RowNumber | DataWindowFunction::Rank | DataWindowFunction::DenseRank
            | DataWindowFunction::PercentRank | DataWindowFunction::CumeDist | DataWindowFunction::Count
            | DataWindowFunction::Sum | DataWindowFunction::Mean => true,
            _ => {
                if args.len() == 0 {
                    return false;
                }
                proof {
                    assert(decreases_to!(*expr => (*expr)->Window_args));
                    assert(decreases_to!(*args => args@));
                    assert(decreases_to!(args@ => args@[0]));
                }
                data_expr_native_numeric_result(&args[0])
            },
        },
    }
}

proof fn lemma_any_window_prefix(args: Seq<DataExpr>, i: int)
    requires
        0 <= i <= args.len(),
        any_contains_window(args.take(i)),
    ensures
        any_contains_window(args),
    decreases args.len(),
{
    if i == args.len() {
        assert(args.take(i) =~= args);
    } else {
        let shorter = args.drop_last();
        assert(shorter.take(i) =~= args.take(i));
        lemma_any_window_prefix(shorter, i);
    }
}

/// The class of value an expression is sure to produce, where that is
/// known without evaluating it.
pub open spec fn value_class(e: DataExpr) -> Option<DataValueClass>
    decreases e,
{
    match e {
        DataExpr::Literal(DataLiteral::Null) => Some(DataValueClass::Null),
        DataExpr::Literal(DataLiteral::Bool(_)) => Some(DataValueClass::Bool),
        DataExpr::Literal(DataLiteral::Number(_)) => Some(DataValueClass::Number),
        DataExpr::Literal(DataLiteral::String(_)) => Some(DataValueClass::String),
        DataExpr::Column(_) | DataExpr::DynamicColumn(_) => None,
        DataExpr::Unary { op, .. } => match op {
            DataUnaryOp::Not => Some(DataValueClass::Bool),
            DataUnaryOp::Neg => Some(DataValueClass::Number),
        },
        DataExpr::Binary { op, .. } => match op {
            DataBinaryOp::Add | DataBinaryOp::Sub | DataBinaryOp::Mul | DataBinaryOp::Div
            | DataBinaryOp::Rem => Some(DataValueClass::Number),
            _ => Some(DataValueClass::Bool),
        },
        DataExpr::Call { function, args } => match function {
            DataScalarFunction::IsNull | DataScalarFunction::NotNull | DataScalarFunction::Contains
            | DataScalarFunction::StartsWith | DataScalarFunction::ToBoolean => Some(
                DataValueClass::Bool,
            ),
            DataScalarFunction::ToNumber | DataScalarFunction::Abs | DataScalarFunction::Round { .. }
            | DataScalarFunction::Year | DataScalarFunction::Month | DataScalarFunction::Day => Some(
                DataValueClass::Number,
            ),
            DataScalarFunction::Coalesce => match coalesce_class(args@) {
                None => None,
                Some(None) => Some(DataValueClass::Null),
                Some(Some(c)) => Some(c),
            },
            DataScalarFunction::IfElse => if args@.len() == 3 && if_else_homogeneous(args@) {
                match value_class(args@[1]) {
                    Some(DataValueClass::Null) => value_class(args@[2]),
                    v => v,
                }
            } else {
                None
            },
            _ => Some(DataValueClass::String),
        },
        DataExpr::Window { function, args, .. } => match function {
            DataWindowFunction::Lag | DataWindowFunction::Lead | DataWindowFunction::FirstValue
            | DataWindowFunction::LastValue | DataWindowFunction::Min | DataWindowFunction::Max => {
                if args@.len() > 0 {
                    value_class(args@[0])
                } else {
                    None
                }
            },
            _ => Some(DataValueClass::Number),
        },
    }
}

/// The classes of the arguments of `coalesce`, from the first: `None` where
/// one is unknown or two that are not null differ; else the class they
/// share, or `Some(None)` where all are null.
pub open spec fn coalesce_class(args: Seq<DataExpr>) -> Option<Option<DataValueClass>>
    decreases args,
{
    if args.len() == 0 {
        Some(None)
    } else {
        match coalesce_class(args.drop_last()) {
            None => None,
            Some(acc) => match value_class(args.last()) {
                None => None,
                Some(DataValueClass::Null) => Some(acc),
                Some(c) => match acc {
                    None => Some(Some(c)),
                    Some(a) => if a == c {
                        Some(acc)
                    } else {
                        None
                    },
                },
            },
        }
    }
}

/// An `if_else` whose two branches are of one known class, or one of them
/// is null.
pub open spec fn if_else_homogeneous(args: Seq<DataExpr>) -> bool
    decreases args,
{
    if args.len() != 3 {
        false
    } else {
        match (value_class(args[1]), value_class(args[2])) {
            (Some(DataValueClass::Null), Some(_)) => true,
            (Some(_), Some(DataValueClass::Null)) => true,
            (Some(l), Some(r)) => l == r,
            _ => false,
        }
    }
}

proof fn lemma_coalesce_failure_persists(args: Seq<DataExpr>, i: int)
    requires
        0 <= i <= args.len(),
        coalesce_class(args.take(i)) is None,
    ensures
        coalesce_class(args) is None,
    decreases args.len(),
{
    if i == args.len() {
        assert(args.take(i) =~= args);
    } else {
        let shorter = args.drop_last();
        assert(shorter.take(i) =~= args.take(i));
        lemma_coalesce_failure_persists(shorter, i);
    }
}

/// The class of value an expression is sure to produce, where that is
/// known without evaluating it.
pub fn data_expr_proven_value_class(expr: &DataExpr) -> (r: Option<DataValueClass>)
    ensures
        r == value_class(*expr),
    decreases expr,
{
    match expr {
        DataExpr::Literal(literal) => match literal {
            DataLiteral::Null => Some(DataValueClass::Null),
            DataLiteral::Bool(_) => Some(DataValueClass::Bool),
            DataLiteral::Number(_) => Some(DataValueClass::Number),
            DataLiteral::String(_) => Some(DataValueClass::String),
        },
        DataExpr::Column(_) | DataExpr::DynamicColumn(_) => None,
        DataExpr::Unary { op, .. } => match op {
            DataUnaryOp::Not => Some(DataValueClass::Bool),
            DataUnaryOp::Neg => Some(DataValueClass::Number),
        },
        DataExpr::Binary { op, .. } => match op {
            DataBinaryOp::Add | DataBinaryOp::Sub | DataBinaryOp::Mul | DataBinaryOp::Div
            | DataBinaryOp::Rem => Some(DataValueClass::Number),
            _ => Some(DataValueClass::Bool),
        },
        DataExpr::Call { function, args } => match function {
            DataScalarFunction::IsNull | DataScalarFunction::NotNull | DataScalarFunction::Contains
            | DataScalarFunction::StartsWith | DataScalarFunction::ToBoolean => Some(
                DataValueClass::Bool,
            ),
            DataScalarFunction::ToNumber | DataScalarFunction::Abs | DataScalarFunction::Round { .. }
            | DataScalarFunction::Year | DataScalarFunction::Month | DataScalarFunction::Day => Some(
                DataValueClass::Number,
            ),
            DataScalarFunction::Coalesce => {
                let mut class: Option<DataValueClass> = None;
                let mut i: usize = 0;
                while i < args.len()
                    invariant
                        i <= args.len(),
                        *expr == (DataExpr::Call { function: *function, args: *args }),
                        *function == DataScalarFunction::Coalesce,
                        coalesce_class(args@.take(i as int)) == Some(class),
                    decreases args.len() - i,
                {
                    proof {
                        assert(decreases_to!(*expr => (*expr)->Call_args));
                        assert(decreases_to!(*args => args@));
                        assert(decreases_to!(args@ => args@[i as int]));
                        assert(args@.take(i + 1).drop_last() =~= args@.take(i as int));
                        assert(args@.take(i + 1).last() == args@[i as int]);
                    }
                    let next = match data_expr_proven_value_class(&args[i]) {
                        Some(c) => c,
                        None => {
                            proof {
                                assert(coalesce_class(args@.take(i + 1)) is None);
                                lemma_coalesce_failure_persists(args@, i + 1);
                            }
                            return None;
                        },
                    };
                    if next != DataValueClass::Null {
                        match class {
                            Some(current) => {
                                if current != next {
                                    proof {
                                        assert(coalesce_class(args@.take(i + 1)) is None);
                                        lemma_coalesce_failure_persists(args@, i + 1);
                                    }
                                    return None;
                                }
                            },
                            None => {
                                class = Some(next);
                            },
                        }
                    }
                    i += 1;
                }
                assert(args@.take(args.len() as int) =~= args@);
                match class {
                    Some(c) => Some(c),
                    None => Some(DataValueClass::Null),
                }
            },
            DataScalarFunction::IfElse => {
                proof {
                    assert(decreases_to!(*expr => (*expr)->Call_args));
                    assert(decreases_to!(*args => args@));
                }
                if args.len() == 3 && data_if_else_homogeneous(args.as_slice()) {
                    proof {
                        assert(decreases_to!(args@ => args@[1]));
                        assert(decreases_to!(args@ => args@[2]));
                    }
                    match data_expr_proven_value_class(&args[1]) {
                        Some(DataValueClass::Null) => data_expr_proven_value_class(&args[2]),
                        v => v,
                    }
                } else {
                    None
                }
            },
            _ => Some(DataValueClass::String),
        },
        DataExpr::Window { function, args, spec } => match function {
            DataWindowFunction::Lag | DataWindowFunction::Lead | DataWindowFunction::FirstValue
            | DataWindowFunction::LastValue | DataWindowFunction::Min | DataWindowFunction::Max => {
                if args.len() > 0 {
                    proof {
                        assert(decreases_to!(*expr => (*expr)->Window_args));
                        assert(decreases_to!(*args => args@));
                        assert(decreases_to!(args@ => args@[0]));
                    }
                    data_expr_proven_value_class(&args[0])
                } else {
                    None
                }
            },
            _ => Some(DataValueClass::Number),
        },
    }
}

/// Whether an `if_else` has two branches of one known class, or one null
/// branch.
pub fn data_if_else_homogeneous(args: &[DataExpr]) -> (r: bool)
    ensures
        r == if_else_homogeneous(args@),
    decreases args@,
{
    if args.len() != 3 {
        return false;
    }
    proof {
        assert(decreases_to!(args@ => args@[1]));
        assert(decreases_to!(args@ => args@[2]));
    }
    let left = data_expr_proven_value_class(&args[1]);
    let right = data_expr_proven_value_class(&args[2]);
    match (left, right) {
        (Some(DataValueClass::Null), Some(_)) => true,
        (Some(_), Some(DataValueClass::Null)) => true,
        (Some(l), Some(r)) => l == r,
        _ => false,
    }
}

/// A literal whose text is fixed: a string, number or boolean.
pub open spec fn static_text(e: DataExpr) -> bool {
    match e {
        DataExpr::Literal(DataLiteral::String(_)) => true,
        DataExpr::Literal(DataLiteral::Number(_)) => true,
        DataExpr::Literal(DataLiteral::Bool(_)) => true,
        _ => false,
    }
}

/// Why a call itself, apart from its arguments, needs rows: a conditional
/// whose branches may differ in class, a temporal function, or a
/// `replace` whose pattern or replacement is not a fixed text.
pub open spec fn call_reason(function: DataScalarFunction, args: Seq<DataExpr>) -> Option<
    NativeMaterializationReason,
> {
    match function {
        DataScalarFunction::IfElse => if if_else_homogeneous(args) {
            None
        } else {
            Some(NativeMaterializationReason::MixedClassConditional)
        },
        DataScalarFunction::Date | DataScalarFunction::Datetime | DataScalarFunction::Year
        | DataScalarFunction::Month | DataScalarFunction::Day | DataScalarFunction::DateFloor
        | DataScalarFunction::DateFormat => Some(NativeMaterializationReason::TemporalScalar),
        DataScalarFunction::Replace => if exists|i: int|
            1 <= i < args.len() && !static_text(#[trigger] args[i]) {
            Some(NativeMaterializationReason::DynamicReplaceText)
        } else {
            None
        },
        _ => None,
    }
}

/// Why the native engine must evaluate an expression row by row, if it
/// must: the first reason found, outermost first and left to right.
pub open spec fn materialization_reason(e: DataExpr) -> Option<NativeMaterializationReason>
    decreases e,
{
    match e {
        DataExpr::DynamicColumn(_) => Some(NativeMaterializationReason::DynamicColumnLookup),
        DataExpr::Column(_) | DataExpr::Literal(_) => None,
        DataExpr::Unary { expr, .. } => materialization_reason(*expr),
        DataExpr::Binary { left, right, .. } => match materialization_reason(*left) {
            Some(r) => Some(r),
            None => materialization_reason(*right),
        },
        DataExpr::Call { function, args } => match call_reason(function, args@) {
            Some(r) => Some(r),
            None => first_reason(args@),
        },
        DataExpr::Window { args, spec, .. } => match first_reason(args@) {
            Some(r) => Some(r),
            None => if spec.order_by@.len() > 1 {
                Some(NativeMaterializationReason::WindowMultiOrder)
            } else if args@.len() > 1 && !(args@[1] matches DataExpr::Literal(DataLiteral::Number(_))) {
                Some(NativeMaterializationReason::WindowDynamicOffset)
            } else {
                None
            },
        },
    }
}

/// The reason of the first argument that has one.
pub open spec fn first_reason(args: Seq<DataExpr>) -> Option<NativeMaterializationReason>
    decreases args,
{
    if args.len() == 0 {
        None
    } else {
        match first_reason(args.drop_last()) {
            Some(r) => Some(r),
            None => materialization_reason(args.last()),
        }
    }
}

proof fn lemma_first_reason_prefix(args: Seq<DataExpr>, i: int)
    requires
        0 <= i <= args.len(),
        first_reason(args.take(i)) is Some,
    ensures
        first_reason(args) == first_reason(args.take(i)),
    decreases args.len(),
{
    if i == args.len() {
        assert(args.take(i) =~= args);
    } else {
        let shorter = args.drop_last();
        assert(shorter.take(i) =~= args.take(i));
        lemma_first_reason_prefix(shorter, i);
    }
}

fn native_static_text_expr(expr: &DataExpr) -> (r: bool)
    ensures
        r == static_text(*expr),
{
    match expr {
        DataExpr::Literal(literal) => match literal {
            DataLiteral::Null => false,
            _ => true,
        },
        _ => false,
    }
}

/// Why the native engine must evaluate an expression row by row, if it
/// must: the first reason found, outermost first and left to right.
pub fn data_expr_materialization_reason(expr: &DataExpr) -> (r: Option<NativeMaterializationReason>)
    ensures
        r == materialization_reason(*expr),
    decreases expr,
{
    match expr {
        DataExpr::DynamicColumn(_) => Some(NativeMaterializationReason::DynamicColumnLookup),
        DataExpr::Column(_) | DataExpr::Literal(_) => None,
        DataExpr::Unary { expr: inner, .. } => data_expr_materialization_reason(inner),
        DataExpr::Binary { left, right, .. } => match data_expr_materialization_reason(left) {
            Some(r) => Some(r),
            None => data_expr_materialization_reason(right),
        },
        DataExpr::Call { function, args } => {
            let direct = match function {
                DataScalarFunction::IfElse => if data_if_else_homogeneous(args.as_slice()) {
                    None
                } else {
                    Some(NativeMaterializationReason::MixedClassConditional)
                },
                DataScalarFunction::Date | DataScalarFunction::Datetime | DataScalarFunction::Year
                | DataScalarFunction::Month | DataScalarFunction::Day | DataScalarFunction::DateFloor
                | DataScalarFunction::DateFormat => Some(NativeMaterializationReason::TemporalScalar),
                DataScalarFunction::Replace => {
                    let mut dynamic = false;
                    let mut j: usize = 1;
                    while j < args.len()
                        invariant
                            1 <= j,
                            j <= args.len() || args.len() == 0,
                            dynamic <==> exists|k: int| 1 <= k < j && k < args@.len() && !static_text(#[trigger] args@[k]),
                        decreases args.len() - j,
                    {
                        if !native_static_text_expr(&args[j]) {
                            dynamic = true;
                        }
                        j += 1;
                    }
                    if dynamic {
                        Some(NativeMaterializationReason::DynamicReplaceText)
                    } else {
                        None
                    }
                },
                _ => None,
            };
            if direct.is_some() {
                return direct;
            }
            let mut i: usize = 0;
            while i < args.len()
                invariant
                    i <= args.len(),
                    *expr == (DataExpr::Call { function: *function, args: *args }),
                    call_reason(*function, args@) is None,
                    first_reason(args@.take(i as int)) is None,
                decreases args.len() - i,
            {
                proof {
                    assert(decreases_to!(*expr => (*expr)->Call_args));
                    assert(decreases_to!(*args => args@));
                    assert(decreases_to!(args@ => args@[i as int]));
                    assert(args@.take(i + 1).drop_last() =~= args@.take(i as int));
                    assert(args@.take(i + 1).last() == args@[i as int]);
                }
                let found = data_expr_materialization_reason(&args[i]);
                if found.is_some() {
                    proof {
                        lemma_first_reason_prefix(args@, i + 1);
                    }
                    return found;
                }
                i += 1;
            }
            assert(args@.take(args.len() as int) =~= args@);
            None
        },
        DataExpr::Window { function, args, spec } => {
            let mut i: usize = 0;
            while i < args.len()
                invariant
                    i <= args.len(),
                    *expr == (DataExpr::Window { function: *function, args: *args, spec: *spec }),
                    first_reason(args@.take(i as int)) is None,
                decreases args.len() - i,
            {
                proof {
                    assert(decreases_to!(*expr => (*expr)->Window_args));
                    assert(decreases_to!(*args => args@));
                    assert(decreases_to!(args@ => args@[i as int]));
                    assert(args@.take(i + 1).drop_last() =~= args@.take(i as int));
                    assert(args@.take(i + 1).last() == args@[i as int]);
                }
                let found = data_expr_materialization_reason(&args[i]);
                if found.is_some() {
                    proof {
                        lemma_first_reason_prefix(args@, i + 1);
                    }
                    return found;
                }
                i += 1;
            }
            assert(args@.take(args.len() as int) =~= args@);
            if spec.order_by.len() > 1 {
                Some(NativeMaterializationReason::WindowMultiOrder)
            } else if args.len() > 1 && !matches!(&args[1], DataExpr::Literal(DataLiteral::Number(_))) {
                Some(NativeMaterializationReason::WindowDynamicOffset)
            } else {
                None
            }
        },
    }
}

/// A sort key as plain values.
pub type SortV = (Seq<char>, SortDirection, NullsOrder);

/// A window specification as plain values: partition columns, sort keys,
/// frame, row-index column and whether the rows come presorted.
pub type WindowSpecV = (Seq<Seq<char>>, Seq<SortV>, DataWindowFrame, Option<Seq<char>>, bool);

pub open spec fn window_spec_view(s: DataWindowSpec) -> WindowSpecV {
    (
        strings_view(s.partition_by@),
        sort_specs_view(s.order_by@),
        s.frame,
        match s.row_index {
            Some(r) => Some(r@),
            None => None,
        },
        s.presorted,
    )
}

/// A window specification after a rewrite: given a row-index column, the
/// window numbers its rows by it; with `presort`, a window ordered by more
/// than one key is marked as reading presorted rows.
pub open spec fn rewritten_spec(s: WindowSpecV, row_index: Option<Seq<char>>, presort: bool) -> WindowSpecV {
    (
        s.0,
        s.1,
        s.2,
        match row_index {
            Some(r) => Some(r),
            None => s.3,
        },
        if presort && s.1.len() > 1 {
            true
        } else {
            s.4
        },
    )
}

pub open spec fn same_literal(a: DataLiteral, b: DataLiteral) -> bool {
    match (a, b) {
        (DataLiteral::String(x), DataLiteral::String(y)) => x@ == y@,
        (DataLiteral::Number(x), DataLiteral::Number(y)) => x == y,
        (DataLiteral::Bool(x), DataLiteral::Bool(y)) => x == y,
        (DataLiteral::Null, DataLiteral::Null) => true,
        _ => false,
    }
}

/// `b` is `a` with every window specification rewritten (see
/// `rewritten_spec`), and otherwise the same expression; with no row index
/// and no presorting, `b` is a copy of `a`.
pub open spec fn rewritten(a: DataExpr, b: DataExpr, row_index: Option<Seq<char>>, presort: bool) -> bool
    decreases a,
{
    match a {
        DataExpr::Column(x) => b matches DataExpr::Column(y) && x@ == y@,
        DataExpr::Literal(l) => b matches DataExpr::Literal(m) && same_literal(l, m),
        DataExpr::DynamicColumn(x) => b matches DataExpr::DynamicColumn(y) && rewritten(
            *x,
            *y,
            row_index,
            presort,
        ),
        DataExpr::Unary { op, expr } => b matches DataExpr::Unary { op: op2, expr: expr2 } && op
            == op2 && rewritten(*expr, *expr2, row_index, presort),
        DataExpr::Binary { left, op, right } => b matches DataExpr::Binary {
            left: left2,
            op: op2,
            right: right2,
        } && op == op2 && rewritten(*left, *left2, row_index, presort) && rewritten(
            *right,
            *right2,
            row_index,
            presort,
        ),
        DataExpr::Call { function, args } => b matches DataExpr::Call { function: f2, args: args2 }
            && function == f2 && all_rewritten(args@, args2@, row_index, presort),
        DataExpr::Window { function, args, spec } => b matches DataExpr::Window {
            function: f2,
            args: args2,
            spec: spec2,
        } && function == f2 && all_rewritten(args@, args2@, row_index, presort) && window_spec_view(
            spec2,
        ) == rewritten_spec(window_spec_view(spec), row_index, presort),
    }
}

pub open spec fn all_rewritten(
    xs: Seq<DataExpr>,
    ys: Seq<DataExpr>,
    row_index: Option<Seq<char>>,
    presort: bool,
) -> bool
    decreases xs,
{
    xs.len() == ys.len() && (xs.len() == 0 || (all_rewritten(
        xs.drop_last(),
        ys.drop_last(),
        row_index,
        presort,
    ) && rewritten(xs.last(), ys.last(), row_index, presort)))
}

fn copy_sort_specs(specs: &Vec<SortSpec>) -> (r: Vec<SortSpec>)
    ensures
        sort_specs_view(r@) == sort_specs_view(specs@),
{
    let mut out: Vec<SortSpec> = Vec::new();
    let mut i: usize = 0;
    while i < specs.len()
        invariant
            i <= specs.len(),
            sort_specs_view(out@) == sort_specs_view(specs@.take(i as int)),
        decreases specs.len() - i,
    {
        let ghost before = sort_specs_view(out@);
        out.push(specs[i].duplicate());
        assert(sort_specs_view(out@) =~= before.push(sort_spec_view(specs@[i as int])));
        assert(sort_specs_view(specs@.take(i + 1)) =~= sort_specs_view(specs@.take(i as int)).push(
            sort_spec_view(specs@[i as int]),
        ));
        i += 1;
    }
    assert(specs@.take(specs.len() as int) =~= specs@);
    out
}

fn rewrite_spec(spec: &DataWindowSpec, row_index: Option<&str>, presort: bool) -> (r: DataWindowSpec)
    ensures
        window_spec_view(r) == rewritten_spec(
            window_spec_view(*spec),
            match row_index {
                Some(x) => Some(x@),
                None => None,
            },
            presort,
        ),
{
    let order_by = copy_sort_specs(&spec.order_by);
    let presorted = if presort && spec.order_by.len() > 1 {
        true
    } else {
        spec.presorted
    };
    let index = match row_index {
        Some(x) => Some(copy_str(x)),
        None => match &spec.row_index {
            Some(x) => Some(copy_string(x)),
            None => None,
        },
    };
    let partition_by = copy_strings(spec.partition_by.as_slice());
    proof {
        assert(sort_specs_view(order_by@).len() == order_by@.len());
        assert(sort_specs_view(spec.order_by@).len() == spec.order_by@.len());
    }
    DataWindowSpec { partition_by, order_by, frame: spec.frame, row_index: index, presorted }
}

fn copy_literal(literal: &DataLiteral) -> (r: DataLiteral)
    ensures
        same_literal(*literal, r),
{
    match literal {
        DataLiteral::String(x) => DataLiteral::String(copy_string(x)),
        DataLiteral::Number(x) => DataLiteral::Number(*x),
        DataLiteral::Bool(x) => DataLiteral::Bool(*x),
        DataLiteral::Null => DataLiteral::Null,
    }
}

fn rewrite_expr(expr: &DataExpr, row_index: Option<&str>, presort: bool) -> (r: DataExpr)
    ensures
        rewritten(
            *expr,
            r,
            match row_index {
                Some(x) => Some(x@),
                None => None,
            },
            presort,
        ),
    decreases expr,
{
    let ghost ri = match row_index {
        Some(x) => Some(x@),
        None => None,
    };
    match expr {
        DataExpr::Column(x) => DataExpr::Column(copy_string(x)),
        DataExpr::Literal(l) => DataExpr::Literal(copy_literal(l)),
        DataExpr::DynamicColumn(x) => DataExpr::DynamicColumn(Box::new(rewrite_expr(x, row_index, presort))),
        DataExpr::Unary { op, expr: inner } => DataExpr::Unary {
            op: *op,
            expr: Box::new(rewrite_expr(inner, row_index, presort)),
        },
        DataExpr::Binary { left, op, right } => DataExpr::Binary {
            left: Box::new(rewrite_expr(left, row_index, presort)),
            op: *op,
            right: Box::new(rewrite_expr(right, row_index, presort)),
        },
        DataExpr::Call { function, args } => {
            let mut out: Vec<DataExpr> = Vec::new();
            let mut i: usize = 0;
            while i < args.len()
                invariant
                    i <= args.len(),
                    *expr == (DataExpr::Call { function: *function, args: *args }),
                    ri == match row_index {
                        Some(x) => Some(x@),
                        None => None,
                    },
                    all_rewritten(args@.take(i as int), out@, ri, presort),
                decreases args.len() - i,
            {
                proof {
                    assert(decreases_to!(*expr => (*expr)->Call_args));
                    assert(decreases_to!(*args => args@));
                    assert(decreases_to!(args@ => args@[i as int]));
                }
                let next = rewrite_expr(&args[i], row_index, presort);
                let ghost before = out@;
                out.push(next);
                proof {
                    assert(args@.take(i + 1).drop_last() =~= args@.take(i as int));
                    assert(out@.drop_last() =~= before);
                }
                i += 1;
            }
            assert(args@.take(args.len() as int) =~= args@);
            DataExpr::Call { function: *function, args: out }
        },
        DataExpr::Window { function, args, spec } => {
            let mut out: Vec<DataExpr> = Vec::new();
            let mut i: usize = 0;
            while i < args.len()
                invariant
                    i <= args.len(),
                    *expr == (DataExpr::Window { function: *function, args: *args, spec: *spec }),
                    ri == match row_index {
                        Some(x) => Some(x@),
                        None => None,
                    },
                    all_rewritten(args@.take(i as int), out@, ri, presort),
                decreases args.len() - i,
            {
                proof {
                    assert(decreases_to!(*expr => (*expr)->Window_args));
                    assert(decreases_to!(*args => args@));
                    assert(decreases_to!(args@ => args@[i as int]));
                }
                let next = rewrite_expr(&args[i], row_index, presort);
                let ghost before = out@;
                out.push(next);
                proof {
                    assert(args@.take(i + 1).drop_last() =~= args@.take(i as int));
                    assert(out@.drop_last() =~= before);
                }
                i += 1;
            }
            assert(args@.take(args.len() as int) =~= args@);
            let new_spec = rewrite_spec(spec, row_index, presort);
            DataExpr::Window { function: *function, args: out, spec: new_spec }
        },
    }
}

/// A copy of an expression.
pub fn copy_expr(expr: &DataExpr) -> (r: DataExpr)
    ensures
        rewritten(*expr, r, None, false),
{
    rewrite_expr(expr, None, false)
}

/// The expression with every window numbering its rows by `row_index`.
pub fn data_expr_with_window_row_index(expr: &DataExpr, row_index: &str) -> (r: DataExpr)
    ensures
        rewritten(*expr, r, Some(row_index@), false),
{
    rewrite_expr(expr, Some(row_index), false)
}

/// The expression with every window ordered by more than one key marked as
/// reading presorted rows.
pub fn data_expr_with_presorted_multi_key_windows(expr: &DataExpr) -> (r: DataExpr)
    ensures
        rewritten(*expr, r, None, true),
{
    rewrite_expr(expr, None, true)
}

/// A window sort group as plain values: its partition columns and keys.
pub type GroupV = (Seq<Seq<char>>, Seq<SortV>);

pub open spec fn group_view(g: NativeWindowSortGroup) -> GroupV {
    (strings_view(g.partition_by@), sort_specs_view(g.order_by@))
}

pub open spec fn opt_group_view(g: Option<NativeWindowSortGroup>) -> Option<GroupV> {
    match g {
        Some(x) => Some(group_view(x)),
        None => None,
    }
}

/// The sort groups of the windows ordered by more than one key, in the
/// order they are met: a window before its arguments, operands left to
/// right.
pub open spec fn window_groups(e: DataExpr) -> Seq<GroupV>
    decreases e,
{
    match e {
        DataExpr::Unary { expr, .. } => window_groups(*expr),
        DataExpr::Binary { left, right, .. } => window_groups(*left) + window_groups(*right),
        DataExpr::Call { args, .. } => args_window_groups(args@),
        DataExpr::DynamicColumn(inner) => window_groups(*inner),
        DataExpr::Window { args, spec, .. } => (if spec.order_by@.len() > 1 {
            seq![(strings_view(spec.partition_by@), sort_specs_view(spec.order_by@))]
        } else {
            Seq::empty()
        }) + args_window_groups(args@),
        DataExpr::Column(_) | DataExpr::Literal(_) => Seq::empty(),
    }
}

pub open spec fn args_window_groups(args: Seq<DataExpr>) -> Seq<GroupV>
    decreases args,
{
    if args.len() == 0 {
        Seq::empty()
    } else {
        args_window_groups(args.drop_last()) + window_groups(args.last())
    }
}

/// The one sort group that `start` and `groups` agree on (`Some(None)` for
/// none at all), or `None` where two of them differ.
pub open spec fn settled_group(start: Option<GroupV>, groups: Seq<GroupV>) -> Option<Option<GroupV>>
    decreases groups.len(),
{
    if groups.len() == 0 {
        Some(start)
    } else {
        match settled_group(start, groups.drop_last()) {
            None => None,
            Some(None) => Some(Some(groups.last())),
            Some(Some(c)) => if c == groups.last() {
                Some(Some(c))
            } else {
                None
            },
        }
    }
}

proof fn lemma_settled_concat(start: Option<GroupV>, a: Seq<GroupV>, b: Seq<GroupV>)
    ensures
        settled_group(start, a + b) == match settled_group(start, a) {
            None => None,
            Some(mid) => settled_group(mid, b),
        },
    decreases b.len(),
{
    if b.len() == 0 {
        assert(a + b =~= a);
    } else {
        lemma_settled_concat(start, a, b.drop_last());
        assert((a + b).drop_last() =~= a + b.drop_last());
        assert((a + b).last() == b.last());
    }
}

proof fn lemma_settled_failure_persists(start: Option<GroupV>, a: Seq<GroupV>, b: Seq<GroupV>)
    requires
        settled_group(start, a) is None,
    ensures
        settled_group(start, a + b) is None,
{
    lemma_settled_concat(start, a, b);
}

fn same_strings(a: &Vec<String>, b: &Vec<String>) -> (r: bool)
    ensures
        r == (strings_view(a@) == strings_view(b@)),
{
    if a.len() != b.len() {
        proof {
            assert(strings_view(a@).len() != strings_view(b@).len());
        }
        return false;
    }
    let mut i: usize = 0;
    while i < a.len()
        invariant
            a.len() == b.len(),
            i <= a.len(),
            forall|k: int| 0 <= k < i ==> a@[k]@ == b@[k]@,
        decreases a.len() - i,
    {
        if !string_eq(&a[i], &b[i]) {
            proof {
                assert(strings_view(a@)[i as int] != strings_view(b@)[i as int]);
            }
            return false;
        }
        i += 1;
    }
    assert(strings_view(a@) =~= strings_view(b@));
    true
}

fn same_sort_specs(a: &Vec<SortSpec>, b: &Vec<SortSpec>) -> (r: bool)
    ensures
        r == (sort_specs_view(a@) == sort_specs_view(b@)),
{
    if a.len() != b.len() {
        proof {
            assert(sort_specs_view(a@).len() != sort_specs_view(b@).len());
        }
        return false;
    }
    let mut i: usize = 0;
    while i < a.len()
        invariant
            a.len() == b.len(),
            i <= a.len(),
            forall|k: int| 0 <= k < i ==> sort_spec_view(a@[k]) == sort_spec_view(b@[k]),
        decreases a.len() - i,
    {
        let same = string_eq(&a[i].column, &b[i].column) && a[i].direction == b[i].direction
            && a[i].nulls == b[i].nulls;
        if !same {
            proof {
                assert(sort_specs_view(a@)[i as int] != sort_specs_view(b@)[i as int]);
            }
            return false;
        }
        i += 1;
    }
    assert(sort_specs_view(a@) =~= sort_specs_view(b@));
    true
}

fn same_group(a: &NativeWindowSortGroup, b: &NativeWindowSortGroup) -> (r: bool)
    ensures
        r == (group_view(*a) == group_view(*b)),
{
    same_strings(&a.partition_by, &b.partition_by) && same_sort_specs(&a.order_by, &b.order_by)
}

/// Folds the sort groups of an expression's multi-key windows into
/// `group`, refusing a second, different group: the native engine sorts
/// the rows of one mutate for one such group only.
pub fn data_expr_collect_multi_key_window_sort(
    expr: &DataExpr,
    group: &mut Option<NativeWindowSortGroup>,
) -> (r: Result<(), Diagnostic>)
    ensures
        match settled_group(opt_group_view(*old(group)), window_groups(*expr)) {
            Some(g) => r is Ok && opt_group_view(*final(group)) == g,
            None => r matches Err(e) && e@ == unsupported_operation_view(
                "multiple multi-key window order groups"@,
            ),
        },
    decreases expr,
{
    let ghost start = opt_group_view(*group);
    match expr {
        DataExpr::Unary { expr: inner, .. } => data_expr_collect_multi_key_window_sort(inner, group),
        DataExpr::DynamicColumn(inner) => data_expr_collect_multi_key_window_sort(inner, group),
        DataExpr::Binary { left, right, .. } => {
            let first = data_expr_collect_multi_key_window_sort(left, group);
            proof {
                lemma_settled_concat(start, window_groups(**left), window_groups(**right));
            }
            match first {
                Err(e) => Err(e),
                Ok(()) => data_expr_collect_multi_key_window_sort(right, group),
            }
        },
        DataExpr::Call { function, args } => {
            let mut i: usize = 0;
            while i < args.len()
                invariant
                    i <= args.len(),
                    *expr == (DataExpr::Call { function: *function, args: *args }),
                    start == opt_group_view(*old(group)),
                    settled_group(start, args_window_groups(args@.take(i as int))) == Some(
                        opt_group_view(*group),
                    ),
                decreases args.len() - i,
            {
                proof {
                    assert(decreases_to!(*expr => (*expr)->Call_args));
                    assert(decreases_to!(*args => args@));
                    assert(decreases_to!(args@ => args@[i as int]));
                    assert(args@.take(i + 1).drop_last() =~= args@.take(i as int));
                    assert(args@.take(i + 1).last() == args@[i as int]);
                    lemma_settled_concat(
                        start,
                        args_window_groups(args@.take(i as int)),
                        window_groups(args@[i as int]),
                    );
                    assert(args_window_groups(args@.take(i + 1)) == args_window_groups(args@.take(i as int))
                        + window_groups(args@[i as int]));
                }
                let ghost before = opt_group_view(*group);
                let step = data_expr_collect_multi_key_window_sort(&args[i], group);
                if step.is_err() {
                    proof {
                        assert(settled_group(before, window_groups(args@[i as int])) is None);
                        assert(settled_group(start, args_window_groups(args@.take(i + 1))) is None);
                        lemma_args_groups_prefix(args@, i + 1);
                        lemma_settled_failure_persists(
                            start,
                            args_window_groups(args@.take(i + 1)),
                            args_window_groups(args@.skip(i + 1)),
                        );
                    }
                    return step;
                }
                i += 1;
            }
            assert(args@.take(args.len() as int) =~= args@);
            Ok(())
        },
        DataExpr::Window { function, args, spec } => {
            if spec.order_by.len() > 1 {
                let next = NativeWindowSortGroup {
                    partition_by: copy_strings(spec.partition_by.as_slice()),
                    order_by: copy_sort_specs(&spec.order_by),
                };
                let conflict = match group {
                    Some(current) => !same_group(current, &next),
                    None => false,
                };
                if conflict {
                    proof {
                        let own = seq![(strings_view(spec.partition_by@), sort_specs_view(spec.order_by@))];
                        assert(own.drop_last() =~= Seq::<GroupV>::empty());
                        assert(settled_group(start, own.drop_last()) == Some(start));
                        assert(group_view(next) == own.last());
                        assert(settled_group(start, own) is None);
                        lemma_settled_failure_persists(start, own, args_window_groups(args@));
                    }
                    return Err(unsupported_native_operation("multiple multi-key window order groups"));
                }
                if group.is_none() {
                    *group = Some(next);
                }
            }
            let ghost own: Seq<GroupV> = if spec.order_by@.len() > 1 {
                seq![(strings_view(spec.partition_by@), sort_specs_view(spec.order_by@))]
            } else {
                Seq::empty()
            };
            proof {
                assert(own.len() > 0 ==> own.drop_last() =~= Seq::<GroupV>::empty());
                assert(settled_group(start, Seq::<GroupV>::empty()) == Some(start));
                assert(settled_group(start, own) == Some(opt_group_view(*group)));
                assert(own + args_window_groups(args@.take(0)) =~= own);
            }
            let mut i: usize = 0;
            while i < args.len()
                invariant
                    i <= args.len(),
                    *expr == (DataExpr::Window { function: *function, args: *args, spec: *spec }),
                    start == opt_group_view(*old(group)),
                    settled_group(start, own + args_window_groups(args@.take(i as int))) == Some(
                        opt_group_view(*group),
                    ),
                    window_groups(*expr) == own + args_window_groups(args@),
                decreases args.len() - i,
            {
                proof {
                    assert(decreases_to!(*expr => (*expr)->Window_args));
                    assert(decreases_to!(*args => args@));
                    assert(decreases_to!(args@ => args@[i as int]));
                    assert(args@.take(i + 1).drop_last() =~= args@.take(i as int));
                    assert(args@.take(i + 1).last() == args@[i as int]);
                    assert(own + args_window_groups(args@.take(i + 1)) =~= (own + args_window_groups(
                        args@.take(i as int),
                    )) + window_groups(args@[i as int]));
                    lemma_settled_concat(
                        start,
                        own + args_window_groups(args@.take(i as int)),
                        window_groups(args@[i as int]),
                    );
                }
                let step = data_expr_collect_multi_key_window_sort(&args[i], group);
                if step.is_err() {
                    proof {
                        lemma_args_groups_prefix(args@, i + 1);
                        assert(own + args_window_groups(args@) =~= (own + args_window_groups(
                            args@.take(i + 1),
                        )) + args_window_groups(args@.skip(i + 1)));
                        lemma_settled_failure_persists(
                            start,
                            own + args_window_groups(args@.take(i + 1)),
                            args_window_groups(args@.skip(i + 1)),
                        );
                    }
                    return step;
                }
                i += 1;
            }
            assert(args@.take(args.len() as int) =~= args@);
            Ok(())
        },
        DataExpr::Column(_) | DataExpr::Literal(_) => Ok(()),
    }
}

proof fn lemma_args_groups_prefix(args: Seq<DataExpr>, i: int)
    requires
        0 <= i <= args.len(),
    ensures
        args_window_groups(args) == args_window_groups(args.take(i)) + args_window_groups(args.skip(i)),
    decreases args.len(),
{
    if args.len() == i {
        assert(args.take(i) =~= args);
        assert(args.skip(i) =~= Seq::<DataExpr>::empty());
        assert(args_window_groups(args) + Seq::<GroupV>::empty() =~= args_window_groups(args));
    } else {
        let shorter = args.drop_last();
        lemma_args_groups_prefix(shorter, i);
        assert(shorter.take(i) =~= args.take(i));
        assert(args.skip(i).drop_last() =~= shorter.skip(i));
        assert(args.skip(i).last() == args.last());
        assert(args_window_groups(args) =~= args_window_groups(args.take(i)) + args_window_groups(
            args.skip(i),
        ));
    }
}

/// Mutate items (output column and expression) by the positions of the
/// items they copy, in order: those evaluated directly, and for each sort
/// group, in order of first appearance, those evaluated over rows sorted
/// for it.
pub type PartitionPlan = (Seq<int>, Seq<(GroupV, Seq<int>)>);

/// Where the entry for `g` is among the grouped items.
pub open spec fn group_position(groups: Seq<(GroupV, Seq<int>)>, g: GroupV) -> Option<int>
    decreases groups.len(),
{
    if groups.len() == 0 {
        None
    } else if groups[0].0 == g {
        Some(0)
    } else {
        match group_position(groups.drop_first(), g) {
            Some(j) => Some(j + 1),
            None => None,
        }
    }
}

proof fn lemma_group_position(groups: Seq<(GroupV, Seq<int>)>, g: GroupV)
    ensures
        match group_position(groups, g) {
            Some(j) => 0 <= j < groups.len() && groups[j].0 == g,
            None => forall|j: int| 0 <= j < groups.len() ==> groups[j].0 != g,
        },
    decreases groups.len(),
{
    if groups.len() > 0 && groups[0].0 != g {
        lemma_group_position(groups.drop_first(), g);
        assert forall|j: int| 1 <= j < groups.len() implies groups[j] == groups.drop_first()[j - 1] by {}
    }
}

/// How the native engine splits the items of a mutate: each item goes
/// with the sort group of its multi-key windows, or is evaluated directly
/// when it has none; an item whose windows need two groups fails the
/// whole mutate.
pub open spec fn partition_plan(items: Seq<(String, DataExpr)>) -> Option<PartitionPlan>
    decreases items.len(),
{
    if items.len() == 0 {
        Some((Seq::empty(), Seq::empty()))
    } else {
        match partition_plan(items.drop_last()) {
            None => None,
            Some(plan) => {
                let k = items.len() - 1;
                match settled_group(None, window_groups(items.last().1)) {
                    None => None,
                    Some(None) => Some((plan.0.push(k), plan.1)),
                    Some(Some(g)) => match group_position(plan.1, g) {
                        Some(j) => Some((plan.0, plan.1.update(j, (g, plan.1[j].1.push(k))))),
                        None => Some((plan.0, plan.1.push((g, seq![k])))),
                    },
                }
            },
        }
    }
}

/// `b` is a copy of the item `a`.
pub open spec fn item_copied(a: (String, DataExpr), b: (String, DataExpr)) -> bool {
    a.0@ == b.0@ && rewritten(a.1, b.1, None, false)
}

/// The items of `bucket` are copies of the items at `positions`.
pub open spec fn bucket_matches(
    items: Seq<(String, DataExpr)>,
    bucket: Seq<(String, DataExpr)>,
    positions: Seq<int>,
) -> bool {
    &&& bucket.len() == positions.len()
    &&& forall|k: int| 0 <= k < positions.len() ==> 0 <= #[trigger] positions[k] < items.len()
    &&& forall|k: int| 0 <= k < positions.len() ==> item_copied(items[positions[k]], #[trigger] bucket[k])
}

pub open spec fn partition_matches(
    items: Seq<(String, DataExpr)>,
    direct: Seq<(String, DataExpr)>,
    grouped: Seq<(NativeWindowSortGroup, Vec<(String, DataExpr)>)>,
    plan: PartitionPlan,
) -> bool {
    &&& bucket_matches(items, direct, plan.0)
    &&& grouped.len() == plan.1.len()
    &&& forall|j: int|
        0 <= j < grouped.len() ==> group_view((#[trigger] grouped[j]).0) == plan.1[j].0
            && bucket_matches(items, grouped[j].1@, plan.1[j].1)
}

fn find_group(
    grouped: &Vec<(NativeWindowSortGroup, Vec<(String, DataExpr)>)>,
    group: &NativeWindowSortGroup,
    Ghost(plan): Ghost<Seq<(GroupV, Seq<int>)>>,
) -> (r: Option<usize>)
    requires
        grouped@.len() == plan.len(),
        forall|j: int| 0 <= j < grouped@.len() ==> group_view((#[trigger] grouped@[j]).0) == plan[j].0,
    ensures
        match r {
            Some(j) => group_position(plan, group_view(*group)) == Some(j as int) && j < plan.len(),
            None => group_position(plan, group_view(*group)) is None,
        },
{
    let ghost g = group_view(*group);
    let mut j: usize = 0;
    assert(plan.skip(0) =~= plan);
    while j < grouped.len()
        invariant
            j <= grouped.len(),
            grouped@.len() == plan.len(),
            g == group_view(*group),
            forall|l: int| 0 <= l < grouped@.len() ==> group_view((#[trigger] grouped@[l]).0) == plan[l].0,
            group_position(plan, g) == match group_position(plan.skip(j as int), g) {
                Some(x) => Some(x + j),
                None => None,
            },
        decreases grouped.len() - j,
    {
        assert(plan.skip(j as int)[0] == plan[j as int]);
        assert(group_view(grouped@[j as int].0) == plan[j as int].0);
        if same_group(&grouped[j].0, group) {
            return Some(j);
        }
        assert(plan.skip(j as int).drop_first() =~= plan.skip(j + 1));
        j += 1;
    }
    assert(plan.skip(j as int).len() == 0);
    None
}

/// Splits the items of a mutate into those the native engine evaluates
/// directly and, per sort group of multi-key windows, those it evaluates
/// over rows sorted for that group (see `partition_plan`); the items are
/// copied.
pub fn native_window_partition_mutate_items(items: &[(String, DataExpr)]) -> (r: Result<
    (Vec<(String, DataExpr)>, Vec<(NativeWindowSortGroup, Vec<(String, DataExpr)>)>),
    Diagnostic,
>)
    ensures
        match partition_plan(items@) {
            None => r matches Err(e) && e@ == unsupported_operation_view(
                "multiple multi-key window order groups"@,
            ),
            Some(plan) => r matches Ok(parts) && partition_matches(items@, parts.0@, parts.1@, plan),
        },
{
    let mut direct: Vec<(String, DataExpr)> = Vec::new();
    let mut grouped: Vec<(NativeWindowSortGroup, Vec<(String, DataExpr)>)> = Vec::new();
    let mut i: usize = 0;
    while i < items.len()
        invariant
            i <= items.len(),
            partition_plan(items@.take(i as int)) is Some,
            partition_matches(items@, direct@, grouped@, partition_plan(items@.take(i as int))->0),
        decreases items.len() - i,
    {
        let ghost t = items@.take(i + 1);
        let ghost plan = partition_plan(items@.take(i as int))->0;
        proof {
            assert(t.drop_last() =~= items@.take(i as int));
            assert(t.last() == items@[i as int]);
        }
        let mut group: Option<NativeWindowSortGroup> = None;
        let collected = data_expr_collect_multi_key_window_sort(&items[i].1, &mut group);
        match collected {
            Err(e) => {
                proof {
                    assert(partition_plan(t) is None);
                    lemma_partition_failure_persists(items@, i + 1);
                }
                return Err(e);
            },
            Ok(()) => {},
        }
        let item = (copy_string(&items[i].0), copy_expr(&items[i].1));
        proof {
            assert(item_copied(items@[i as int], item));
        }
        match group {
            None => {
                let ghost before = direct@;
                direct.push(item);
                proof {
                    let next = partition_plan(t)->0;
                    assert(next == (plan.0.push(i as int), plan.1));
                    lemma_bucket_push(items@, before, plan.0, item, i as int);
                }
            },
            Some(g) => {
                match find_group(&grouped, &g, Ghost(plan.1)) {
                    Some(j) => {
                        let ghost old_grouped = grouped@;
                        let (key, mut bucket) = grouped.remove(j);
                        let ghost old_bucket = bucket@;
                        bucket.push(item);
                        grouped.insert(j, (key, bucket));
                        proof {
                            let next = partition_plan(t)->0;
                            let gv = group_view(g);
                            lemma_group_position(plan.1, gv);
                            assert(plan.1[j as int].0 == gv);
                            assert(next == (plan.0, plan.1.update(j as int, (gv, plan.1[j as int].1.push(i as int)))));
                            assert(grouped@ =~= old_grouped.update(j as int, (key, bucket)));
                            assert(key == old_grouped[j as int].0);
                            assert(old_bucket == old_grouped[j as int].1@);
                            assert(group_view(old_grouped[j as int].0) == plan.1[j as int].0);
                            assert(bucket_matches(items@, old_grouped[j as int].1@, plan.1[j as int].1));
                            assert(bucket@ == old_bucket.push(item));
                            assert forall|l: int| 0 <= l < grouped@.len() implies group_view(
                                (#[trigger] grouped@[l]).0,
                            ) == next.1[l].0 && bucket_matches(items@, grouped@[l].1@, next.1[l].1) by {
                                if l != j {
                                    assert(grouped@[l] == old_grouped[l]);
                                    assert(group_view(old_grouped[l].0) == plan.1[l].0);
                                    assert(next.1[l] == plan.1[l]);
                                    assert(bucket_matches(items@, old_grouped[l].1@, plan.1[l].1));
                                    assert(bucket_matches(items@, grouped@[l].1@, next.1[l].1));
                                } else {
                                    assert(grouped@[l] == (key, bucket));
                                    assert(next.1[l] == (gv, plan.1[j as int].1.push(i as int)));
                                    assert(group_view(key) == plan.1[j as int].0);
                                    lemma_bucket_push(items@, old_bucket, plan.1[j as int].1, item, i as int);
                                    assert(grouped@[l].1@ == old_bucket.push(item));
                                    assert(bucket_matches(items@, grouped@[l].1@, next.1[l].1));
                                }
                            }
                        }
                    },
                    None => {
                        let ghost old_grouped = grouped@;
                        let mut bucket: Vec<(String, DataExpr)> = Vec::new();
                        bucket.push(item);
                        grouped.push((g, bucket));
                        proof {
                            let next = partition_plan(t)->0;
                            let gv = group_view(g);
                            assert(next == (plan.0, plan.1.push((gv, seq![i as int]))));
                            assert forall|l: int| 0 <= l < grouped@.len() implies group_view(
                                (#[trigger] grouped@[l]).0,
                            ) == next.1[l].0 && bucket_matches(items@, grouped@[l].1@, next.1[l].1) by {
                                if l < old_grouped.len() {
                                    assert(grouped@[l] == old_grouped[l]);
                                } else {
                                    assert(grouped@[l].1@ =~= seq![item]);
                                }
                            }
                        }
                    },
                }
            },
        }
        i += 1;
    }
    assert(items@.take(items.len() as int) =~= items@);
    Ok((direct, grouped))
}

proof fn lemma_bucket_push(
    items: Seq<(String, DataExpr)>,
    bucket: Seq<(String, DataExpr)>,
    positions: Seq<int>,
    item: (String, DataExpr),
    i: int,
)
    requires
        bucket_matches(items, bucket, positions),
        0 <= i < items.len(),
        item_copied(items[i], item),
    ensures
        bucket_matches(items, bucket.push(item), positions.push(i)),
{
    let b = bucket.push(item);
    let p = positions.push(i);
    assert forall|k: int| 0 <= k < p.len() implies 0 <= #[trigger] p[k] < items.len() by {
        if k < positions.len() {
            assert(p[k] == positions[k]);
        }
    }
    assert forall|k: int| 0 <= k < p.len() implies item_copied(items[p[k]], #[trigger] b[k]) by {
        if k < positions.len() {
            assert(b[k] == bucket[k]);
            assert(p[k] == positions[k]);
        }
    }
}

proof fn lemma_partition_failure_persists(items: Seq<(String, DataExpr)>, i: int)
    requires
        0 <= i <= items.len(),
        partition_plan(items.take(i)) is None,
    ensures
        partition_plan(items) is None,
    decreases items.len(),
{
    if i == items.len() {
        assert(items.take(i) =~= items);
    } else {
        let shorter = items.drop_last();
        assert(shorter.take(i) =~= items.take(i));
        lemma_partition_failure_persists(shorter, i);
    }
}

/// Whether a plan puts each item with its own sort group: directly
/// evaluated items have no multi-key window, each grouped item's windows
/// settle on its bucket's group, the buckets' groups differ, and every
/// item is placed somewhere.
pub open spec fn plan_sound(items: Seq<(String, DataExpr)>, plan: PartitionPlan) -> bool {
    &&& forall|k: int|
        0 <= k < plan.0.len() ==> 0 <= #[trigger] plan.0[k] < items.len() && settled_group(
            None,
            window_groups(items[plan.0[k]].1),
        ) == Some(None::<GroupV>)
    &&& forall|j: int, k: int|
        0 <= j < plan.1.len() && 0 <= k < plan.1[j].1.len() ==> 0 <= #[trigger] plan.1[j].1[k]
            < items.len() && settled_group(None, window_groups(items[plan.1[j].1[k]].1)) == Some(
            Some(plan.1[j].0),
        )
    &&& forall|j1: int, j2: int|
        0 <= j1 < j2 < plan.1.len() ==> (#[trigger] plan.1[j1]).0 != (#[trigger] plan.1[j2]).0
    &&& forall|i: int|
        0 <= i < items.len() ==> plan.0.contains(i) || exists|j: int|
            0 <= j < plan.1.len() && (#[trigger] plan.1[j]).1.contains(i)
}

/// Splitting the items of a mutate puts every item with its own sort
/// group: it is evaluated directly exactly when it has no multi-key
/// window, each group has one bucket, and no item is left out.
pub proof fn lemma_partition_plan_sound(items: Seq<(String, DataExpr)>)
    ensures
        partition_plan(items) matches Some(plan) ==> plan_sound(items, plan),
    decreases items.len(),
{
    if items.len() > 0 {
        let shorter = items.drop_last();
        lemma_partition_plan_sound(shorter);
        if let Some(prev) = partition_plan(shorter) {
            let n = items.len() - 1;
            assert forall|x: int| 0 <= x < n implies items[x] == shorter[x] by {}
            match settled_group(None, window_groups(items.last().1)) {
                None => {},
                Some(None) => {
                    let plan = (prev.0.push(n), prev.1);
                    assert(partition_plan(items) == Some(plan));
                    assert forall|i: int| 0 <= i < items.len() implies plan.0.contains(i) || exists|j: int|
                        0 <= j < plan.1.len() && (#[trigger] plan.1[j]).1.contains(i) by {
                        if i == n {
                            assert(plan.0[plan.0.len() - 1] == n);
                        } else {
                            if prev.0.contains(i) {
                                let w = choose|w: int| 0 <= w < prev.0.len() && prev.0[w] == i;
                                assert(plan.0[w] == i);
                            }
                        }
                    }
                    assert forall|k: int| 0 <= k < plan.0.len() implies 0 <= #[trigger] plan.0[k]
                        < items.len() && settled_group(None, window_groups(items[plan.0[k]].1))
                        == Some(None::<GroupV>) by {
                        if k < prev.0.len() {
                            assert(plan.0[k] == prev.0[k]);
                        }
                    }
                },
                Some(Some(g)) => {
                    lemma_group_position(prev.1, g);
                    match group_position(prev.1, g) {
                        Some(jj) => {
                            let plan = (prev.0, prev.1.update(jj, (g, prev.1[jj].1.push(n))));
                            assert(partition_plan(items) == Some(plan));
                            assert forall|j: int, k: int|
                                0 <= j < plan.1.len() && 0 <= k < plan.1[j].1.len() implies 0
                                <= #[trigger] plan.1[j].1[k] < items.len() && settled_group(
                                None,
                                window_groups(items[plan.1[j].1[k]].1),
                            ) == Some(Some(plan.1[j].0)) by {
                                if j == jj {
                                    if k < prev.1[jj].1.len() {
                                        assert(plan.1[j].1[k] == prev.1[jj].1[k]);
                                    }
                                } else {
                                    assert(plan.1[j] == prev.1[j]);
                                }
                            }
                            assert forall|j1: int, j2: int| 0 <= j1 < j2 < plan.1.len() implies (
                            #[trigger] plan.1[j1]).0 != (#[trigger] plan.1[j2]).0 by {
                                assert(prev.1[j1].0 != prev.1[j2].0);
                            }
                            assert forall|i: int| 0 <= i < items.len() implies plan.0.contains(i)
                                || exists|j: int| 0 <= j < plan.1.len() && (#[trigger] plan.1[j]).1.contains(i) by {
                                if i == n {
                                    assert(plan.1[jj].1[plan.1[jj].1.len() - 1] == n);
                                    assert(plan.1[jj].1.contains(i));
                                } else if !prev.0.contains(i) {
                                    let j = choose|j: int| 0 <= j < prev.1.len() && (#[trigger] prev.1[j]).1.contains(i);
                                    let w = choose|w: int| 0 <= w < prev.1[j].1.len() && prev.1[j].1[w] == i;
                                    if j == jj {
                                        assert(plan.1[j].1[w] == i);
                                    } else {
                                        assert(plan.1[j] == prev.1[j]);
                                    }
                                    assert(plan.1[j].1.contains(i));
                                }
                            }
                        },
                        None => {
                            let plan = (prev.0, prev.1.push((g, seq![n])));
                            assert(partition_plan(items) == Some(plan));
                            assert forall|j: int, k: int|
                                0 <= j < plan.1.len() && 0 <= k < plan.1[j].1.len() implies 0
                                <= #[trigger] plan.1[j].1[k] < items.len() && settled_group(
                                None,
                                window_groups(items[plan.1[j].1[k]].1),
                            ) == Some(Some(plan.1[j].0)) by {
                                if j < prev.1.len() {
                                    assert(plan.1[j] == prev.1[j]);
                                }
                            }
                            assert forall|j1: int, j2: int| 0 <= j1 < j2 < plan.1.len() implies (
                            #[trigger] plan.1[j1]).0 != (#[trigger] plan.1[j2]).0 by {
                                if j2 < prev.1.len() {
                                    assert(prev.1[j1].0 != prev.1[j2].0);
                                } else {
                                    assert(plan.1[j1] == prev.1[j1]);
                                }
                            }
                            assert forall|i: int| 0 <= i < items.len() implies plan.0.contains(i)
                                || exists|j: int| 0 <= j < plan.1.len() && (#[trigger] plan.1[j]).1.contains(i) by {
                                if i == n {
                                    let last = plan.1.len() - 1;
                                    assert(plan.1[last].1[0] == n);
                                    assert(plan.1[last].1.contains(i));
                                } else if !prev.0.contains(i) {
                                    let j = choose|j: int| 0 <= j < prev.1.len() && (#[trigger] prev.1[j]).1.contains(i);
                                    assert(plan.1[j] == prev.1[j]);
                                    assert(plan.1[j].1.contains(i));
                                }
                            }
                        },
                    }
                },
            }
        }
    }
}

/// A literal number.
pub open spec fn is_number_literal(e: DataExpr) -> bool {
    e matches DataExpr::Literal(DataLiteral::Number(_))
}

/// Rewriting window specifications (numbering rows by an index column,
/// marking multi-key windows presorted, or copying) keeps everything the
/// engine knows of an expression before evaluating it: its value class,
/// whether it holds a window, why it needs rows, and its window sort
/// groups.
pub proof fn lemma_rewrite_keeps_analysis(
    a: DataExpr,
    b: DataExpr,
    row_index: Option<Seq<char>>,
    presort: bool,
)
    requires
        rewritten(a, b, row_index, presort),
    ensures
        value_class(a) == value_class(b),
        contains_window(a) == contains_window(b),
        materialization_reason(a) == materialization_reason(b),
        window_groups(a) == window_groups(b),
        static_text(a) == static_text(b),
        is_number_literal(a) == is_number_literal(b),
    decreases a, 1nat,
{
    match a {
        DataExpr::DynamicColumn(x) => {
            let y = b->DynamicColumn_0;
            lemma_rewrite_keeps_analysis(*x, *y, row_index, presort);
        },
        DataExpr::Unary { op, expr } => {
            let e2 = b->Unary_expr;
            lemma_rewrite_keeps_analysis(*expr, *e2, row_index, presort);
        },
        DataExpr::Binary { left, op, right } => {
            lemma_rewrite_keeps_analysis(*left, *b->Binary_left, row_index, presort);
            lemma_rewrite_keeps_analysis(*right, *b->Binary_right, row_index, presort);
        },
        DataExpr::Call { function, args } => {
            assert(decreases_to!(a => a->Call_args));
            assert(decreases_to!(args => args@));
            let args2 = b->Call_args@;
            lemma_args_keep_analysis(args@, args2, row_index, presort);
            assert((exists|i: int| 1 <= i < args@.len() && !static_text(#[trigger] args@[i])) == (
            exists|i: int| 1 <= i < args2.len() && !static_text(#[trigger] args2[i]))) by {
                if exists|i: int| 1 <= i < args@.len() && !static_text(#[trigger] args@[i]) {
                    let i = choose|i: int| 1 <= i < args@.len() && !static_text(#[trigger] args@[i]);
                    assert(!static_text(args2[i]));
                }
                if exists|i: int| 1 <= i < args2.len() && !static_text(#[trigger] args2[i]) {
                    let i = choose|i: int| 1 <= i < args2.len() && !static_text(#[trigger] args2[i]);
                    assert(static_text(args@[i]) == static_text(args2[i]));
                }
            }
            assert(call_reason(function, args@) == call_reason(function, args2));
        },
        DataExpr::Window { function, args, spec } => {
            assert(decreases_to!(a => a->Window_args));
            assert(decreases_to!(args => args@));
            lemma_args_keep_analysis(args@, b->Window_args@, row_index, presort);
            let spec2 = b->Window_spec;
            assert(sort_specs_view(spec.order_by@).len() == spec.order_by@.len());
            assert(sort_specs_view(spec2.order_by@).len() == spec2.order_by@.len());
            assert(window_spec_view(spec2).1 == window_spec_view(spec).1);
            assert(window_spec_view(spec2).0 == window_spec_view(spec).0);
        },
        _ => {},
    }
}

proof fn lemma_args_keep_analysis(
    xs: Seq<DataExpr>,
    ys: Seq<DataExpr>,
    row_index: Option<Seq<char>>,
    presort: bool,
)
    requires
        all_rewritten(xs, ys, row_index, presort),
    ensures
        xs.len() == ys.len(),
        any_contains_window(xs) == any_contains_window(ys),
        coalesce_class(xs) == coalesce_class(ys),
        first_reason(xs) == first_reason(ys),
        args_window_groups(xs) == args_window_groups(ys),
        forall|i: int|
            0 <= i < xs.len() ==> value_class(#[trigger] xs[i]) == value_class(ys[i]) && static_text(
                xs[i],
            ) == static_text(ys[i]) && is_number_literal(xs[i]) == is_number_literal(ys[i]),
        if_else_homogeneous(xs) == if_else_homogeneous(ys),
    decreases xs, 0nat,
{
    if xs.len() > 0 {
        let n = xs.len() - 1;
        assert(decreases_to!(xs => xs[n]));
        lemma_args_keep_analysis(xs.drop_last(), ys.drop_last(), row_index, presort);
        lemma_rewrite_keeps_analysis(xs.last(), ys.last(), row_index, presort);
        assert forall|i: int| 0 <= i < xs.len() implies value_class(#[trigger] xs[i]) == value_class(ys[i])
            && static_text(xs[i]) == static_text(ys[i]) && is_number_literal(xs[i]) == is_number_literal(ys[i]) by {
            if i < n {
                assert(xs[i] == xs.drop_last()[i]);
                assert(ys[i] == ys.drop_last()[i]);
            }
        }
    }
}

} // verus!
