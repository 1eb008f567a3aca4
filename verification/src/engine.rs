//! The data-engine vocabulary (backends, sources, sinks, operators, window
//! specifications) and the pure decisions of the engine: window frame
//! bounds, union column alignment, join output naming and the diagnostics
//! the engine reports.
use vstd::prelude::*;

use crate::codes;
use crate::diagnostic::{Diagnostic, DiagnosticView};
use crate::format::{canonical_name_spec, DataFormat};
use crate::frame::{sort_spec_view, sort_specs_view, NullsOrder, SortDirection, SortSpec};
use crate::severity::Severity;
use crate::span::Span;
use crate::text::{copy_str, copy_string, copy_strings, strings_view, decimal, lemma_decimal_injective, push_str, string_eq};

verus! {

/// The name of the engine that runs native plans in this build.
pub fn native_engine_name() -> (r: &'static str)
    ensures
        r@ == "in-memory"@,
{
    "in-memory"
}

/// Which runtime executes a data plan.
#[derive(Clone, Copy, Debug, Eq, PartialEq, Structural)]
pub enum DataBackend {
    PortableRows,
    NativePolars,
}

impl Default for DataBackend {
    fn default() -> (r: Self)
        ensures
            r == DataBackend::PortableRows,
    {
        DataBackend::PortableRows
    }
}

/// Where a plan reads its table from.
#[derive(Clone, Copy, Debug, Eq, PartialEq)]
pub enum DataSource<'a> {
    Path { path: &'a str, format: DataFormat },
    Bytes { logical_path: &'a str, format: DataFormat, bytes: &'a [u8] },
}

/// Where a plan writes its table to.
#[derive(Clone, Copy, Debug, Eq, PartialEq)]
pub enum DataSink<'a> {
    Path { path: &'a str, format: DataFormat },
    Bytes { format: DataFormat },
}

/// Unary operators of data expressions.
#[derive(Clone, Copy, Debug, Eq, PartialEq, Structural)]
pub enum DataUnaryOp {
    Not,
    Neg,
}

/// Binary operators of data expressions.
#[derive(Clone, Copy, Debug, Eq, PartialEq, Structural)]
pub enum DataBinaryOp {
    Or,
    And,
    Eq,
    Ne,
    Lt,
    Lte,
    Gt,
    Gte,
    Add,
    Sub,
    Mul,
    Div,
    Rem,
}

/// Scalar functions of data expressions.
#[derive(Clone, Copy, Debug, Eq, PartialEq, Structural)]
pub enum DataScalarFunction {
    IsNull,
    NotNull,
    Coalesce,
    Concat,
    IfElse,
    Lower,
    Upper,
    Trim,
    Contains,
    StartsWith,
    Replace,
    ToString,
    ToNumber,
    ToBoolean,
    Abs,
    Round { digits: u32 },
    Date,
    Datetime,
    Year,
    Month,
    Day,
    DateFloor,
    DateFormat,
}

/// The rows of a partition that a window function sees from one row.
#[derive(Clone, Copy, Debug, Eq, PartialEq, Structural)]
pub enum DataWindowFrame {
    WholePartition,
    UnboundedPrecedingToCurrentRow,
    CurrentRowToUnboundedFollowing,
    PrecedingToCurrentRow { rows: usize },
    CurrentRowToFollowing { rows: usize },
    PrecedingToFollowing { preceding: usize, following: usize },
}

/// Window functions.
#[derive(Clone, Copy, Debug, Eq, PartialEq, Structural)]
pub enum DataWindowFunction {
    RowNumber,
    Rank,
    DenseRank,
    PercentRank,
    CumeDist,
    Lag,
    Lead,
    FirstValue,
    LastValue,
    Count,
    Sum,
    Mean,
    Min,
    Max,
}

/// Partitioning, ordering and frame of one window expression.
#[derive(Clone, Debug, PartialEq)]
pub struct DataWindowSpec {
    pub partition_by: Vec<String>,
    pub order_by: Vec<SortSpec>,
    pub frame: DataWindowFrame,
    pub row_index: Option<String>,
    pub presorted: bool,
}

/// Join kinds.
#[derive(Clone, Copy, Debug, Eq, PartialEq, Structural)]
pub enum DataJoinKind {
    Inner,
    Left,
    Right,
    Full,
    Semi,
    Anti,
}

/// Why a native plan had to be materialized into rows.
#[derive(Clone, Copy, Debug, Eq, PartialEq, Structural)]
pub enum NativeMaterializationReason {
    TerminalCollect,
    DynamicColumnLookup,
    DynamicReplaceText,
    MixedClassConditional,
    TemporalScalar,
    WindowDynamicOffset,
    WindowMultiOrder,
    UnionAlignment,
    PivotLongerOrderOrMixedValue,
    CompleteKeyExpansionOrFill,
    JsonLinesScan,
    NativeWriterTextBridge,
}

pub open spec fn reason_label(r: NativeMaterializationReason) -> Seq<char> {
    match r {
        NativeMaterializationReason::TerminalCollect => "terminal_collect"@,
        NativeMaterializationReason::DynamicColumnLookup => "dynamic_column_lookup"@,
        NativeMaterializationReason::DynamicReplaceText => "dynamic_replace_text"@,
        NativeMaterializationReason::MixedClassConditional => "mixed_class_conditional"@,
        NativeMaterializationReason::TemporalScalar => "temporal_scalar"@,
        NativeMaterializationReason::WindowDynamicOffset => "window_dynamic_offset"@,
        NativeMaterializationReason::WindowMultiOrder => "window_multi_order"@,
        NativeMaterializationReason::UnionAlignment => "union_alignment"@,
        NativeMaterializationReason::PivotLongerOrderOrMixedValue => "pivot_longer_order_or_mixed_value"@,
        NativeMaterializationReason::CompleteKeyExpansionOrFill => "complete_key_expansion_or_fill"@,
        NativeMaterializationReason::JsonLinesScan => "json_lines_scan"@,
        NativeMaterializationReason::NativeWriterTextBridge => "native_writer_text_bridge"@,
    }
}

impl NativeMaterializationReason {
    /// The stable label of the reason.
    pub fn as_str(self) -> (r: &'static str)
        ensures
            r@ == reason_label(self),
    {
        match self {
            NativeMaterializationReason::TerminalCollect => "terminal_collect",
            NativeMaterializationReason::DynamicColumnLookup => "dynamic_column_lookup",
            NativeMaterializationReason::DynamicReplaceText => "dynamic_replace_text",
            NativeMaterializationReason::MixedClassConditional => "mixed_class_conditional",
            NativeMaterializationReason::TemporalScalar => "temporal_scalar",
            NativeMaterializationReason::WindowDynamicOffset => "window_dynamic_offset",
            NativeMaterializationReason::WindowMultiOrder => "window_multi_order",
            NativeMaterializationReason::UnionAlignment => "union_alignment",
            NativeMaterializationReason::PivotLongerOrderOrMixedValue => "pivot_longer_order_or_mixed_value",
            NativeMaterializationReason::CompleteKeyExpansionOrFill => "complete_key_expansion_or_fill",
            NativeMaterializationReason::JsonLinesScan => "json_lines_scan",
            NativeMaterializationReason::NativeWriterTextBridge => "native_writer_text_bridge",
        }
    }
}

// ---------------------------------------------------------------------------
// Window frames
// ---------------------------------------------------------------------------

/// The unclamped first and last partition offsets a frame covers from
/// `position`; `last` is the partition's last offset.
pub open spec fn frame_bounds(frame: DataWindowFrame, last: int, position: int) -> (int, int) {
    match frame {
        DataWindowFrame::WholePartition => (0, last),
        DataWindowFrame::UnboundedPrecedingToCurrentRow => (0, position),
        DataWindowFrame::CurrentRowToUnboundedFollowing => (position, last),
        DataWindowFrame::PrecedingToCurrentRow { rows } => (position - rows, position),
        DataWindowFrame::CurrentRowToFollowing { rows } => (position, position + rows),
        DataWindowFrame::PrecedingToFollowing { preceding, following } => (
            position - preceding,
            position + following,
        ),
    }
}

pub open spec fn clamp_int(x: int, lo: int, hi: int) -> int {
    if x < lo {
        lo
    } else if x > hi {
        hi
    } else {
        x
    }
}

/// The members of `partition` that the frame covers from `position`: the
/// frame's bounds clamped to the partition, or nothing when the unclamped
/// frame is empty.
pub open spec fn frame_members(frame: DataWindowFrame, partition: Seq<usize>, position: int) -> Seq<usize> {
    if partition.len() == 0 {
        Seq::empty()
    } else {
        let last = partition.len() - 1;
        let (start, end) = frame_bounds(frame, last, position);
        if start > end {
            Seq::empty()
        } else {
            let s = clamp_int(start, 0, last);
            let e = clamp_int(end, 0, last);
            if s > e {
                Seq::empty()
            } else {
                partition.subrange(s, e + 1)
            }
        }
    }
}

fn clamp_i128(x: i128, lo: i128, hi: i128) -> (r: i128)
    requires
        lo <= hi,
    ensures
        r == clamp_int(x as int, lo as int, hi as int),
{
    if x < lo {
        lo
    } else if x > hi {
        hi
    } else {
        x
    }
}

/// The partition members a window frame covers from the row at `position`.
pub fn data_frame_indices(frame: DataWindowFrame, partition: &[usize], position: usize) -> (r: Vec<usize>)
    ensures
        r@ == frame_members(frame, partition@, position as int),
{
    if partition.len() == 0 {
        return Vec::new();
    }
    let last: i128 = (partition.len() - 1) as i128;
    let pos: i128 = position as i128;
    let (start, end): (i128, i128) = match frame {
        DataWindowFrame::WholePartition => (0, last),
        DataWindowFrame::UnboundedPrecedingToCurrentRow => (0, pos),
        DataWindowFrame::CurrentRowToUnboundedFollowing => (pos, last),
        DataWindowFrame::PrecedingToCurrentRow { rows } => (pos - rows as i128, pos),
        DataWindowFrame::CurrentRowToFollowing { rows } => (pos, pos + rows as i128),
        DataWindowFrame::PrecedingToFollowing { preceding, following } => (
            pos - preceding as i128,
            pos + following as i128,
        ),
    };
    assert((start as int, end as int) == frame_bounds(frame, last as int, position as int));
    if start > end {
        return Vec::new();
    }
    let s = clamp_i128(start, 0, last);
    let e = clamp_i128(end, 0, last);
    if s > e {
        return Vec::new();
    }
    let s = s as usize;
    let e = e as usize;
    let mut out: Vec<usize> = Vec::new();
    let mut i: usize = s;
    while i <= e
        invariant
            s <= i <= e + 1,
            e < partition.len(),
            out@ == partition@.subrange(s as int, i as int),
        decreases e + 1 - i,
    {
        out.push(partition[i]);
        i += 1;
        assert(out@ == partition@.subrange(s as int, i as int));
    }
    out
}

/// A window frame never reaches outside its partition: every member it
/// yields is a member of the partition.
pub proof fn lemma_frame_members_within_partition(
    frame: DataWindowFrame,
    partition: Seq<usize>,
    position: int,
)
    ensures
        frame_members(frame, partition, position).len() <= partition.len(),
        forall|k: int|
            0 <= k < frame_members(frame, partition, position).len() ==> partition.contains(
                #[trigger] frame_members(frame, partition, position)[k],
            ),
{
    let m = frame_members(frame, partition, position);
    if partition.len() > 0 {
        let last = partition.len() - 1;
        let (start, end) = frame_bounds(frame, last, position);
        if start <= end {
            let s = clamp_int(start, 0, last);
            let e = clamp_int(end, 0, last);
            if s <= e {
                assert forall|k: int| 0 <= k < m.len() implies partition.contains(#[trigger] m[k]) by {
                    assert(m[k] == partition[s + k]);
                }
            }
        }
    }
}

/// From a row of its partition, each frame covers exactly the rows it
/// names, cut at the partition's ends: `N preceding` to the current row is
/// the row `N` back (or the first row) through the current row, so at most
/// `N + 1` rows; the current row to `N following` runs through the row `N`
/// ahead (or the last row); `N preceding` to `M following` joins the two;
/// and the unbounded frames run to the partition's start or end.
pub proof fn lemma_window_frame_rows(partition: Seq<usize>, position: int, n: usize, m: usize)
    requires
        0 <= position < partition.len(),
    ensures
        frame_members(DataWindowFrame::PrecedingToCurrentRow { rows: n }, partition, position) == partition.subrange(
            if position >= n { position - n } else { 0 },
            position + 1,
        ),
        frame_members(DataWindowFrame::PrecedingToCurrentRow { rows: n }, partition, position).len() <= n + 1,
        position >= n ==> frame_members(DataWindowFrame::PrecedingToCurrentRow { rows: n }, partition, position)[0]
            == partition[position - n],
        frame_members(DataWindowFrame::CurrentRowToFollowing { rows: n }, partition, position) == partition.subrange(
            position,
            if position + n + 1 <= partition.len() { position + n + 1 } else { partition.len() as int },
        ),
        frame_members(DataWindowFrame::PrecedingToFollowing { preceding: n, following: m }, partition, position)
            == partition.subrange(
            if position >= n { position - n } else { 0 },
            if position + m + 1 <= partition.len() { position + m + 1 } else { partition.len() as int },
        ),
        frame_members(DataWindowFrame::UnboundedPrecedingToCurrentRow, partition, position) == partition.subrange(
            0,
            position + 1,
        ),
        frame_members(DataWindowFrame::CurrentRowToUnboundedFollowing, partition, position) == partition.subrange(
            position,
            partition.len() as int,
        ),
{
}

/// The whole-partition frame covers the whole partition from any row.
pub proof fn lemma_whole_partition_frame(partition: Seq<usize>, position: int)
    ensures
        frame_members(DataWindowFrame::WholePartition, partition, position) == partition,
{
    if partition.len() > 0 {
        assert(partition.subrange(0, partition.len() as int) =~= partition);
    }
}

// ---------------------------------------------------------------------------
// Column alignment and join output names
// ---------------------------------------------------------------------------

/// The first offset at which `names` holds `name`.
pub open spec fn first_position(names: Seq<Seq<char>>, name: Seq<char>) -> Option<int> {
    if exists|j: int| 0 <= j < names.len() && names[j] == name {
        Some(
            choose|j: int|
                0 <= j < names.len() && names[j] == name && forall|k: int|
                    0 <= k < j ==> names[k] != name,
        )
    } else {
        None
    }
}

proof fn lemma_first_position_is_least(names: Seq<Seq<char>>, name: Seq<char>, j: int)
    requires
        0 <= j < names.len(),
        names[j] == name,
        forall|k: int| 0 <= k < j ==> names[k] != name,
    ensures
        first_position(names, name) == Some(j),
{
    let c = choose|c: int|
        0 <= c < names.len() && names[c] == name && forall|k: int| 0 <= k < c ==> names[k] != name;
    assert(0 <= c < names.len() && names[c] == name && forall|k: int| 0 <= k < c ==> names[k] != name);
    if c < j {
        assert(names[c] != name);
    }
    if j < c {
        assert(names[j] != name);
    }
}

/// The offset of the first of `names` equal to `name`.
pub fn position_of(names: &[String], name: &String) -> (r: Option<usize>)
    ensures
        option_usize_view(r) == first_position(strings_view(names@), name@),
        r.is_some() ==> r.unwrap() < names.len(),
{
    let ghost nv = strings_view(names@);
    let mut i: usize = 0;
    while i < names.len()
        invariant
            i <= names.len(),
            nv == strings_view(names@),
            forall|k: int| 0 <= k < i ==> nv[k] != name@,
        decreases names.len() - i,
    {
        if string_eq(&names[i], name) {
            proof {
                lemma_first_position_is_least(nv, name@, i as int);
            }
            return Some(i);
        }
        i += 1;
    }
    proof {
        if exists|j: int| 0 <= j < nv.len() && nv[j] == name@ {
            let j = choose|j: int| 0 <= j < nv.len() && nv[j] == name@;
            assert(nv[j] != name@);
        }
    }
    None
}

/// For each output column, where it stands among the source columns.
pub open spec fn union_index_map_spec(source: Seq<Seq<char>>, output: Seq<Seq<char>>) -> Seq<Option<int>> {
    output.map_values(|c: Seq<char>| first_position(source, c))
}

pub open spec fn option_usize_view(o: Option<usize>) -> Option<int> {
    match o {
        Some(j) => Some(j as int),
        None => None,
    }
}

/// For each output column, the offset of the first source column of that
/// name, or `None` where the source lacks it.
pub fn union_output_index_map(source_columns: &[String], output_columns: &[String]) -> (r: Vec<Option<usize>>)
    ensures
        r@.map_values(|o: Option<usize>| option_usize_view(o)) == union_index_map_spec(
            strings_view(source_columns@),
            strings_view(output_columns@),
        ),
        forall|i: int| 0 <= i < r.len() ==> (#[trigger] r@[i]).is_some() ==> r@[i].unwrap() < source_columns.len(),
{
    let ghost want = union_index_map_spec(strings_view(source_columns@), strings_view(output_columns@));
    let mut out: Vec<Option<usize>> = Vec::new();
    let mut i: usize = 0;
    while i < output_columns.len()
        invariant
            i <= output_columns.len(),
            want == union_index_map_spec(strings_view(source_columns@), strings_view(output_columns@)),
            out.len() == i,
            forall|k: int| 0 <= k < i ==> option_usize_view(#[trigger] out@[k]) == want[k],
            forall|k: int| 0 <= k < i ==> (#[trigger] out@[k]).is_some() ==> out@[k].unwrap() < source_columns.len(),
        decreases output_columns.len() - i,
    {
        let p = position_of(source_columns, &output_columns[i]);
        assert(want[i as int] == first_position(strings_view(source_columns@), output_columns@[i as int]@));
        out.push(p);
        i += 1;
    }
    assert(out@.map_values(|o: Option<usize>| option_usize_view(o)) =~= want);
    out
}

/// Output names of the right side of a join, walked in order: key columns
/// are skipped, a name already taken gets `_right` appended, and a second
/// collision fails. The state is the names taken so far and the
/// (right column, output name) pairs chosen so far.
pub open spec fn join_outputs(
    left: Seq<Seq<char>>,
    right: Seq<Seq<char>>,
    keys: Seq<Seq<char>>,
    n: nat,
) -> Option<(Seq<Seq<char>>, Seq<(Seq<char>, Seq<char>)>)>
    decreases n,
{
    if n == 0 {
        Some((left, Seq::empty()))
    } else {
        match join_outputs(left, right, keys, (n - 1) as nat) {
            None => None,
            Some((taken, outs)) => {
                let column = right[n - 1];
                if keys.contains(column) {
                    Some((taken, outs))
                } else if !taken.contains(column) {
                    Some((taken.push(column), outs.push((column, column))))
                } else {
                    let renamed = column + "_right"@;
                    if taken.contains(renamed) {
                        None
                    } else {
                        Some((taken.push(renamed), outs.push((column, renamed))))
                    }
                }
            }
        }
    }
}

proof fn lemma_join_failure_persists(
    left: Seq<Seq<char>>,
    right: Seq<Seq<char>>,
    keys: Seq<Seq<char>>,
    n: nat,
    m: nat,
)
    requires
        n <= m,
        join_outputs(left, right, keys, n) is None,
    ensures
        join_outputs(left, right, keys, m) is None,
    decreases m,
{
    if n < m {
        lemma_join_failure_persists(left, right, keys, n, (m - 1) as nat);
    }
}

pub open spec fn pairs_view(v: Seq<(String, String)>) -> Seq<(Seq<char>, Seq<char>)> {
    v.map_values(|p: (String, String)| (p.0@, p.1@))
}

fn contains_string(names: &Vec<String>, name: &String) -> (r: bool)
    ensures
        r == strings_view(names@).contains(name@),
{
    let p = position_of(names.as_slice(), name);
    p.is_some()
}

/// The diagnostic of an operation the native backend does not run.
pub open spec fn unsupported_operation_view(operation: Seq<char>) -> DiagnosticView {
    DiagnosticView {
        severity: Severity::Error,
        code: crate::diagnostic::code_text(0, 1211),
        message: "operation `"@ + operation + "` is not supported by the native data backend"@,
        span: Span { start: 0, end: 0 },
        related: Seq::empty(),
        help: None,
    }
}

/// The diagnostic of an operation the native backend does not run.
pub fn unsupported_native_operation(operation: &str) -> (r: Diagnostic)
    ensures
        r@ == unsupported_operation_view(operation@),
{
    let mut message = String::new();
    push_str(&mut message, "operation `");
    push_str(&mut message, operation);
    push_str(&mut message, "` is not supported by the native data backend");
    let code = codes::E1211();
    proof {
        assert(message@ == "operation `"@ + operation@ + "` is not supported by the native data backend"@);
    }
    Diagnostic::error(code, message.as_str(), Span::zero())
}

/// The (right column, output name) pairs of a join's right side; an
/// `Err` when a renamed column collides again.
pub fn native_join_right_outputs(
    left_names: &[String],
    right_names: &[String],
    right_keys: &[String],
) -> (r: Result<Vec<(String, String)>, Diagnostic>)
    ensures
        match r {
            Ok(v) => join_outputs(
                strings_view(left_names@),
                strings_view(right_names@),
                strings_view(right_keys@),
                right_names.len() as nat,
            ) matches Some(state) && state.1 == pairs_view(v@),
            Err(d) => join_outputs(
                strings_view(left_names@),
                strings_view(right_names@),
                strings_view(right_keys@),
                right_names.len() as nat,
            ) is None && d@ == unsupported_operation_view("join output column collision"@),
        },
{
    let ghost l = strings_view(left_names@);
    let ghost rn = strings_view(right_names@);
    let ghost ks = strings_view(right_keys@);
    let keys = copy_strings(right_keys);
    let mut taken = copy_strings(left_names);
    let mut outputs: Vec<(String, String)> = Vec::new();
    let mut i: usize = 0;
    while i < right_names.len()
        invariant
            i <= right_names.len(),
            l == strings_view(left_names@),
            rn == strings_view(right_names@),
            ks == strings_view(right_keys@),
            strings_view(keys@) == ks,
            join_outputs(l, rn, ks, i as nat) == Some((strings_view(taken@), pairs_view(outputs@))),
        decreases right_names.len() - i,
    {
        let column = &right_names[i];
        let ghost prev_taken = strings_view(taken@);
        let ghost prev_outs = pairs_view(outputs@);
        assert(rn[i as int] == column@);
        if contains_string(&keys, column) {
            i += 1;
            continue;
        }
        let mut output = copy_string(column);
        if contains_string(&taken, &output) {
            push_str(&mut output, "_right");
            if contains_string(&taken, &output) {
                proof {
                    assert(output@ == column@ + "_right"@);
                    assert(join_outputs(l, rn, ks, (i + 1) as nat) is None);
                    lemma_join_failure_persists(l, rn, ks, (i + 1) as nat, rn.len());
                }
                return Err(unsupported_native_operation("join output column collision"));
            }
        }
        let pushed = copy_string(&output);
        taken.push(pushed);
        outputs.push((copy_string(column), output));
        proof {
            assert(strings_view(taken@) =~= prev_taken.push(output@));
            assert(pairs_view(outputs@) =~= prev_outs.push((column@, output@)));
        }
        i += 1;
    }
    Ok(outputs)
}


/// Whether a column is not one of the join keys.
pub open spec fn non_key(keys: Seq<Seq<char>>) -> spec_fn(Seq<char>) -> bool {
    |c: Seq<char>| !keys.contains(c)
}

/// A join's right side contributes exactly its columns that are not join
/// keys, each once and in the right side's order, and never a key column;
/// each goes under its own name, unless a left column or an earlier output
/// already has it, and then under its name with `_right`.
pub proof fn lemma_join_outputs_skip_keys(
    left: Seq<Seq<char>>,
    right: Seq<Seq<char>>,
    keys: Seq<Seq<char>>,
    n: nat,
)
    requires
        n <= right.len(),
        join_outputs(left, right, keys, n) is Some,
    ensures
        join_outputs(left, right, keys, n).unwrap().1.map_values(|p: (Seq<char>, Seq<char>)| p.0) == right.take(
            n as int,
        ).filter(non_key(keys)),
        forall|a: int|
            0 <= a < join_outputs(left, right, keys, n).unwrap().1.len() ==> !keys.contains(
                (#[trigger] join_outputs(left, right, keys, n).unwrap().1[a]).0,
            ) && (join_outputs(left, right, keys, n).unwrap().1[a].1 == join_outputs(left, right, keys, n).unwrap().1[a].0
                || join_outputs(left, right, keys, n).unwrap().1[a].1 == join_outputs(left, right, keys, n).unwrap().1[a].0
                + "_right"@),
        forall|a: int|
            0 <= a < join_outputs(left, right, keys, n).unwrap().1.len() ==> ((#[trigger] join_outputs(left, right, keys, n).unwrap().1[a]).1
                == join_outputs(left, right, keys, n).unwrap().1[a].0 <==> !(left.contains(
                join_outputs(left, right, keys, n).unwrap().1[a].0,
            ) || exists|b: int|
                0 <= b < a && join_outputs(left, right, keys, n).unwrap().1[b].1 == join_outputs(
                    left,
                    right,
                    keys,
                    n,
                ).unwrap().1[a].0)),
    decreases n,
{
    reveal(Seq::filter);
    let outs = join_outputs(left, right, keys, n).unwrap().1;
    let f = |p: (Seq<char>, Seq<char>)| p.0;
    if n == 0 {
        assert(right.take(0) =~= Seq::<Seq<char>>::empty());
        assert(outs.map_values(f) =~= Seq::<Seq<char>>::empty());
    } else {
        let m = (n - 1) as nat;
        lemma_join_outputs_skip_keys(left, right, keys, m);
        let prev = join_outputs(left, right, keys, m).unwrap().1;
        let column = right[n - 1];
        assert(right.take(n as int).drop_last() =~= right.take(m as int));
        assert(right.take(n as int).last() == column);
        if keys.contains(column) {
            assert(outs == prev);
        } else {
            lemma_join_outputs_distinct(left, right, keys, m);
            let taken = join_outputs(left, right, keys, m).unwrap().0;
            let g = |p: (Seq<char>, Seq<char>)| p.1;
            assert(taken == left + prev.map_values(g));
            assert(outs.drop_last() == prev);
            assert(outs.last().0 == column);
            assert(column + "_right"@ != column) by {
                assert((column + "_right"@).len() != column.len()) by {
                    reveal_strlit("_right");
                }
            }
            let a = prev.len() as int;
            if taken.contains(column) {
                let k = choose|k: int| 0 <= k < taken.len() && taken[k] == column;
                if k >= left.len() {
                    assert(prev[k - left.len()].1 == column);
                    assert(outs[k - left.len()].1 == column);
                }
            } else {
                assert(!left.contains(column)) by {
                    if left.contains(column) {
                        let k = choose|k: int| 0 <= k < left.len() && left[k] == column;
                        assert(taken[k] == column);
                    }
                }
                assert forall|b: int| 0 <= b < a implies outs[b].1 != column by {
                    assert(outs[b] == prev[b]);
                    assert(taken[left.len() + b] == prev[b].1);
                }
            }
            assert forall|x: int| 0 <= x < outs.len() implies ((#[trigger] outs[x]).1 == outs[x].0 <==> !(left.contains(
                outs[x].0,
            ) || exists|b: int| 0 <= b < x && outs[b].1 == outs[x].0)) by {
                if x < a {
                    assert(outs[x] == prev[x]);
                    assert forall|b: int| 0 <= b < x implies outs[b] == prev[b] by {}
                }
            }
            assert(outs.map_values(f) =~= prev.map_values(f).push(column));
            assert forall|a: int| 0 <= a < outs.len() implies !keys.contains((#[trigger] outs[a]).0) && (outs[a].1
                == outs[a].0 || outs[a].1 == outs[a].0 + "_right"@) by {
                if a < prev.len() {
                    assert(outs[a] == prev[a]);
                }
            }
        }
    }
}

/// The output names chosen for a join's right side never collide: they
/// are distinct from each other and from every left column, and the names
/// taken are the left columns followed by the chosen names.
pub proof fn lemma_join_outputs_distinct(
    left: Seq<Seq<char>>,
    right: Seq<Seq<char>>,
    keys: Seq<Seq<char>>,
    n: nat,
)
    requires
        join_outputs(left, right, keys, n) is Some,
    ensures
        ({
            let (taken, outs) = join_outputs(left, right, keys, n).unwrap();
            &&& taken == left + outs.map_values(|p: (Seq<char>, Seq<char>)| p.1)
            &&& forall|a: int, b: int| 0 <= a < b < outs.len() ==> outs[a].1 != outs[b].1
            &&& forall|a: int| 0 <= a < outs.len() ==> !left.contains(#[trigger] outs[a].1)
        }),
    decreases n,
{
    if n > 0 {
        let m = (n - 1) as nat;
        lemma_join_outputs_distinct(left, right, keys, m);
        let (taken, outs) = join_outputs(left, right, keys, m).unwrap();
        let column = right[n - 1];
        let f = |p: (Seq<char>, Seq<char>)| p.1;
        if keys.contains(column) {
        } else {
            let name = if !taken.contains(column) { column } else { column + "_right"@ };
            if !taken.contains(name) {
                let outs2 = outs.push((column, name));
                assert(outs2.map_values(f) =~= outs.map_values(f).push(name));
                assert(taken.push(name) =~= left + outs2.map_values(f));
                assert forall|a: int| 0 <= a < outs.len() implies outs[a].1 != name by {
                    assert(taken[left.len() + a] == outs.map_values(f)[a]);
                }
                assert forall|a: int| 0 <= a < outs2.len() implies !left.contains(#[trigger] outs2[a].1) by {
                    if a == outs.len() {
                        if left.contains(name) {
                            let k = choose|k: int| 0 <= k < left.len() && left[k] == name;
                            assert(taken[k] == name);
                        }
                    } else {
                        assert(outs2[a] == outs[a]);
                    }
                }
            }
        }
    }
}

/// Every output column that the union alignment maps to a source position
/// finds its own name there, and the ones it leaves unmapped are absent
/// from the source.
pub proof fn lemma_union_map_finds_names(source: Seq<Seq<char>>, output: Seq<Seq<char>>, i: int)
    requires
        0 <= i < output.len(),
    ensures
        match union_index_map_spec(source, output)[i] {
            Some(j) => 0 <= j < source.len() && source[j] == output[i],
            None => !source.contains(output[i]),
        },
{
    let name = output[i];
    if exists|j: int| 0 <= j < source.len() && source[j] == name {
        let j = choose|j: int|
            0 <= j < source.len() && source[j] == name && forall|k: int| 0 <= k < j ==> source[k] != name;
        let w = choose|w: int| 0 <= w < source.len() && source[w] == name;
        lemma_least_exists(source, name, w);
    }
}

proof fn lemma_least_exists(s: Seq<Seq<char>>, name: Seq<char>, w: int)
    requires
        0 <= w < s.len(),
        s[w] == name,
    ensures
        exists|j: int| 0 <= j < s.len() && s[j] == name && forall|k: int| 0 <= k < j ==> s[k] != name,
    decreases w,
{
    if exists|k: int| 0 <= k < w && s[k] == name {
        let k = choose|k: int| 0 <= k < w && s[k] == name;
        lemma_least_exists(s, name, k);
    } else {
        assert(forall|k: int| 0 <= k < w ==> s[k] != name);
    }
}

// ---------------------------------------------------------------------------
// Hidden helper columns
// ---------------------------------------------------------------------------

/// The `k`-th candidate name for a hidden column: `base` itself, then
/// `base_1`, `base_2`, and so on.
pub open spec fn hidden_candidate(base: Seq<char>, k: nat) -> Seq<char> {
    if k == 0 {
        base
    } else {
        base + "_"@ + decimal(k)
    }
}

/// The first `n` candidates, as a set.
pub open spec fn candidate_set(base: Seq<char>, n: nat) -> Set<Seq<char>>
    decreases n,
{
    if n == 0 {
        Set::empty()
    } else {
        candidate_set(base, (n - 1) as nat).insert(hidden_candidate(base, (n - 1) as nat))
    }
}

proof fn lemma_candidates_distinct(base: Seq<char>, j: nat, k: nat)
    requires
        j != k,
    ensures
        hidden_candidate(base, j) != hidden_candidate(base, k),
{
    reveal_strlit("_");
    if j == 0 || k == 0 {
        let nz = if j == 0 { k } else { j };
        assert(hidden_candidate(base, nz).len() > base.len());
    } else {
        let cj = hidden_candidate(base, j);
        let ck = hidden_candidate(base, k);
        if cj == ck {
            let off = base.len() + 1;
            assert(cj.subrange(off as int, cj.len() as int) =~= decimal(j));
            assert(ck.subrange(off as int, ck.len() as int) =~= decimal(k));
            lemma_decimal_injective(j, k);
        }
    }
}

proof fn lemma_candidate_set(base: Seq<char>, n: nat)
    ensures
        candidate_set(base, n).finite(),
        candidate_set(base, n).len() == n,
        forall|k: nat| k < n ==> candidate_set(base, n).contains(#[trigger] hidden_candidate(base, k)),
        forall|x: Seq<char>|
            #[trigger] candidate_set(base, n).contains(x) ==> exists|k: nat|
                k < n && x == hidden_candidate(base, k),
    decreases n,
{
    if n > 0 {
        let m = (n - 1) as nat;
        lemma_candidate_set(base, m);
        if candidate_set(base, m).contains(hidden_candidate(base, m)) {
            let k = choose|k: nat| k < m && hidden_candidate(base, m) == hidden_candidate(base, k);
            lemma_candidates_distinct(base, k, m);
        }
    }
}

/// When the first `n` candidates are all taken, there are at least `n`
/// names.
proof fn lemma_taken_candidates_bound(names: Seq<Seq<char>>, base: Seq<char>, n: nat)
    requires
        forall|k: nat| k < n ==> names.contains(#[trigger] hidden_candidate(base, k)),
    ensures
        n <= names.len(),
{
    lemma_candidate_set(base, n);
    let cs = candidate_set(base, n);
    let ns = names.to_set();
    assert(cs.subset_of(ns)) by {
        assert forall|x: Seq<char>| cs.contains(x) implies ns.contains(x) by {
            let k = choose|k: nat| k < n && x == hidden_candidate(base, k);
            assert(names.contains(hidden_candidate(base, k)));
        }
    }
    names.lemma_cardinality_of_set();
    vstd::set_lib::lemma_len_subset(cs, ns);
}

/// A column name not among `names`: the first free candidate of `base`,
/// `base_1`, `base_2`, and so on.
pub fn native_hidden_column_name_from_names(names: &[String], base: &str) -> (r: String)
    requires
        names.len() < usize::MAX,
    ensures
        exists|k: nat|
            #![trigger hidden_candidate(base@, k)]
            r@ == hidden_candidate(base@, k) && !strings_view(names@).contains(r@) && forall|j: nat|
                j < k ==> strings_view(names@).contains(#[trigger] hidden_candidate(base@, j)),
{
    let ghost nv = strings_view(names@);
    let mut candidate = copy_str(base);
    let mut suffix: usize = 1;
    let v: Vec<String> = copy_strings(names);
    while contains_string(&v, &candidate)
        invariant
            strings_view(v@) == nv,
            nv == strings_view(names@),
            names.len() < usize::MAX,
            1 <= suffix,
            candidate@ == hidden_candidate(base@, (suffix - 1) as nat),
            forall|j: nat| j < suffix - 1 ==> nv.contains(#[trigger] hidden_candidate(base@, j)),
        decreases nv.len() + 1 - suffix,
    {
        proof {
            assert forall|j: nat| j < suffix implies nv.contains(#[trigger] hidden_candidate(base@, j)) by {
                if j == suffix - 1 {
                    assert(candidate@ == hidden_candidate(base@, j));
                }
            }
            lemma_taken_candidates_bound(nv, base@, suffix as nat);
            assert(nv.len() == names.len());
        }
        let mut next = copy_str(base);
        push_str(&mut next, "_");
        crate::text::push_decimal(&mut next, suffix);
        candidate = next;
        suffix += 1;
        proof {
            assert(candidate@ == hidden_candidate(base@, (suffix - 1) as nat));
            assert forall|j: nat| j < suffix - 1 implies nv.contains(#[trigger] hidden_candidate(base@, j)) by {
                if j == suffix - 2 {
                    assert(nv.contains(hidden_candidate(base@, j)));
                }
            }
        }
    }
    proof {
        let k = (suffix - 1) as nat;
        assert(candidate@ == hidden_candidate(base@, k));
    }
    candidate
}

// ---------------------------------------------------------------------------
// Window sort groups
// ---------------------------------------------------------------------------

/// Window expressions that share a partitioning and an ordering.
#[derive(Clone, Debug, PartialEq)]
pub struct NativeWindowSortGroup {
    pub partition_by: Vec<String>,
    pub order_by: Vec<SortSpec>,
}

impl NativeWindowSortGroup {
    /// The sort that lays the group's rows out: each partition column
    /// ascending with nulls last, then the group's own ordering.
    pub fn sort_specs(&self) -> (r: Vec<SortSpec>)
        ensures
            sort_specs_view(r@) == self.partition_by@.map_values(
                |c: String| (c@, SortDirection::Asc, NullsOrder::Last),
            ) + sort_specs_view(self.order_by@),
    {
        let mut out: Vec<SortSpec> = Vec::new();
        let mut i: usize = 0;
        while i < self.partition_by.len()
            invariant
                i <= self.partition_by.len(),
                out.len() == i,
                forall|k: int|
                    0 <= k < i ==> sort_spec_view(#[trigger] out@[k]) == (
                        self.partition_by@[k]@,
                        SortDirection::Asc,
                        NullsOrder::Last,
                    ),
            decreases self.partition_by.len() - i,
        {
            out.push(
                SortSpec {
                    column: copy_string(&self.partition_by[i]),
                    direction: SortDirection::Asc,
                    nulls: NullsOrder::Last,
                },
            );
            i += 1;
        }
        let n = out.len();
        let mut j: usize = 0;
        while j < self.order_by.len()
            invariant
                j <= self.order_by.len(),
                n == self.partition_by.len(),
                out.len() == n + j,
                forall|k: int|
                    0 <= k < n ==> sort_spec_view(#[trigger] out@[k]) == (
                        self.partition_by@[k]@,
                        SortDirection::Asc,
                        NullsOrder::Last,
                    ),
                forall|k: int|
                    0 <= k < j ==> sort_spec_view(#[trigger] out@[n + k]) == sort_spec_view(
                        self.order_by@[k],
                    ),
            decreases self.order_by.len() - j,
        {
            out.push(self.order_by[j].duplicate());
            j += 1;
        }
        assert(sort_specs_view(out@) =~= self.partition_by@.map_values(
            |c: String| (c@, SortDirection::Asc, NullsOrder::Last),
        ) + sort_specs_view(self.order_by@)) by {
            assert forall|k: int| n <= k < out.len() implies sort_spec_view(#[trigger] out@[k])
                == sort_spec_view(self.order_by@[k - n]) by {
                assert(out@[n + (k - n)] == out@[k]);
            }
        }
        out
    }
}

/// Whether the native sort puts nulls last for a key: ascending keys with
/// nulls last, descending keys with nulls first.
pub fn native_sort_nulls_last(direction: SortDirection, nulls: NullsOrder) -> (r: bool)
    ensures
        r == (match direction {
            SortDirection::Asc => nulls == NullsOrder::Last,
            SortDirection::Desc => nulls == NullsOrder::First,
        }),
{
    match direction {
        SortDirection::Asc => nulls == NullsOrder::Last,
        SortDirection::Desc => nulls == NullsOrder::First,
    }
}

// ---------------------------------------------------------------------------
// Engine diagnostics
// ---------------------------------------------------------------------------

/// A type error raised while evaluating a row expression.
pub fn type_error(message: &str) -> (r: Diagnostic)
    ensures
        r@ == (DiagnosticView {
            severity: Severity::Error,
            code: crate::diagnostic::code_text(0, 1302),
            message: message@,
            span: Span { start: 0, end: 0 },
            related: Seq::empty(),
            help: None,
        }),
{
    Diagnostic::error(codes::E1302(), message, Span::zero())
}

/// The diagnostic for a geospatial format reaching native execution.
pub fn geo_native_unsupported() -> (r: Diagnostic)
    ensures
        r@ == (DiagnosticView {
            severity: Severity::Error,
            code: crate::diagnostic::code_text(0, 1211),
            message: "geospatial formats are not supported by native execution; geometry pipelines run on the row runtime"@,
            span: Span { start: 0, end: 0 },
            related: Seq::empty(),
            help: None,
        }),
{
    Diagnostic::error(
        codes::E1211(),
        "geospatial formats are not supported by native execution; geometry pipelines run on the row runtime",
        Span::zero(),
    )
}

/// The diagnostic for a format the native backend does not read or write.
pub fn unsupported_native_format(format: DataFormat) -> (r: Diagnostic)
    ensures
        r@ == (DiagnosticView {
            severity: Severity::Error,
            code: crate::diagnostic::code_text(0, 1215),
            message: "format `"@ + canonical_name_spec(format)
                + "` is not supported by the native data backend"@,
            span: Span { start: 0, end: 0 },
            related: Seq::empty(),
            help: None,
        }),
{
    let mut message = String::new();
    push_str(&mut message, "format `");
    push_str(&mut message, format.canonical_name());
    push_str(&mut message, "` is not supported by the native data backend");
    Diagnostic::error(codes::E1215(), message.as_str(), Span::zero())
}

/// The diagnostic for a failed write of output bytes; `reason` is the
/// writer's error text.
pub fn output_write_error(reason: &str) -> (r: Diagnostic)
    ensures
        r@ == (DiagnosticView {
            severity: Severity::Error,
            code: crate::diagnostic::code_text(0, 1704),
            message: "output write failed: "@ + reason@,
            span: Span { start: 0, end: 0 },
            related: Seq::empty(),
            help: None,
        }),
{
    let mut message = String::new();
    push_str(&mut message, "output write failed: ");
    push_str(&mut message, reason);
    Diagnostic::error(codes::E1704(), message.as_str(), Span::zero())
}

} // verus!
