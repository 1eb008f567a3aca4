//! `union` of two tables in the row runtime: the compatibility check on the
//! value classes the columns hold, the output columns, and the rows moved
//! into them.
use vstd::prelude::*;

use crate::diagnostic::{Diagnostic, DiagnosticView};
use crate::engine::{first_position, position_of, union_index_map_spec, union_output_index_map};
use crate::frame::{cell_at, distinct_rows, found_indices, row_view, rows_view, Row, Table};
use crate::scalar::error_view;
use crate::span::Span;
use crate::text::{copy_str, copy_string, push_str, strings_view};
use crate::value::{Value, ValueView};

verus! {

// ---------------------------------------------------------------------------
// Value classes
// ---------------------------------------------------------------------------

/// The classes of non-null scalar cells.
#[derive(Clone, Copy, Debug, Eq, PartialEq, Structural)]
pub enum RowValueClass {
    Bool,
    Number,
    String,
}

pub open spec fn class_of(v: ValueView) -> Option<RowValueClass> {
    match v {
        ValueView::Bool(_) => Some(RowValueClass::Bool),
        ValueView::Number(..) => Some(RowValueClass::Number),
        ValueView::String(_) => Some(RowValueClass::String),
        _ => None,
    }
}

/// The classes that the cells of the first column with this name hold;
/// none where the table has no such column.
#[verifier::opaque]
pub open spec fn column_classes(columns: Seq<Seq<char>>, rows: Seq<Seq<ValueView>>, column: Seq<char>) -> Set<RowValueClass> {
    match first_position(columns, column) {
        None => Set::empty(),
        Some(i) => Set::new(
            |c: RowValueClass| exists|k: int| 0 <= k < rows.len() && i < rows[k].len() && #[trigger] class_of(rows[k][i]) == Some(c),
        ),
    }
}

/// Two columns can be stacked when either holds no classes or both hold
/// the same ones.
pub open spec fn classes_compatible(a: Set<RowValueClass>, b: Set<RowValueClass>) -> bool {
    a == Set::<RowValueClass>::empty() || b == Set::<RowValueClass>::empty() || a == b
}

struct ClassSet {
    bool_seen: bool,
    number_seen: bool,
    string_seen: bool,
}

spec fn class_set_view(c: ClassSet) -> Set<RowValueClass> {
    Set::new(
        |x: RowValueClass| match x {
            RowValueClass::Bool => c.bool_seen,
            RowValueClass::Number => c.number_seen,
            RowValueClass::String => c.string_seen,
        },
    )
}

/// Whether a cell of one of the first `k` rows at offset `i` has class `c`.
spec fn seen_class(rows: Seq<Seq<ValueView>>, i: int, k: int, c: RowValueClass) -> bool {
    exists|j: int| 0 <= j < k && i < rows[j].len() && #[trigger] class_of(rows[j][i]) == Some(c)
}

proof fn lemma_seen_class_step(rows: Seq<Seq<ValueView>>, i: int, k: int, c: RowValueClass)
    requires
        0 <= k,
    ensures
        seen_class(rows, i, k + 1, c) == (seen_class(rows, i, k, c) || (i < rows[k].len() && class_of(rows[k][i]) == Some(c))),
{
    if seen_class(rows, i, k + 1, c) && !(i < rows[k].len() && class_of(rows[k][i]) == Some(c)) {
        let j = choose|j: int| 0 <= j < k + 1 && i < rows[j].len() && #[trigger] class_of(rows[j][i]) == Some(c);
        assert(j < k);
    }
}

fn row_value_classes(table: &Table, column: &str) -> (r: ClassSet)
    ensures
        class_set_view(r) == column_classes(strings_view(table.columns@), rows_view(table.rows@), column@),
{
    let ghost rv = rows_view(table.rows@);
    let ghost cols = strings_view(table.columns@);
    reveal(column_classes);
    let index = match table.column_index(column) {
        None => {
            let r = ClassSet { bool_seen: false, number_seen: false, string_seen: false };
            assert(class_set_view(r) =~= Set::<RowValueClass>::empty());
            return r;
        },
        Some(i) => i,
    };
    let mut r = ClassSet { bool_seen: false, number_seen: false, string_seen: false };
    let mut k: usize = 0;
    while k < table.rows.len()
        invariant
            k <= table.rows.len(),
            rv == rows_view(table.rows@),
            r.bool_seen == seen_class(rv, index as int, k as int, RowValueClass::Bool),
            r.number_seen == seen_class(rv, index as int, k as int, RowValueClass::Number),
            r.string_seen == seen_class(rv, index as int, k as int, RowValueClass::String),
        decreases table.rows.len() - k,
    {
        let row = &table.rows[k];
        assert(rv[k as int] == row_view(*row));
        proof {
            lemma_seen_class_step(rv, index as int, k as int, RowValueClass::Bool);
            lemma_seen_class_step(rv, index as int, k as int, RowValueClass::Number);
            lemma_seen_class_step(rv, index as int, k as int, RowValueClass::String);
        }
        if index < row.values.len() {
            match &row.values[index] {
                Value::Bool(_) => {
                    r.bool_seen = true;
                },
                Value::Number { .. } => {
                    r.number_seen = true;
                },
                Value::String(_) => {
                    r.string_seen = true;
                },
                _ => {},
            }
        }
        k += 1;
    }
    proof {
        let want = column_classes(cols, rv, column@);
        assert forall|c: RowValueClass| class_set_view(r).contains(c) == want.contains(c) by {
            assert(want.contains(c) == seen_class(rv, index as int, rv.len() as int, c));
        }
        assert(class_set_view(r) =~= want);
    }
    r
}

fn same_classes(a: &ClassSet, b: &ClassSet) -> (r: bool)
    ensures
        r == (class_set_view(*a) == class_set_view(*b)),
{
    let r = a.bool_seen == b.bool_seen && a.number_seen == b.number_seen && a.string_seen == b.string_seen;
    if r {
        assert(class_set_view(*a) =~= class_set_view(*b));
    } else if a.bool_seen != b.bool_seen {
        assert(class_set_view(*a).contains(RowValueClass::Bool) != class_set_view(*b).contains(RowValueClass::Bool));
    } else if a.number_seen != b.number_seen {
        assert(class_set_view(*a).contains(RowValueClass::Number) != class_set_view(*b).contains(RowValueClass::Number));
    } else {
        assert(class_set_view(*a).contains(RowValueClass::String) != class_set_view(*b).contains(RowValueClass::String));
    }
    r
}

fn no_classes(a: &ClassSet) -> (r: bool)
    ensures
        r == (class_set_view(*a) == Set::<RowValueClass>::empty()),
{
    let r = !a.bool_seen && !a.number_seen && !a.string_seen;
    if r {
        assert(class_set_view(*a) =~= Set::<RowValueClass>::empty());
    } else if a.bool_seen {
        assert(class_set_view(*a).contains(RowValueClass::Bool));
    } else if a.number_seen {
        assert(class_set_view(*a).contains(RowValueClass::Number));
    } else {
        assert(class_set_view(*a).contains(RowValueClass::String));
    }
    r
}

/// The table's columns and rows as plain values.
pub open spec fn table_parts(t: Table) -> (Seq<Seq<char>>, Seq<Seq<ValueView>>) {
    (strings_view(t.columns@), rows_view(t.rows@))
}

pub open spec fn pair_compatible(
    left: (Seq<Seq<char>>, Seq<Seq<ValueView>>),
    left_column: Seq<char>,
    right: (Seq<Seq<char>>, Seq<Seq<ValueView>>),
    right_column: Seq<char>,
) -> bool {
    classes_compatible(column_classes(left.0, left.1, left_column), column_classes(right.0, right.1, right_column))
}

fn columns_compatible(left: &Table, left_column: &str, right: &Table, right_column: &str) -> (r: bool)
    ensures
        r == pair_compatible(table_parts(*left), left_column@, table_parts(*right), right_column@),
{
    let a = row_value_classes(left, left_column);
    let b = row_value_classes(right, right_column);
    no_classes(&a) || no_classes(&b) || same_classes(&a, &b)
}

// ---------------------------------------------------------------------------
// Which column is reported
// ---------------------------------------------------------------------------

/// Lexicographic order of texts by code point, which is the byte order of
/// their UTF-8 encodings that `String`'s `Ord` uses.
pub open spec fn text_lt(a: Seq<char>, b: Seq<char>) -> bool
    decreases a.len(),
{
    if a.len() == 0 {
        b.len() > 0
    } else if b.len() == 0 {
        false
    } else if a[0] != b[0] {
        (a[0] as u32) < (b[0] as u32)
    } else {
        text_lt(a.drop_first(), b.drop_first())
    }
}

proof fn lemma_text_lt_transitive(a: Seq<char>, b: Seq<char>, c: Seq<char>)
    requires
        text_lt(a, b),
        text_lt(b, c),
    ensures
        text_lt(a, c),
    decreases a.len(),
{
    if a.len() > 0 && b.len() > 0 && c.len() > 0 && a[0] == b[0] && b[0] == c[0] {
        lemma_text_lt_transitive(a.drop_first(), b.drop_first(), c.drop_first());
    }
}

fn text_less(a: &str, b: &str) -> (r: bool)
    ensures
        r == text_lt(a@, b@),
{
    let x = crate::text::chars_of(a);
    let y = crate::text::chars_of(b);
    let mut i: usize = 0;
    assert(x@.skip(0) =~= x@);
    assert(y@.skip(0) =~= y@);
    while i < x.len() && i < y.len()
        invariant
            i <= x.len(),
            i <= y.len(),
            x@ == a@,
            y@ == b@,
            text_lt(x@, y@) == text_lt(x@.skip(i as int), y@.skip(i as int)),
        decreases x.len() - i,
    {
        assert(x@.skip(i as int)[0] == x@[i as int]);
        assert(y@.skip(i as int)[0] == y@[i as int]);
        assert(x@.skip(i as int).len() > 0 && y@.skip(i as int).len() > 0);
        if x[i] != y[i] {
            return (x[i] as u32) < (y[i] as u32);
        }
        assert(x@.skip(i as int).drop_first() =~= x@.skip(i + 1));
        assert(y@.skip(i as int).drop_first() =~= y@.skip(i + 1));
        i += 1;
    }
    i < y.len()
}

/// A column name that the union by name reports: shared by both tables,
/// with incompatible classes.
pub open spec fn name_conflict(
    left: (Seq<Seq<char>>, Seq<Seq<ValueView>>),
    right: (Seq<Seq<char>>, Seq<Seq<ValueView>>),
    c: Seq<char>,
) -> bool {
    left.0.contains(c) && right.0.contains(c) && !pair_compatible(left, c, right, c)
}

/// The message for two columns that cannot be stacked.
pub open spec fn incompatible_message(l: Seq<char>, r: Seq<char>) -> Seq<char> {
    "union columns `"@ + l + "` and `"@ + r + "` have incompatible observed types"@
}

/// The first offset, below `n`, at which the columns stacked by position
/// cannot be stacked.
pub open spec fn first_position_conflict(
    left: (Seq<Seq<char>>, Seq<Seq<ValueView>>),
    right: (Seq<Seq<char>>, Seq<Seq<ValueView>>),
    n: int,
) -> Option<int>
    decreases n,
{
    if n <= 0 {
        None
    } else {
        match first_position_conflict(left, right, n - 1) {
            Some(i) => Some(i),
            None => if !pair_compatible(left, left.0[n - 1], right, right.0[n - 1]) {
                Some(n - 1)
            } else {
                None
            },
        }
    }
}

fn incompatible_error(l: &str, r: &str) -> (d: Diagnostic)
    ensures
        d@ == error_view(1209, incompatible_message(l@, r@)),
{
    let mut m = copy_str("union columns `");
    push_str(&mut m, l);
    push_str(&mut m, "` and `");
    push_str(&mut m, r);
    push_str(&mut m, "` have incompatible observed types");
    Diagnostic::error(crate::codes::E1209(), m.as_str(), Span::zero())
}

/// What the compatibility check of a union decides: by name, the
/// alphabetically first shared name whose columns cannot be stacked; by
/// position, the first pair of columns that cannot.
pub open spec fn union_check_spec(
    left: (Seq<Seq<char>>, Seq<Seq<ValueView>>),
    right: (Seq<Seq<char>>, Seq<Seq<ValueView>>),
    by_name: bool,
    r: Result<(), DiagnosticView>,
) -> bool {
    if by_name {
        if exists|c: Seq<char>| name_conflict(left, right, c) {
            r matches Err(e) && exists|c: Seq<char>|
                name_conflict(left, right, c) && (forall|d: Seq<char>| name_conflict(left, right, d) ==> !text_lt(d, c))
                    && e == error_view(1209, incompatible_message(c, c))
        } else {
            r is Ok
        }
    } else {
        let n = if left.0.len() < right.0.len() { left.0.len() as int } else { right.0.len() as int };
        match first_position_conflict(left, right, n) {
            Some(i) => r == Err::<(), DiagnosticView>(error_view(1209, incompatible_message(left.0[i], right.0[i]))),
            None => r is Ok,
        }
    }
}

pub open spec fn unit_result_view(r: Result<(), Diagnostic>) -> Result<(), DiagnosticView> {
    match r {
        Ok(()) => Ok(()),
        Err(e) => Err(e@),
    }
}

/// Checks that the columns a union stacks hold compatible value classes.
pub fn ensure_union_rows_compatible(left: &Table, right: &Table, by_name: bool) -> (r: Result<(), Diagnostic>)
    ensures
        union_check_spec(table_parts(*left), table_parts(*right), by_name, unit_result_view(r)),
{
    let ghost lp = table_parts(*left);
    let ghost rp = table_parts(*right);
    if by_name {
        let mut best: Option<usize> = None;
        let mut k: usize = 0;
        while k < left.columns.len()
            invariant
                k <= left.columns.len(),
                lp == table_parts(*left),
                rp == table_parts(*right),
                match best {
                    None => forall|j: int| 0 <= j < k ==> !name_conflict(lp, rp, #[trigger] lp.0[j]),
                    Some(b) => b < k && name_conflict(lp, rp, lp.0[b as int]) && forall|j: int|
                        0 <= j < k && name_conflict(lp, rp, #[trigger] lp.0[j]) ==> !text_lt(lp.0[j], lp.0[b as int]),
                },
            decreases left.columns.len() - k,
        {
            let name = &left.columns[k];
            assert(lp.0[k as int] == name@);
            assert(lp.0.contains(name@));
            let in_right = contains_name(&right.columns, name);
            let conflict = in_right && !columns_compatible(left, name.as_str(), right, name.as_str());
            assert(conflict == name_conflict(lp, rp, lp.0[k as int]));
            proof {
                lemma_text_lt_irreflexive(lp.0[k as int]);
            }
            if conflict {
                match best {
                    None => {
                        best = Some(k);
                    },
                    Some(b) => {
                        if text_less(name.as_str(), left.columns[b].as_str()) {
                            proof {
                                assert forall|j: int| 0 <= j < k + 1 && name_conflict(lp, rp, #[trigger] lp.0[j]) implies !text_lt(lp.0[j], lp.0[k as int]) by {
                                    if j < k && text_lt(lp.0[j], lp.0[k as int]) {
                                        lemma_text_lt_transitive(lp.0[j], lp.0[k as int], lp.0[b as int]);
                                    }
                                    if j == k {
                                        lemma_text_lt_irreflexive(lp.0[j]);
                                    }
                                }
                            }
                            best = Some(k);
                        }
                    },
                }
            }
            k += 1;
        }
        match best {
            None => {
                proof {
                    assert forall|c: Seq<char>| !name_conflict(lp, rp, c) by {
                        if name_conflict(lp, rp, c) {
                            let j = choose|j: int| 0 <= j < lp.0.len() && lp.0[j] == c;
                            assert(!name_conflict(lp, rp, lp.0[j]));
                        }
                    }
                }
                Ok(())
            },
            Some(b) => {
                let name = &left.columns[b];
                let e = incompatible_error(name.as_str(), name.as_str());
                proof {
                    let c = lp.0[b as int];
                    assert forall|d: Seq<char>| name_conflict(lp, rp, d) implies !text_lt(d, c) by {
                        let j = choose|j: int| 0 <= j < lp.0.len() && lp.0[j] == d;
                        assert(name_conflict(lp, rp, lp.0[j]));
                    }
                }
                Err(e)
            },
        }
    } else {
        let n = if left.columns.len() < right.columns.len() { left.columns.len() } else { right.columns.len() };
        let mut k: usize = 0;
        while k < n
            invariant
                k <= n,
                n as int == (if lp.0.len() < rp.0.len() { lp.0.len() as int } else { rp.0.len() as int }),
                !by_name,
                lp == table_parts(*left),
                rp == table_parts(*right),
                first_position_conflict(lp, rp, k as int) is None,
            decreases n - k,
        {
            let lc = &left.columns[k];
            let rc = &right.columns[k];
            assert(lp.0[k as int] == lc@ && rp.0[k as int] == rc@);
            if !columns_compatible(left, lc.as_str(), right, rc.as_str()) {
                let e = incompatible_error(lc.as_str(), rc.as_str());
                proof {
                    assert(first_position_conflict(lp, rp, k + 1) == Some(k as int));
                    lemma_first_conflict_stays(lp, rp, k + 1, n as int);
                }
                return Err(e);
            }
            k += 1;
        }
        Ok(())
    }
}

proof fn lemma_text_lt_irreflexive(a: Seq<char>)
    ensures
        !text_lt(a, a),
    decreases a.len(),
{
    if a.len() > 0 {
        lemma_text_lt_irreflexive(a.drop_first());
    }
}

proof fn lemma_first_conflict_stays(
    left: (Seq<Seq<char>>, Seq<Seq<ValueView>>),
    right: (Seq<Seq<char>>, Seq<Seq<ValueView>>),
    m: int,
    n: int,
)
    requires
        0 < m <= n,
        first_position_conflict(left, right, m) is Some,
    ensures
        first_position_conflict(left, right, n) == first_position_conflict(left, right, m),
    decreases n - m,
{
    if m < n {
        lemma_first_conflict_stays(left, right, m, n - 1);
    }
}

// ---------------------------------------------------------------------------
// Columns and rows
// ---------------------------------------------------------------------------

/// The columns of a union by name: the left ones, then each right one that
/// is not there yet.
pub open spec fn union_names(left: Seq<Seq<char>>, right: Seq<Seq<char>>) -> Seq<Seq<char>>
    decreases right.len(),
{
    if right.len() == 0 {
        left
    } else {
        let p = union_names(left, right.drop_last());
        if p.contains(right.last()) {
            p
        } else {
            p.push(right.last())
        }
    }
}

/// The columns of a union by position: the left ones, then the right ones
/// past the left's width.
pub open spec fn position_names(left: Seq<Seq<char>>, right: Seq<Seq<char>>) -> Seq<Seq<char>> {
    if left.len() < right.len() {
        left + right.subrange(left.len() as int, right.len() as int)
    } else {
        left
    }
}

/// A row cut to `source_width` cells and padded with nulls to
/// `output_width`.
pub open spec fn resized(row: Seq<ValueView>, source_width: int, output_width: int) -> Seq<ValueView> {
    Seq::new(output_width as nat, |i: int| if i < source_width { cell_at(row, i) } else { ValueView::Null })
}

/// A row moved to the output columns through a map of source offsets.
pub open spec fn mapped(row: Seq<ValueView>, map: Seq<Option<int>>) -> Seq<ValueView> {
    map.map_values(|o: Option<int>| match o {
        Some(i) => cell_at(row, i),
        None => ValueView::Null,
    })
}

/// The left rows in the output columns: unchanged where the widths agree,
/// else cut or padded.
pub open spec fn top_rows_spec(rows: Seq<Seq<ValueView>>, left_width: int, width: int) -> Seq<Seq<ValueView>> {
    if left_width == width {
        rows
    } else {
        rows.map_values(|row: Seq<ValueView>| resized(row, left_width, width))
    }
}

/// The right rows moved to the output columns by name.
pub open spec fn bottom_by_name_spec(right: (Seq<Seq<char>>, Seq<Seq<ValueView>>), columns: Seq<Seq<char>>) -> Seq<Seq<ValueView>> {
    right.1.map_values(|row: Seq<ValueView>| mapped(row, union_index_map_spec(right.0, columns)))
}

/// The right rows cut or padded to the output width.
pub open spec fn bottom_by_position_spec(rows: Seq<Seq<ValueView>>, right_width: int, width: int) -> Seq<Seq<ValueView>> {
    rows.map_values(|row: Seq<ValueView>| resized(row, right_width, width))
}

/// The stacked rows of a union, before any `distinct`.
pub open spec fn union_rows_spec(
    left: (Seq<Seq<char>>, Seq<Seq<ValueView>>),
    right: (Seq<Seq<char>>, Seq<Seq<ValueView>>),
    by_name: bool,
) -> Seq<Seq<ValueView>> {
    let columns = if by_name { union_names(left.0, right.0) } else { position_names(left.0, right.0) };
    let width = columns.len() as int;
    top_rows_spec(left.1, left.0.len() as int, width) + if by_name {
        bottom_by_name_spec(right, columns)
    } else {
        bottom_by_position_spec(right.1, right.0.len() as int, width)
    }
}

fn resize_row(row: &Row, source_width: usize, output_width: usize) -> (r: Row)
    ensures
        row_view(r) == resized(row_view(*row), source_width as int, output_width as int),
{
    let mut values: Vec<Value> = Vec::new();
    let mut k: usize = 0;
    while k < output_width
        invariant
            k <= output_width,
            values.len() == k,
            forall|j: int| 0 <= j < k ==> (#[trigger] values@[j])@ == (if j < source_width {
                cell_at(row_view(*row), j)
            } else {
                ValueView::Null
            }),
        decreases output_width - k,
    {
        if k < source_width && k < row.values.len() {
            values.push(row.values[k].duplicate());
        } else {
            values.push(Value::Null);
        }
        k += 1;
    }
    let r = Row { values };
    assert(row_view(r) =~= resized(row_view(*row), source_width as int, output_width as int));
    r
}

fn copy_row(row: &Row) -> (r: Row)
    ensures
        row_view(r) == row_view(*row),
{
    let mut values: Vec<Value> = Vec::new();
    let mut k: usize = 0;
    while k < row.values.len()
        invariant
            k <= row.values.len(),
            values.len() == k,
            forall|j: int| 0 <= j < k ==> (#[trigger] values@[j])@ == row.values@[j]@,
        decreases row.values.len() - k,
    {
        values.push(row.values[k].duplicate());
        k += 1;
    }
    let r = Row { values };
    assert(row_view(r) =~= row_view(*row));
    r
}

fn map_row(row: &Row, map: &Vec<Option<usize>>) -> (r: Row)
    ensures
        row_view(r) == mapped(row_view(*row), map@.map_values(|o: Option<usize>| crate::engine::option_usize_view(o))),
{
    let mut values: Vec<Value> = Vec::new();
    let mut k: usize = 0;
    while k < map.len()
        invariant
            k <= map.len(),
            values.len() == k,
            forall|j: int| 0 <= j < k ==> (#[trigger] values@[j])@ == match map@[j] {
                Some(i) => cell_at(row_view(*row), i as int),
                None => ValueView::Null,
            },
        decreases map.len() - k,
    {
        match map[k] {
            Some(i) => {
                if i < row.values.len() {
                    values.push(row.values[i].duplicate());
                } else {
                    values.push(Value::Null);
                }
            },
            None => values.push(Value::Null),
        }
        k += 1;
    }
    let r = Row { values };
    assert(row_view(r) =~= mapped(row_view(*row), map@.map_values(|o: Option<usize>| crate::engine::option_usize_view(o))));
    r
}

fn contains_name(names: &Vec<String>, name: &String) -> (r: bool)
    ensures
        r == strings_view(names@).contains(name@),
{
    position_of(names.as_slice(), name).is_some()
}

fn union_columns(left: &Vec<String>, right: &Vec<String>, by_name: bool) -> (r: Vec<String>)
    ensures
        strings_view(r@) == if by_name {
            union_names(strings_view(left@), strings_view(right@))
        } else {
            position_names(strings_view(left@), strings_view(right@))
        },
{
    let ghost lv = strings_view(left@);
    let ghost rv = strings_view(right@);
    let mut columns = crate::text::copy_strings(left.as_slice());
    if by_name {
        let mut k: usize = 0;
        assert(rv.take(0) =~= Seq::<Seq<char>>::empty());
        while k < right.len()
            invariant
                k <= right.len(),
                lv == strings_view(left@),
                rv == strings_view(right@),
                strings_view(columns@) == union_names(lv, rv.take(k as int)),
            decreases right.len() - k,
        {
            assert(rv.take(k + 1).drop_last() =~= rv.take(k as int));
            assert(rv.take(k + 1).last() == right@[k as int]@);
            if !contains_name(&columns, &right[k]) {
                columns.push(copy_string(&right[k]));
                assert(strings_view(columns@) =~= union_names(lv, rv.take(k as int)).push(right@[k as int]@));
            }
            k += 1;
        }
        assert(rv.take(k as int) =~= rv);
    } else if left.len() < right.len() {
        let mut k: usize = left.len();
        assert(lv + rv.subrange(left.len() as int, left.len() as int) =~= lv);
        while k < right.len()
            invariant
                left.len() <= k <= right.len(),
                lv == strings_view(left@),
                rv == strings_view(right@),
                strings_view(columns@) == lv + rv.subrange(left.len() as int, k as int),
            decreases right.len() - k,
        {
            let ghost before = strings_view(columns@);
            columns.push(copy_string(&right[k]));
            assert(rv[k as int] == right@[k as int]@);
            assert(strings_view(columns@) =~= before.push(rv[k as int]));
            assert(lv + rv.subrange(left.len() as int, k + 1) =~= (lv + rv.subrange(left.len() as int, k as int)).push(rv[k as int]));
            k += 1;
        }
    }
    columns
}

fn top_rows(left: &Table, width: usize) -> (r: Vec<Row>)
    ensures
        rows_view(r@) == top_rows_spec(rows_view(left.rows@), left.columns.len() as int, width as int),
{
    let ghost lrows = rows_view(left.rows@);
    let left_width = left.columns.len();
    let mut rows: Vec<Row> = Vec::new();
    let mut k: usize = 0;
    while k < left.rows.len()
        invariant
            k <= left.rows.len(),
            lrows == rows_view(left.rows@),
            left_width == left.columns.len(),
            rows.len() == k,
            forall|j: int| 0 <= j < k ==> row_view(#[trigger] rows@[j]) == if left_width == width {
                lrows[j]
            } else {
                resized(lrows[j], left_width as int, width as int)
            },
        decreases left.rows.len() - k,
    {
        if left_width == width {
            rows.push(copy_row(&left.rows[k]));
        } else {
            rows.push(resize_row(&left.rows[k], left_width, width));
        }
        k += 1;
    }
    assert(rows_view(rows@) =~= top_rows_spec(lrows, left_width as int, width as int));
    rows
}

fn bottom_rows_by_name(right: &Table, columns: &Vec<String>) -> (r: Vec<Row>)
    ensures
        rows_view(r@) == bottom_by_name_spec(table_parts(*right), strings_view(columns@)),
{
    let ghost rrows = rows_view(right.rows@);
    let map = union_output_index_map(right.columns.as_slice(), columns.as_slice());
    let ghost mv = map@.map_values(|o: Option<usize>| crate::engine::option_usize_view(o));
    assert(mv == union_index_map_spec(strings_view(right.columns@), strings_view(columns@)));
    let mut rows: Vec<Row> = Vec::new();
    let mut k: usize = 0;
    while k < right.rows.len()
        invariant
            k <= right.rows.len(),
            rrows == rows_view(right.rows@),
            mv == map@.map_values(|o: Option<usize>| crate::engine::option_usize_view(o)),
            rows.len() == k,
            forall|j: int| 0 <= j < k ==> row_view(#[trigger] rows@[j]) == mapped(rrows[j], mv),
        decreases right.rows.len() - k,
    {
        rows.push(map_row(&right.rows[k], &map));
        k += 1;
    }
    assert(rows_view(rows@) =~= bottom_by_name_spec(table_parts(*right), strings_view(columns@)));
    rows
}

fn bottom_rows_by_position(right: &Table, width: usize) -> (r: Vec<Row>)
    ensures
        rows_view(r@) == bottom_by_position_spec(rows_view(right.rows@), right.columns.len() as int, width as int),
{
    let ghost rrows = rows_view(right.rows@);
    let right_width = right.columns.len();
    let mut rows: Vec<Row> = Vec::new();
    let mut k: usize = 0;
    while k < right.rows.len()
        invariant
            k <= right.rows.len(),
            rrows == rows_view(right.rows@),
            right_width == right.columns.len(),
            rows.len() == k,
            forall|j: int| 0 <= j < k ==> row_view(#[trigger] rows@[j]) == resized(rrows[j], right_width as int, width as int),
        decreases right.rows.len() - k,
    {
        rows.push(resize_row(&right.rows[k], right_width, width));
        k += 1;
    }
    assert(rows_view(rows@) =~= bottom_by_position_spec(rrows, right_width as int, width as int));
    rows
}

/// Stacks two tables, by column name or by position, after checking that
/// the stacked columns hold compatible value classes; with `distinct`, only
/// the first of equal rows is kept.
pub fn union_rows(left: Table, right: Table, by_name: bool, distinct: bool) -> (r: Result<Table, Diagnostic>)
    ensures
        union_check_spec(table_parts(left), table_parts(right), by_name, match r {
            Ok(_) => Ok(()),
            Err(e) => Err(e@),
        }),
        r matches Ok(t) ==> {
            let columns = if by_name {
                union_names(strings_view(left.columns@), strings_view(right.columns@))
            } else {
                position_names(strings_view(left.columns@), strings_view(right.columns@))
            };
            let rows = union_rows_spec(table_parts(left), table_parts(right), by_name);
            &&& strings_view(t.columns@) == columns
            &&& rows_view(t.rows@) == if distinct { distinct_rows(rows, found_indices(columns, columns)) } else { rows }
        },
{
    match ensure_union_rows_compatible(&left, &right, by_name) {
        Err(e) => return Err(e),
        Ok(()) => {},
    }
    let columns = union_columns(&left.columns, &right.columns, by_name);
    let width = columns.len();
    let mut rows = top_rows(&left, width);
    let mut bottom = if by_name {
        bottom_rows_by_name(&right, &columns)
    } else {
        bottom_rows_by_position(&right, width)
    };
    let ghost top_view = rows_view(rows@);
    let ghost bottom_view = rows_view(bottom@);
    rows.append(&mut bottom);
    assert(rows_view(rows@) =~= top_view + bottom_view);
    let table = Table { columns, rows };
    if distinct {
        Ok(table.distinct(&[]))
    } else {
        Ok(table)
    }
}

} // verus!
