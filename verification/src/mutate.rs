//! `mutate` and `filter` in the row runtime, given each row's evaluated
//! expressions: new columns appended in first-appearance order, each
//! item's value set in every row, a later item of a name winning; the rows
//! whose predicate is `true` kept; and the partition position a `lag` or
//! `lead` reaches.
use vstd::prelude::*;

use crate::diagnostic::{Diagnostic, DiagnosticView};
use crate::frame::{cell_at, row_view, rows_view, Row, Table};
use crate::pivot::table_result_view;
use crate::readers::key_union;
use crate::text::{copy_string, string_eq, strings_view};
use crate::value::{Value, ValueView};

verus! {

pub open spec fn cell_result_view(r: Result<Value, Diagnostic>) -> Result<ValueView, DiagnosticView> {
    match r {
        Ok(v) => Ok(v@),
        Err(d) => Err(d@),
    }
}

pub open spec fn evaluated_view(e: Seq<Vec<Result<Value, Diagnostic>>>) -> Seq<Seq<Result<ValueView, DiagnosticView>>> {
    e.map_values(|row: Vec<Result<Value, Diagnostic>>| row@.map_values(|c: Result<Value, Diagnostic>| cell_result_view(c)))
}

/// The first failure among a row's evaluated items.
pub open spec fn first_error(cells: Seq<Result<ValueView, DiagnosticView>>) -> Option<DiagnosticView>
    decreases cells.len(),
{
    if cells.len() == 0 {
        None
    } else {
        match first_error(cells.drop_last()) {
            Some(d) => Some(d),
            None => match cells.last() {
                Err(d) => Some(d),
                Ok(_) => None,
            },
        }
    }
}

/// The first failure, row by row and item by item.
pub open spec fn first_row_error(rows: Seq<Seq<Result<ValueView, DiagnosticView>>>) -> Option<DiagnosticView>
    decreases rows.len(),
{
    if rows.len() == 0 {
        None
    } else {
        match first_row_error(rows.drop_last()) {
            Some(d) => Some(d),
            None => first_error(rows.last()),
        }
    }
}

/// The position of the last item named `name`.
pub open spec fn last_item(items: Seq<Seq<char>>, name: Seq<char>) -> Option<int>
    decreases items.len(),
{
    if items.len() == 0 {
        None
    } else if items.last() == name {
        Some(items.len() - 1)
    } else {
        last_item(items.drop_last(), name)
    }
}

pub open spec fn ok_value(r: Result<ValueView, DiagnosticView>) -> ValueView {
    match r {
        Ok(v) => v,
        Err(_) => ValueView::Null,
    }
}

/// A row after `mutate`: under each output column the value of the last
/// item of that name, else the row's own cell, else null.
pub open spec fn mutated_row(
    row: Seq<ValueView>,
    columns: Seq<Seq<char>>,
    items: Seq<Seq<char>>,
    values: Seq<Result<ValueView, DiagnosticView>>,
) -> Seq<ValueView> {
    Seq::new(
        columns.len(),
        |j: int|
            match last_item(items, columns[j]) {
                Some(k) => ok_value(values[k]),
                None => cell_at(row, j),
            },
    )
}

/// What `mutate` gives: the first failed item, row by row; else the input
/// columns followed by the new item names in first-appearance order, and
/// every row mutated.
pub open spec fn mutate_spec(
    columns: Seq<Seq<char>>,
    rows: Seq<Seq<ValueView>>,
    items: Seq<Seq<char>>,
    evaluated: Seq<Seq<Result<ValueView, DiagnosticView>>>,
) -> Result<(Seq<Seq<char>>, Seq<Seq<ValueView>>), DiagnosticView> {
    match first_row_error(evaluated) {
        Some(d) => Err(d),
        None => {
            let out = key_union(columns, items);
            Ok((out, Seq::new(rows.len(), |i: int| mutated_row(rows[i], out, items, evaluated[i]))))
        },
    }
}

pub(crate) proof fn lemma_first_error_settles(cells: Seq<Result<ValueView, DiagnosticView>>, m: int)
    requires
        0 <= m <= cells.len(),
        first_error(cells.take(m)) is Some,
    ensures
        first_error(cells) == first_error(cells.take(m)),
    decreases cells.len() - m,
{
    if m < cells.len() {
        assert(cells.drop_last().take(m) =~= cells.take(m));
        lemma_first_error_settles(cells.drop_last(), m);
    } else {
        assert(cells.take(m) =~= cells);
    }
}

pub(crate) proof fn lemma_first_row_error_settles(rows: Seq<Seq<Result<ValueView, DiagnosticView>>>, m: int)
    requires
        0 <= m <= rows.len(),
        first_row_error(rows.take(m)) is Some,
    ensures
        first_row_error(rows) == first_row_error(rows.take(m)),
    decreases rows.len() - m,
{
    if m < rows.len() {
        assert(rows.drop_last().take(m) =~= rows.take(m));
        lemma_first_row_error_settles(rows.drop_last(), m);
    } else {
        assert(rows.take(m) =~= rows);
    }
}

/// The position of the last item named `name`.
fn last_match(items: &Vec<String>, name: &String) -> (r: Option<usize>)
    ensures
        match last_item(strings_view(items@), name@) {
            Some(k) => r == Some(k as usize),
            None => r is None,
        },
{
    let ghost iv = strings_view(items@);
    let mut n: usize = items.len();
    assert(iv.take(n as int) =~= iv);
    while n > 0
        invariant
            n <= items.len(),
            iv == strings_view(items@),
            last_item(iv, name@) == last_item(iv.take(n as int), name@),
        decreases n,
    {
        assert(iv.take(n as int).last() == items@[n - 1]@);
        if string_eq(&items[n - 1], name) {
            return Some(n - 1);
        }
        assert(iv.take(n as int).drop_last() =~= iv.take(n - 1));
        n -= 1;
    }
    None
}

/// The input columns followed by the new item names, each once.
fn output_columns(columns: &Vec<String>, items: &Vec<String>) -> (r: Vec<String>)
    ensures
        strings_view(r@) == key_union(strings_view(columns@), strings_view(items@)),
{
    let ghost acc = strings_view(columns@);
    let ghost ks = strings_view(items@);
    let mut out = crate::text::copy_strings(columns.as_slice());
    let mut k: usize = 0;
    assert(ks.take(0) =~= Seq::<Seq<char>>::empty());
    while k < items.len()
        invariant
            k <= items.len(),
            acc == strings_view(columns@),
            ks == strings_view(items@),
            strings_view(out@) == key_union(acc, ks.take(k as int)),
        decreases items.len() - k,
    {
        assert(ks.take(k + 1).drop_last() =~= ks.take(k as int));
        assert(ks.take(k + 1).last() == items@[k as int]@);
        if crate::engine::position_of(out.as_slice(), &items[k]).is_none() {
            let ghost before = out@;
            out.push(copy_string(&items[k]));
            assert(strings_view(out@) =~= strings_view(before).push(items@[k as int]@));
        }
        k += 1;
    }
    assert(ks.take(items.len() as int) =~= ks);
    out
}

/// One row after `mutate`.
fn mutate_row(
    row: &Row,
    columns: &Vec<String>,
    items: &Vec<String>,
    values: &Vec<Result<Value, Diagnostic>>,
) -> (r: Row)
    requires
        values.len() == items.len(),
    ensures
        row_view(r) == mutated_row(
            row_view(*row),
            strings_view(columns@),
            strings_view(items@),
            values@.map_values(|c: Result<Value, Diagnostic>| cell_result_view(c)),
        ),
{
    let ghost want = mutated_row(
        row_view(*row),
        strings_view(columns@),
        strings_view(items@),
        values@.map_values(|c: Result<Value, Diagnostic>| cell_result_view(c)),
    );
    let mut out: Vec<Value> = Vec::new();
    let mut j: usize = 0;
    while j < columns.len()
        invariant
            j <= columns.len(),
            values.len() == items.len(),
            want == mutated_row(
                row_view(*row),
                strings_view(columns@),
                strings_view(items@),
                values@.map_values(|c: Result<Value, Diagnostic>| cell_result_view(c)),
            ),
            out@.len() == j,
            forall|t: int| 0 <= t < j ==> (#[trigger] out@[t])@ == want[t],
        decreases columns.len() - j,
    {
        assert(strings_view(columns@)[j as int] == columns@[j as int]@);
        let cell = match last_match(items, &columns[j]) {
            Some(k) => {
                proof {
                    crate::mutate::lemma_last_item_in_range(strings_view(items@), columns@[j as int]@);
                }
                match &values[k] {
                    Ok(v) => v.duplicate(),
                    Err(_) => Value::Null,
                }
            },
            None => {
                if j < row.values.len() {
                    row.values[j].duplicate()
                } else {
                    Value::Null
                }
            },
        };
        out.push(cell);
        j += 1;
    }
    let r = Row { values: out };
    assert(row_view(r) =~= want);
    r
}

proof fn lemma_last_item_in_range(items: Seq<Seq<char>>, name: Seq<char>)
    ensures
        match last_item(items, name) {
            Some(k) => 0 <= k < items.len(),
            None => true,
        },
    decreases items.len(),
{
    if items.len() > 0 {
        lemma_last_item_in_range(items.drop_last(), name);
    }
}

/// `mutate` of a row-runtime table, given each row's evaluated items in
/// item order: the first failure, row by row, is the result; otherwise the
/// new item names are appended to the columns in first-appearance order and
/// each row holds, under every column, the value of the last item of that
/// name, else its own cell, else null.
pub fn mutate_table(table: Table, items: &Vec<String>, evaluated: Vec<Vec<Result<Value, Diagnostic>>>) -> (r: Result<
    Table,
    Diagnostic,
>)
    requires
        evaluated.len() == table.rows.len(),
        forall|i: int| 0 <= i < evaluated.len() ==> (#[trigger] evaluated@[i]).len() == items.len(),
    ensures
        table_result_view(r) == mutate_spec(
            strings_view(table.columns@),
            rows_view(table.rows@),
            strings_view(items@),
            evaluated_view(evaluated@),
        ),
{
    let ghost ev = evaluated_view(evaluated@);
    let mut i: usize = 0;
    assert(ev.take(0) =~= Seq::<Seq<Result<ValueView, DiagnosticView>>>::empty());
    while i < evaluated.len()
        invariant
            i <= evaluated.len(),
            ev == evaluated_view(evaluated@),
            first_row_error(ev.take(i as int)) is None,
        decreases evaluated.len() - i,
    {
        let ghost cells = ev[i as int];
        let mut k: usize = 0;
        assert(cells.take(0) =~= Seq::<Result<ValueView, DiagnosticView>>::empty());
        while k < evaluated[i].len()
            invariant
                i < evaluated.len(),
                k <= evaluated@[i as int].len(),
                ev == evaluated_view(evaluated@),
                cells == ev[i as int],
                first_row_error(ev.take(i as int)) is None,
                first_error(cells.take(k as int)) is None,
            decreases evaluated@[i as int].len() - k,
        {
            assert(cells.take(k + 1).drop_last() =~= cells.take(k as int));
            assert(cells[k as int] == cell_result_view(evaluated@[i as int]@[k as int]));
            if let Err(d) = &evaluated[i][k] {
                proof {
                    assert(first_error(cells.take(k + 1)) == Some(d@));
                    lemma_first_error_settles(cells, k + 1);
                    assert(ev.take(i + 1).drop_last() =~= ev.take(i as int));
                    assert(first_row_error(ev.take(i + 1)) == Some(d@));
                    lemma_first_row_error_settles(ev, i + 1);
                }
                return Err(d.duplicate());
            }
            k += 1;
        }
        assert(cells.take(k as int) =~= cells);
        assert(ev.take(i + 1).drop_last() =~= ev.take(i as int));
        i += 1;
    }
    assert(ev.take(i as int) =~= ev);
    let columns = output_columns(&table.columns, items);
    let ghost out_cols = strings_view(columns@);
    let ghost rv = rows_view(table.rows@);
    let mut rows: Vec<Row> = Vec::new();
    let mut t: usize = 0;
    while t < table.rows.len()
        invariant
            t <= table.rows.len(),
            evaluated.len() == table.rows.len(),
            forall|i: int| 0 <= i < evaluated.len() ==> (#[trigger] evaluated@[i]).len() == items.len(),
            ev == evaluated_view(evaluated@),
            rv == rows_view(table.rows@),
            out_cols == strings_view(columns@),
            rows@.len() == t,
            forall|q: int| 0 <= q < t ==> row_view(#[trigger] rows@[q]) == mutated_row(rv[q], out_cols, strings_view(items@), ev[q]),
        decreases table.rows.len() - t,
    {
        assert(evaluated@[t as int].len() == items.len());
        let row = mutate_row(&table.rows[t], &columns, items, &evaluated[t]);
        rows.push(row);
        t += 1;
    }
    let r = Table { columns, rows };
    assert(rows_view(r.rows@) =~= Seq::new(rv.len(), |q: int| mutated_row(rv[q], out_cols, strings_view(items@), ev[q])));
    Ok(r)
}

/// The partition position that `lag` (`lead == false`) or `lead`
/// (`lead == true`) by `offset` rows reaches from `position` in a partition
/// of `len` rows; nothing where it falls outside the partition.
pub open spec fn offset_target_spec(position: int, offset: int, len: int, lead: bool) -> Option<int> {
    let t = if lead { position + offset } else { position - offset };
    if 0 <= t < len {
        Some(t)
    } else {
        None
    }
}

/// `lag` by `offset` reaches the row `offset` places earlier and `lead` the
/// row `offset` places later, whenever that row is in the partition, and
/// nothing otherwise; an offset of zero reaches the row itself.
pub proof fn lemma_lag_lead_reach(position: int, offset: int, len: int)
    requires
        0 <= position < len,
        offset >= 0,
    ensures
        offset <= position ==> offset_target_spec(position, offset, len, false) == Some(position - offset),
        offset > position ==> offset_target_spec(position, offset, len, false) is None,
        position + offset < len ==> offset_target_spec(position, offset, len, true) == Some(position + offset),
        position + offset >= len ==> offset_target_spec(position, offset, len, true) is None,
        offset_target_spec(position, 0, len, true) == Some(position),
        offset_target_spec(position, 0, len, false) == Some(position),
{
}

pub fn offset_target(position: usize, offset: usize, len: usize, lead: bool) -> (r: Option<usize>)
    requires
        offset <= isize::MAX,
    ensures
        match offset_target_spec(position as int, offset as int, len as int, lead) {
            Some(t) => r == Some(t as usize),
            None => r is None,
        },
{
    if lead {
        if offset < len && position < len - offset {
            Some(position + offset)
        } else {
            None
        }
    } else {
        if offset <= position && position - offset < len {
            Some(position - offset)
        } else {
            None
        }
    }
}

/// The row that `lag` or `lead` by `offset` reads from the partition's
/// rows (their table row indices, in partition order), or nothing where it
/// falls outside; then the default is used.
pub fn offset_row(partition: &Vec<usize>, position: usize, offset: usize, lead: bool) -> (r: Option<usize>)
    requires
        offset <= isize::MAX,
    ensures
        match offset_target_spec(position as int, offset as int, partition.len() as int, lead) {
            Some(t) => r == Some(partition@[t]),
            None => r is None,
        },
{
    match offset_target(position, offset, partition.len(), lead) {
        Some(t) => Some(partition[t]),
        None => None,
    }
}

/// The rows whose predicate is the boolean `true`, in order.
pub open spec fn kept_rows(rows: Seq<Seq<ValueView>>, keep: Seq<ValueView>) -> Seq<Seq<ValueView>>
    decreases rows.len(),
{
    if rows.len() == 0 || keep.len() == 0 {
        Seq::empty()
    } else {
        let prev = kept_rows(rows.drop_last(), keep.drop_last());
        if keep.last() == ValueView::Bool(true) {
            prev.push(rows.last())
        } else {
            prev
        }
    }
}

/// What `filter` gives: the first failed predicate; else the columns and
/// the rows whose predicate is `true`.
pub open spec fn filter_spec(
    columns: Seq<Seq<char>>,
    rows: Seq<Seq<ValueView>>,
    evaluated: Seq<Result<ValueView, DiagnosticView>>,
) -> Result<(Seq<Seq<char>>, Seq<Seq<ValueView>>), DiagnosticView> {
    match first_error(evaluated) {
        Some(d) => Err(d),
        None => Ok((columns, kept_rows(rows, evaluated.map_values(|r: Result<ValueView, DiagnosticView>| ok_value(r))))),
    }
}

/// `filter` of a row-runtime table, given each row's evaluated predicate.
pub fn filter_table(table: Table, evaluated: Vec<Result<Value, Diagnostic>>) -> (r: Result<Table, Diagnostic>)
    requires
        evaluated.len() == table.rows.len(),
    ensures
        table_result_view(r) == filter_spec(
            strings_view(table.columns@),
            rows_view(table.rows@),
            evaluated@.map_values(|c: Result<Value, Diagnostic>| cell_result_view(c)),
        ),
{
    let ghost ev = evaluated@.map_values(|c: Result<Value, Diagnostic>| cell_result_view(c));
    let ghost keep = ev.map_values(|r: Result<ValueView, DiagnosticView>| ok_value(r));
    let ghost rv = rows_view(table.rows@);
    let mut rows: Vec<Row> = Vec::new();
    let mut i: usize = 0;
    assert(ev.take(0) =~= Seq::<Result<ValueView, DiagnosticView>>::empty());
    assert(rv.take(0) =~= Seq::<Seq<ValueView>>::empty());
    while i < evaluated.len()
        invariant
            i <= evaluated.len(),
            evaluated.len() == table.rows.len(),
            ev == evaluated@.map_values(|c: Result<Value, Diagnostic>| cell_result_view(c)),
            keep == ev.map_values(|r: Result<ValueView, DiagnosticView>| ok_value(r)),
            rv == rows_view(table.rows@),
            first_error(ev.take(i as int)) is None,
            rows_view(rows@) == kept_rows(rv.take(i as int), keep.take(i as int)),
        decreases evaluated.len() - i,
    {
        assert(ev.take(i + 1).drop_last() =~= ev.take(i as int));
        assert(rv.take(i + 1).drop_last() =~= rv.take(i as int));
        assert(keep.take(i + 1).drop_last() =~= keep.take(i as int));
        match &evaluated[i] {
            Err(d) => {
                proof {
                    assert(first_error(ev.take(i + 1)) == Some(d@));
                    lemma_first_error_settles(ev, i + 1);
                }
                return Err(d.duplicate());
            },
            Ok(v) => {
                if v.is_truthy_true() {
                    let ghost before = rows_view(rows@);
                    let row = Row { values: clone_values(&table.rows[i].values) };
                    rows.push(row);
                    assert(rows_view(rows@) =~= before.push(rv[i as int]));
                }
            },
        }
        i += 1;
    }
    assert(ev.take(i as int) =~= ev);
    assert(rv.take(i as int) =~= rv);
    assert(keep.take(i as int) =~= keep);
    Ok(Table { columns: table.columns, rows })
}

pub(crate) fn clone_values(values: &Vec<Value>) -> (r: Vec<Value>)
    ensures
        r@.map_values(|v: Value| v@) == values@.map_values(|v: Value| v@),
{
    let mut out: Vec<Value> = Vec::new();
    let mut i: usize = 0;
    while i < values.len()
        invariant
            i <= values.len(),
            out@.len() == i,
            forall|t: int| 0 <= t < i ==> (#[trigger] out@[t])@ == values@[t]@,
        decreases values.len() - i,
    {
        out.push(values[i].duplicate());
        i += 1;
    }
    assert(out@.map_values(|v: Value| v@) =~= values@.map_values(|v: Value| v@));
    out
}

/// `join` of two row-runtime tables: the row runtime has no join, so an
/// empty key list is refused as such and any other join as a native one.
pub fn join_tables(left: Table, right: Table, keys: &[(String, String)]) -> (r: Result<Table, Diagnostic>)
    ensures
        table_result_view(r) == Err::<(Seq<Seq<char>>, Seq<Seq<ValueView>>), DiagnosticView>(
            crate::engine::unsupported_operation_view(if keys@.len() == 0 { "join key list"@ } else { "native join"@ }),
        ),
{
    if keys.len() == 0 {
        Err(crate::engine::unsupported_native_operation("join key list"))
    } else {
        Err(crate::engine::unsupported_native_operation("native join"))
    }
}

} // verus!
