//! `pivot_longer` in the row runtime: chosen columns turned into name and
//! value rows.
use vstd::prelude::*;

use crate::codes::{E1005, E1207};
use crate::diagnostic::{Diagnostic, DiagnosticView};
use crate::engine::first_position;
use crate::frame::{cell_at, kept_indices, pick, pick_names, row_view, rows_view, Row, Table};
use crate::scalar::error_view;
use crate::span::Span;
use crate::text::{copy_str, copy_string, push_str, str_eq, strings_view};
use crate::value::{Value, ValueView};

verus! {

/// The first pivoted column, among the first `n`, that the table lacks.
pub open spec fn first_unknown(columns: Seq<Seq<char>>, pivoted: Seq<Seq<char>>, n: int) -> Option<int>
    decreases n,
{
    if n <= 0 {
        None
    } else {
        match first_unknown(columns, pivoted, n - 1) {
            Some(i) => Some(i),
            None => if columns.contains(pivoted[n - 1]) {
                None
            } else {
                Some(n - 1)
            },
        }
    }
}

/// What pivoting one row gives: for each pivoted column, the kept cells,
/// the column's name and its cell.
pub open spec fn pivot_row(row: Seq<ValueView>, kept: Seq<int>, pivoted: Seq<(Seq<char>, int)>) -> Seq<Seq<ValueView>> {
    pivoted.map_values(|p: (Seq<char>, int)| pick(row, kept) + seq![ValueView::String(p.0), cell_at(row, p.1)])
}

/// The pivoted rows of the first `n` rows, in order.
pub open spec fn pivot_rows(rows: Seq<Seq<ValueView>>, kept: Seq<int>, pivoted: Seq<(Seq<char>, int)>, n: int) -> Seq<Seq<ValueView>>
    decreases n,
{
    if n <= 0 {
        Seq::empty()
    } else {
        pivot_rows(rows, kept, pivoted, n - 1) + pivot_row(rows[n - 1], kept, pivoted)
    }
}

/// What `pivot_longer` gives: an unknown pivoted column, an output name
/// that a kept column already has, or equal output names are errors, in
/// that order; else the kept columns then `names_to` and `values_to`, and
/// for each row and each pivoted column one row.
pub open spec fn pivot_longer_spec(
    columns: Seq<Seq<char>>,
    rows: Seq<Seq<ValueView>>,
    pivoted: Seq<Seq<char>>,
    names_to: Seq<char>,
    values_to: Seq<char>,
) -> Result<(Seq<Seq<char>>, Seq<Seq<ValueView>>), DiagnosticView> {
    let kept = kept_indices(columns, pivoted, columns.len() as int);
    let kept_names = pick_names(columns, kept);
    match first_unknown(columns, pivoted, pivoted.len() as int) {
        Some(i) => Err(error_view(1005, "unknown column `"@ + pivoted[i] + "`"@)),
        None => if kept_names.contains(names_to) {
            Err(error_view(1207, "pivot_longer names_to `"@ + names_to + "` already exists"@))
        } else if kept_names.contains(values_to) {
            Err(error_view(1207, "pivot_longer values_to `"@ + values_to + "` already exists"@))
        } else if names_to == values_to {
            Err(error_view(1207, "pivot_longer names_to and values_to must be different columns"@))
        } else {
            let sources = pivoted.map_values(|c: Seq<char>| (c, first_position(columns, c).unwrap()));
            Ok((kept_names.push(names_to).push(values_to), pivot_rows(rows, kept, sources, rows.len() as int)))
        },
    }
}

pub open spec fn table_result_view(r: Result<Table, Diagnostic>) -> Result<(Seq<Seq<char>>, Seq<Seq<ValueView>>), DiagnosticView> {
    match r {
        Ok(t) => Ok((strings_view(t.columns@), rows_view(t.rows@))),
        Err(e) => Err(e@),
    }
}

fn names_contain(names: &Vec<String>, name: &str) -> (r: bool)
    ensures
        r == strings_view(names@).contains(name@),
{
    let wanted = copy_str(name);
    crate::engine::position_of(names.as_slice(), &wanted).is_some()
}

fn pivot_one(row: &Row, kept: &Vec<usize>, names: &Vec<String>, sources: &Vec<usize>, out: &mut Vec<Row>)
    requires
        names.len() == sources.len(),
    ensures
        rows_view(final(out)@) == rows_view(old(out)@) + pivot_row(
            row_view(*row),
            kept@.map_values(|i: usize| i as int),
            Seq::new(names.len() as nat, |j: int| (names@[j]@, sources@[j] as int)),
        ),
{
    let ghost start = rows_view(out@);
    let ghost kv = kept@.map_values(|i: usize| i as int);
    let ghost pv = Seq::new(names.len() as nat, |j: int| (names@[j]@, sources@[j] as int));
    let mut j: usize = 0;
    while j < names.len()
        invariant
            j <= names.len(),
            names.len() == sources.len(),
            kv == kept@.map_values(|i: usize| i as int),
            pv == Seq::new(names.len() as nat, |j: int| (names@[j]@, sources@[j] as int)),
            rows_view(out@) == start + pivot_row(row_view(*row), kv, pv.take(j as int)),
        decreases names.len() - j,
    {
        let mut values: Vec<Value> = Vec::new();
        let mut k: usize = 0;
        while k < kept.len()
            invariant
                k <= kept.len(),
                values.len() == k,
                forall|t: int| 0 <= t < k ==> (#[trigger] values@[t])@ == cell_at(row_view(*row), kept@[t] as int),
            decreases kept.len() - k,
        {
            let i = kept[k];
            if i < row.values.len() {
                values.push(row.values[i].duplicate());
            } else {
                values.push(Value::Null);
            }
            k += 1;
        }
        values.push(Value::String(copy_string(&names[j])));
        let s = sources[j];
        if s < row.values.len() {
            values.push(row.values[s].duplicate());
        } else {
            values.push(Value::Null);
        }
        let new_row = Row { values };
        let ghost before = rows_view(out@);
        proof {
            assert(row_view(new_row) =~= pick(row_view(*row), kv) + seq![ValueView::String(pv[j as int].0), cell_at(row_view(*row), pv[j as int].1)]);
            assert(pivot_row(row_view(*row), kv, pv.take(j + 1)) =~= pivot_row(row_view(*row), kv, pv.take(j as int)).push(row_view(new_row)));
        }
        let ghost added = row_view(new_row);
        out.push(new_row);
        assert(rows_view(out@) =~= before.push(added));
        assert(start + pivot_row(row_view(*row), kv, pv.take(j + 1)) =~= (start + pivot_row(row_view(*row), kv, pv.take(j as int))).push(added));
        j += 1;
    }
    assert(pv.take(j as int) =~= pv);
}

fn e1207(message: &str) -> (d: Diagnostic)
    ensures
        d@ == error_view(1207, message@),
{
    Diagnostic::error(E1207(), message, Span::zero())
}

/// Turns the chosen columns into rows: each input row gives one row per
/// chosen column, holding the other columns' cells, the chosen column's
/// name under `names_to` and its cell under `values_to`.
pub fn pivot_longer_rows(table: Table, columns: &[String], names_to: &str, values_to: &str) -> (r: Result<Table, Diagnostic>)
    ensures
        table_result_view(r) == pivot_longer_spec(
            strings_view(table.columns@),
            rows_view(table.rows@),
            strings_view(columns@),
            names_to@,
            values_to@,
        ),
{
    let ghost cols = strings_view(table.columns@);
    let ghost pivoted = strings_view(columns@);
    let mut sources: Vec<usize> = Vec::new();
    let mut k: usize = 0;
    while k < columns.len()
        invariant
            k <= columns.len(),
            cols == strings_view(table.columns@),
            pivoted == strings_view(columns@),
            first_unknown(cols, pivoted, k as int) is None,
            sources.len() == k,
            forall|j: int| 0 <= j < k ==> #[trigger] first_position(cols, pivoted[j]) == Some(sources@[j] as int),
        decreases columns.len() - k,
    {
        match table.column_index(columns[k].as_str()) {
            Some(i) => {
                proof {
                    lemma_known_at(cols, pivoted, k as int);
                }
                sources.push(i);
            },
            None => {
                proof {
                    lemma_unknown_at(cols, pivoted, k as int);
                }
                return Err(unknown_column(columns[k].as_str()));
            },
        }
        k += 1;
    }
    let mut kept: Vec<usize> = Vec::new();
    let mut kept_names: Vec<String> = Vec::new();
    let mut c: usize = 0;
    while c < table.columns.len()
        invariant
            c <= table.columns.len(),
            cols == strings_view(table.columns@),
            pivoted == strings_view(columns@),
            kept@.map_values(|i: usize| i as int) == kept_indices(cols, pivoted, c as int),
            strings_view(kept_names@) == pick_names(cols, kept_indices(cols, pivoted, c as int)),
        decreases table.columns.len() - c,
    {
        assert(cols[c as int] == table.columns@[c as int]@);
        let wanted = copy_string(&table.columns[c]);
        if crate::engine::position_of(columns, &wanted).is_none() {
            let ghost before = kept@.map_values(|i: usize| i as int);
            kept.push(c);
            kept_names.push(copy_string(&table.columns[c]));
            proof {
                assert(!pivoted.contains(cols[c as int]));
                assert(kept_indices(cols, pivoted, c + 1) == kept_indices(cols, pivoted, c as int).push(c as int));
                assert(kept@.map_values(|i: usize| i as int) =~= before.push(c as int));
                assert(pick_names(cols, kept_indices(cols, pivoted, c as int).push(c as int)) =~= pick_names(cols, kept_indices(cols, pivoted, c as int)).push(cols[c as int]));
            }
        } else {
            proof {
                assert(pivoted.contains(cols[c as int]));
            }
        }
        c += 1;
    }
    if names_contain(&kept_names, names_to) {
        let mut m = copy_str("pivot_longer names_to `");
        push_str(&mut m, names_to);
        push_str(&mut m, "` already exists");
        return Err(e1207(m.as_str()));
    }
    if names_contain(&kept_names, values_to) {
        let mut m = copy_str("pivot_longer values_to `");
        push_str(&mut m, values_to);
        push_str(&mut m, "` already exists");
        return Err(e1207(m.as_str()));
    }
    if str_eq(names_to, values_to) {
        return Err(e1207("pivot_longer names_to and values_to must be different columns"));
    }
    let names = crate::text::copy_strings(columns);
    let ghost kv = kept@.map_values(|i: usize| i as int);
    let ghost pv = Seq::new(names.len() as nat, |j: int| (names@[j]@, sources@[j] as int));
    proof {
        assert(pv =~= pivoted.map_values(|c: Seq<char>| (c, first_position(cols, c).unwrap())));
    }
    let ghost rv = rows_view(table.rows@);
    let mut rows: Vec<Row> = Vec::new();
    let mut t: usize = 0;
    while t < table.rows.len()
        invariant
            t <= table.rows.len(),
            rv == rows_view(table.rows@),
            names.len() == sources.len(),
            kv == kept@.map_values(|i: usize| i as int),
            pv == Seq::new(names.len() as nat, |j: int| (names@[j]@, sources@[j] as int)),
            rows_view(rows@) == pivot_rows(rv, kv, pv, t as int),
        decreases table.rows.len() - t,
    {
        pivot_one(&table.rows[t], &kept, &names, &sources, &mut rows);
        t += 1;
    }
    let mut out_columns = kept_names;
    out_columns.push(copy_str(names_to));
    out_columns.push(copy_str(values_to));
    proof {
        assert(strings_view(out_columns@) =~= pick_names(cols, kept_indices(cols, pivoted, cols.len() as int)).push(names_to@).push(values_to@));
        assert(first_unknown(cols, pivoted, pivoted.len() as int) is None);
    }
    Ok(Table { columns: out_columns, rows })
}

pub(crate) fn unknown_column(name: &str) -> (d: Diagnostic)
    ensures
        d@ == error_view(1005, "unknown column `"@ + name@ + "`"@),
{
    let mut m = copy_str("unknown column `");
    push_str(&mut m, name);
    push_str(&mut m, "`");
    Diagnostic::error(E1005(), m.as_str(), Span::zero())
}

pub(crate) proof fn lemma_known_at(columns: Seq<Seq<char>>, pivoted: Seq<Seq<char>>, k: int)
    requires
        0 <= k < pivoted.len(),
        first_unknown(columns, pivoted, k) is None,
        first_position(columns, pivoted[k]) is Some,
    ensures
        first_unknown(columns, pivoted, k + 1) is None,
{
    let i = first_position(columns, pivoted[k]).unwrap();
    assert(exists|j: int| 0 <= j < columns.len() && columns[j] == pivoted[k]);
    let j = choose|j: int| 0 <= j < columns.len() && columns[j] == pivoted[k];
    assert(columns[j] == pivoted[k]);
    assert(columns.contains(pivoted[k]));
}

pub(crate) proof fn lemma_unknown_at(columns: Seq<Seq<char>>, pivoted: Seq<Seq<char>>, k: int)
    requires
        0 <= k < pivoted.len(),
        first_unknown(columns, pivoted, k) is None,
        first_position(columns, pivoted[k]) is None,
    ensures
        first_unknown(columns, pivoted, pivoted.len() as int) == Some(k),
{
    if columns.contains(pivoted[k]) {
        let j = choose|j: int| 0 <= j < columns.len() && columns[j] == pivoted[k];
        assert(exists|j: int| 0 <= j < columns.len() && columns[j] == pivoted[k]);
    }
    assert(first_unknown(columns, pivoted, k + 1) == Some(k));
    lemma_first_unknown_stays(columns, pivoted, k + 1, pivoted.len() as int);
}

proof fn lemma_first_unknown_stays(columns: Seq<Seq<char>>, pivoted: Seq<Seq<char>>, m: int, n: int)
    requires
        0 < m <= n,
        first_unknown(columns, pivoted, m) is Some,
    ensures
        first_unknown(columns, pivoted, n) == first_unknown(columns, pivoted, m),
    decreases n - m,
{
    if m < n {
        lemma_first_unknown_stays(columns, pivoted, m, n - 1);
    }
}

/// `pivot_longer` of a row-runtime plan: an empty column list is refused
/// as an unsupported operation; otherwise `pivot_longer_rows`.
pub fn pivot_longer_table(table: Table, columns: &[String], names_to: &str, values_to: &str) -> (r: Result<Table, Diagnostic>)
    ensures
        table_result_view(r) == if columns@.len() == 0 {
            Err(crate::engine::unsupported_operation_view("pivot_longer column list"@))
        } else {
            pivot_longer_spec(strings_view(table.columns@), rows_view(table.rows@), strings_view(columns@), names_to@, values_to@)
        },
{
    if columns.len() == 0 {
        return Err(crate::engine::unsupported_native_operation("pivot_longer column list"));
    }
    pivot_longer_rows(table, columns, names_to, values_to)
}

} // verus!
