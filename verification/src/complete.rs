//! `complete` in the row runtime: every combination of the key values seen
//! in the input, in first-appearance order with the first key outermost; an
//! input row where one has the combination, else a new row holding the key
//! values and the fill expressions' values, the rest null.
use vstd::prelude::*;

use crate::codes::E1208;
use crate::diagnostic::{Diagnostic, DiagnosticView};
use crate::engine::first_position;
use crate::frame::{cell_at, row_view, rows_view, Row, Table};
use crate::mutate::{
    cell_result_view, clone_values, evaluated_view, first_error, first_row_error, lemma_first_error_settles,
    lemma_first_row_error_settles, ok_value,
};
use crate::pivot::{first_unknown, lemma_known_at, lemma_unknown_at, table_result_view, unknown_column};
use crate::scalar::error_view;
use crate::span::Span;
use crate::text::{string_eq, strings_view};
use crate::value::{cell_text, Value, ValueView};

verus! {

pub open spec fn vals_view(v: Seq<Vec<Value>>) -> Seq<Seq<ValueView>> {
    v.map_values(|r: Vec<Value>| r@.map_values(|x: Value| x@))
}

pub open spec fn texts_of(vals: Seq<ValueView>) -> Seq<Seq<char>> {
    vals.map_values(|v: ValueView| cell_text(v))
}

/// The texts of a row's key cells.
pub open spec fn key_texts(row: Seq<ValueView>, idx: Seq<int>) -> Seq<Seq<char>> {
    idx.map_values(|i: int| cell_text(cell_at(row, i)))
}

/// The values of column `i` in the first `n` rows, each text once, in
/// first-appearance order.
pub open spec fn observed(rows: Seq<Seq<ValueView>>, i: int, n: int) -> Seq<ValueView>
    decreases n,
{
    if n <= 0 {
        Seq::empty()
    } else {
        let o = observed(rows, i, n - 1);
        let v = cell_at(rows[n - 1], i);
        if texts_of(o).contains(cell_text(v)) {
            o
        } else {
            o.push(v)
        }
    }
}

/// Whether two input rows have the same key texts.
pub open spec fn has_duplicate_keys(rows: Seq<Seq<ValueView>>, idx: Seq<int>) -> bool {
    exists|a: int, b: int| 0 <= a < b < rows.len() && key_texts(rows[a], idx) == key_texts(rows[b], idx)
}

/// Each prefix extended by each value, prefixes outermost.
pub open spec fn extend_all(prefixes: Seq<Seq<ValueView>>, vals: Seq<ValueView>) -> Seq<Seq<ValueView>>
    decreases prefixes.len(),
{
    if prefixes.len() == 0 {
        Seq::empty()
    } else {
        extend_all(prefixes.drop_last(), vals) + vals.map_values(|v: ValueView| prefixes.last().push(v))
    }
}

/// Every combination of one value from each list, the first list
/// outermost.
pub open spec fn product(lists: Seq<Seq<ValueView>>) -> Seq<Seq<ValueView>>
    decreases lists.len(),
{
    if lists.len() == 0 {
        seq![Seq::empty()]
    } else {
        extend_all(product(lists.drop_last()), lists.last())
    }
}

/// The last position holding `j`.
pub open spec fn last_pos(idx: Seq<int>, j: int) -> Option<int>
    decreases idx.len(),
{
    if idx.len() == 0 {
        None
    } else if idx.last() == j {
        Some(idx.len() - 1)
    } else {
        last_pos(idx.drop_last(), j)
    }
}

/// A new row for a combination: its values in the key columns, the last
/// key naming a column winning, and null elsewhere.
pub open spec fn base_row(idx: Seq<int>, ncols: int, t: Seq<ValueView>) -> Seq<ValueView> {
    Seq::new(
        ncols as nat,
        |j: int|
            match last_pos(idx, j) {
                Some(p) => t[p],
                None => ValueView::Null,
            },
    )
}

/// The input row with a combination's key texts, where there is one.
pub open spec fn matching_row(rows: Seq<Seq<ValueView>>, idx: Seq<int>, t: Seq<ValueView>) -> Option<int> {
    if exists|r: int| 0 <= r < rows.len() && key_texts(rows[r], idx) == texts_of(t) {
        Some(choose|r: int| 0 <= r < rows.len() && key_texts(rows[r], idx) == texts_of(t))
    } else {
        None
    }
}

/// For each combination, the matching input row, or a new row (marked
/// `true`) that still lacks its fill values.
pub open spec fn planned_rows(
    rows: Seq<Seq<ValueView>>,
    idx: Seq<int>,
    ncols: int,
    tuples: Seq<Seq<ValueView>>,
) -> Seq<(Seq<ValueView>, bool)> {
    tuples.map_values(
        |t: Seq<ValueView>|
            match matching_row(rows, idx, t) {
                Some(r) => (rows[r], false),
                None => (base_row(idx, ncols, t), true),
            },
    )
}

pub open spec fn key_positions(columns: Seq<Seq<char>>, keys: Seq<Seq<char>>) -> Seq<int> {
    keys.map_values(|k: Seq<char>| first_position(columns, k).unwrap())
}

/// What `complete` plans: an empty key list, an unknown key column, then
/// an unknown fill column, or two input rows with the same key texts, are
/// errors; else one row per combination of observed key values.
pub open spec fn complete_plan_spec(
    columns: Seq<Seq<char>>,
    rows: Seq<Seq<ValueView>>,
    keys: Seq<Seq<char>>,
    fills: Seq<Seq<char>>,
) -> Result<Seq<(Seq<ValueView>, bool)>, DiagnosticView> {
    if keys.len() == 0 {
        Err(crate::engine::unsupported_operation_view("complete key list"@))
    } else {
    match first_unknown(columns, keys, keys.len() as int) {
        Some(i) => Err(error_view(1005, "unknown column `"@ + keys[i] + "`"@)),
        None => match first_unknown(columns, fills, fills.len() as int) {
            Some(i) => Err(error_view(1005, "unknown column `"@ + fills[i] + "`"@)),
            None => {
                let idx = key_positions(columns, keys);
                if has_duplicate_keys(rows, idx) {
                    Err(error_view(1208, "complete found duplicate input rows for the same key tuple"@))
                } else {
                    Ok(
                        planned_rows(
                            rows,
                            idx,
                            columns.len() as int,
                            product(Seq::new(keys.len(), |p: int| observed(rows, idx[p], rows.len() as int))),
                        ),
                    )
                }
            },
        },
    }
    }
}

/// The positions of the named columns, or the first unknown name's error.
fn column_indices(table: &Table, names: &Vec<String>) -> (r: Result<Vec<usize>, Diagnostic>)
    ensures
        match first_unknown(strings_view(table.columns@), strings_view(names@), names.len() as int) {
            Some(i) => r matches Err(d) && d@ == error_view(1005, "unknown column `"@ + strings_view(names@)[i] + "`"@),
            None => r matches Ok(v) && v.len() == names.len() && forall|p: int|
                0 <= p < names.len() ==> #[trigger] first_position(strings_view(table.columns@), strings_view(names@)[p])
                    == Some(v@[p] as int) && v@[p] < table.columns.len(),
        },
{
    let ghost cols = strings_view(table.columns@);
    let ghost nv = strings_view(names@);
    let mut out: Vec<usize> = Vec::new();
    let mut k: usize = 0;
    while k < names.len()
        invariant
            k <= names.len(),
            cols == strings_view(table.columns@),
            nv == strings_view(names@),
            first_unknown(cols, nv, k as int) is None,
            out.len() == k,
            forall|p: int| 0 <= p < k ==> #[trigger] first_position(cols, nv[p]) == Some(out@[p] as int) && out@[p] < table.columns.len(),
        decreases names.len() - k,
    {
        match table.column_index(names[k].as_str()) {
            Some(i) => {
                proof {
                    lemma_known_at(cols, nv, k as int);
                }
                out.push(i);
            },
            None => {
                proof {
                    lemma_unknown_at(cols, nv, k as int);
                }
                return Err(unknown_column(names[k].as_str()));
            },
        }
        k += 1;
    }
    Ok(out)
}

/// Every combination of one value from each list, the first list
/// outermost.
fn product_of(lists: &Vec<Vec<Value>>) -> (r: Vec<Vec<Value>>)
    ensures
        vals_view(r@) == product(vals_view(lists@)),
{
    let ghost lv = vals_view(lists@);
    let mut cur: Vec<Vec<Value>> = Vec::new();
    cur.push(Vec::new());
    assert(lv.take(0) =~= Seq::<Seq<ValueView>>::empty());
    assert(vals_view(cur@)[0] =~= Seq::<ValueView>::empty());
    assert(vals_view(cur@) =~= seq![Seq::<ValueView>::empty()]);
    assert(vals_view(cur@) =~= product(lv.take(0)));
    let mut k: usize = 0;
    while k < lists.len()
        invariant
            k <= lists.len(),
            lv == vals_view(lists@),
            vals_view(cur@) == product(lv.take(k as int)),
        decreases lists.len() - k,
    {
        let ghost cv = vals_view(cur@);
        let list = &lists[k];
        let ghost l = lv[k as int];
        assert(l == list@.map_values(|x: Value| x@));
        let mut next: Vec<Vec<Value>> = Vec::new();
        let mut a: usize = 0;
        assert(cv.take(0) =~= Seq::<Seq<ValueView>>::empty());
        while a < cur.len()
            invariant
                a <= cur.len(),
                cv == vals_view(cur@),
                l == list@.map_values(|x: Value| x@),
                vals_view(next@) == extend_all(cv.take(a as int), l),
            decreases cur.len() - a,
        {
            let ghost start = vals_view(next@);
            let mut b: usize = 0;
            assert(start + l.take(0).map_values(|v: ValueView| cv[a as int].push(v)) =~= start);
            while b < list.len()
                invariant
                    a < cur.len(),
                    b <= list.len(),
                    cv == vals_view(cur@),
                    l == list@.map_values(|x: Value| x@),
                    vals_view(next@) == start + l.take(b as int).map_values(|v: ValueView| cv[a as int].push(v)),
                decreases list.len() - b,
            {
                let mut row = clone_values(&cur[a]);
                let ghost before = vals_view(next@);
                let ghost rv = row@.map_values(|x: Value| x@);
                row.push(list[b].duplicate());
                assert(row@.map_values(|x: Value| x@) =~= rv.push(l[b as int]));
                assert(rv == cv[a as int]);
                next.push(row);
                assert(vals_view(next@) =~= before.push(cv[a as int].push(l[b as int])));
                assert(l.take(b + 1).map_values(|v: ValueView| cv[a as int].push(v)) =~= l.take(b as int).map_values(
                    |v: ValueView| cv[a as int].push(v),
                ).push(cv[a as int].push(l[b as int])));
                b += 1;
            }
            assert(l.take(b as int) =~= l);
            assert(cv.take(a + 1).drop_last() =~= cv.take(a as int));
            assert(cv.take(a + 1).last() == cv[a as int]);
            a += 1;
        }
        assert(cv.take(a as int) =~= cv);
        assert(lv.take(k + 1).drop_last() =~= lv.take(k as int));
        assert(lv.take(k + 1).last() == l);
        cur = next;
        k += 1;
    }
    assert(lv.take(k as int) =~= lv);
    cur
}

fn cell_of(row: &Row, c: usize) -> (r: Value)
    ensures
        r@ == cell_at(row_view(*row), c as int),
{
    if c < row.values.len() {
        row.values[c].duplicate()
    } else {
        Value::Null
    }
}

/// The values of column `c`, each text once, in first-appearance order.
fn observed_of(rows: &Vec<Row>, c: usize) -> (r: Vec<Value>)
    ensures
        r@.map_values(|x: Value| x@) == observed(rows_view(rows@), c as int, rows.len() as int),
{
    let ghost rv = rows_view(rows@);
    let mut vals: Vec<Value> = Vec::new();
    let mut texts: Vec<String> = Vec::new();
    let mut n: usize = 0;
    assert(vals@.map_values(|x: Value| x@) =~= observed(rv, c as int, 0));
    assert(strings_view(texts@) =~= texts_of(vals@.map_values(|x: Value| x@)));
    while n < rows.len()
        invariant
            n <= rows.len(),
            rv == rows_view(rows@),
            vals@.map_values(|x: Value| x@) == observed(rv, c as int, n as int),
            strings_view(texts@) == texts_of(vals@.map_values(|x: Value| x@)),
        decreases rows.len() - n,
    {
        let v = cell_of(&rows[n], c);
        let t = v.to_csv_cell();
        let ghost o = vals@.map_values(|x: Value| x@);
        assert(rv[n as int] == row_view(rows@[n as int]));
        if crate::engine::position_of(texts.as_slice(), &t).is_none() {
            proof {
                if texts_of(o).contains(t@) {
                    let j = choose|j: int| 0 <= j < texts_of(o).len() && texts_of(o)[j] == t@;
                    assert(strings_view(texts@)[j] == t@);
                }
            }
            let ghost tv = strings_view(texts@);
            let ghost tt = t@;
            texts.push(t);
            vals.push(v);
            assert(vals@.map_values(|x: Value| x@) =~= o.push(v@));
            assert(strings_view(texts@) =~= tv.push(tt));
            assert(texts_of(o.push(v@)) =~= texts_of(o).push(cell_text(v@)));
        } else {
            proof {
                assert(first_position(strings_view(texts@), t@) is Some);
                assert(exists|j: int| 0 <= j < strings_view(texts@).len() && strings_view(texts@)[j] == t@);
                let j = choose|j: int| 0 <= j < strings_view(texts@).len() && strings_view(texts@)[j] == t@;
                assert(texts_of(o)[j] == t@);
                assert(texts_of(o).contains(cell_text(v@)));
            }
        }
        n += 1;
    }
    vals
}

/// The texts of a row's key cells.
fn key_texts_of(row: &Row, idx: &Vec<usize>) -> (r: Vec<String>)
    ensures
        strings_view(r@) == key_texts(row_view(*row), idx@.map_values(|i: usize| i as int)),
{
    let ghost iv = idx@.map_values(|i: usize| i as int);
    let mut out: Vec<String> = Vec::new();
    let mut p: usize = 0;
    while p < idx.len()
        invariant
            p <= idx.len(),
            iv == idx@.map_values(|i: usize| i as int),
            strings_view(out@) == key_texts(row_view(*row), iv).take(p as int),
        decreases idx.len() - p,
    {
        let ghost before = out@;
        out.push(cell_of(row, idx[p]).to_csv_cell());
        assert(strings_view(out@) =~= strings_view(before).push(cell_text(cell_at(row_view(*row), iv[p as int]))));
        assert(key_texts(row_view(*row), iv).take(p + 1) =~= key_texts(row_view(*row), iv).take(p as int).push(
            cell_text(cell_at(row_view(*row), iv[p as int])),
        ));
        p += 1;
    }
    assert(key_texts(row_view(*row), iv).take(p as int) =~= key_texts(row_view(*row), iv));
    out
}

/// Whether two lists of strings are equal.
pub(crate) fn strings_same(a: &Vec<String>, b: &Vec<String>) -> (r: bool)
    ensures
        r == (strings_view(a@) == strings_view(b@)),
{
    if a.len() != b.len() {
        proof {
            if strings_view(a@) == strings_view(b@) {
                assert(strings_view(a@).len() == strings_view(b@).len());
            }
        }
        return false;
    }
    let mut i: usize = 0;
    while i < a.len()
        invariant
            i <= a.len(),
            a.len() == b.len(),
            forall|j: int| 0 <= j < i ==> a@[j]@ == b@[j]@,
        decreases a.len() - i,
    {
        if !string_eq(&a[i], &b[i]) {
            proof {
                if strings_view(a@) == strings_view(b@) {
                    assert(strings_view(a@)[i as int] == strings_view(b@)[i as int]);
                }
            }
            return false;
        }
        i += 1;
    }
    assert(strings_view(a@) =~= strings_view(b@));
    true
}

pub open spec fn lists_view(v: Seq<Vec<String>>) -> Seq<Seq<Seq<char>>> {
    v.map_values(|k: Vec<String>| strings_view(k@))
}

/// Whether two of the lists are equal.
fn any_duplicate(keys: &Vec<Vec<String>>) -> (r: bool)
    ensures
        r == exists|a: int, b: int| 0 <= a < b < keys.len() && lists_view(keys@)[a] == lists_view(keys@)[b],
{
    let ghost kv = lists_view(keys@);
    let mut b: usize = 0;
    while b < keys.len()
        invariant
            b <= keys.len(),
            kv == lists_view(keys@),
            forall|x: int, y: int| 0 <= x < y < b ==> kv[x] != kv[y],
        decreases keys.len() - b,
    {
        let mut a: usize = 0;
        while a < b
            invariant
                a <= b < keys.len(),
                kv == lists_view(keys@),
                forall|x: int, y: int| 0 <= x < y < b ==> kv[x] != kv[y],
                forall|x: int| 0 <= x < a ==> kv[x] != kv[b as int],
            decreases b - a,
        {
            if strings_same(&keys[a], &keys[b]) {
                assert(kv[a as int] == kv[b as int]);
                return true;
            }
            a += 1;
        }
        b += 1;
    }
    false
}

/// The list equal to `t`, where there is one.
fn find_list(keys: &Vec<Vec<String>>, t: &Vec<String>) -> (r: Option<usize>)
    ensures
        match r {
            Some(i) => i < keys.len() && lists_view(keys@)[i as int] == strings_view(t@),
            None => forall|i: int| 0 <= i < keys.len() ==> lists_view(keys@)[i] != strings_view(t@),
        },
{
    let mut i: usize = 0;
    while i < keys.len()
        invariant
            i <= keys.len(),
            forall|j: int| 0 <= j < i ==> lists_view(keys@)[j] != strings_view(t@),
        decreases keys.len() - i,
    {
        if strings_same(&keys[i], t) {
            return Some(i);
        }
        i += 1;
    }
    None
}

/// The last position holding `j`.
fn last_pos_of(idx: &Vec<usize>, j: usize) -> (r: Option<usize>)
    ensures
        match last_pos(idx@.map_values(|i: usize| i as int), j as int) {
            Some(p) => r == Some(p as usize),
            None => r is None,
        },
{
    let ghost iv = idx@.map_values(|i: usize| i as int);
    let mut n: usize = idx.len();
    assert(iv.take(n as int) =~= iv);
    while n > 0
        invariant
            n <= idx.len(),
            iv == idx@.map_values(|i: usize| i as int),
            last_pos(iv, j as int) == last_pos(iv.take(n as int), j as int),
        decreases n,
    {
        if idx[n - 1] == j {
            return Some(n - 1);
        }
        assert(iv.take(n as int).drop_last() =~= iv.take(n - 1));
        n -= 1;
    }
    None
}

proof fn lemma_last_pos_range(idx: Seq<int>, j: int)
    ensures
        match last_pos(idx, j) {
            Some(p) => 0 <= p < idx.len(),
            None => true,
        },
    decreases idx.len(),
{
    if idx.len() > 0 {
        lemma_last_pos_range(idx.drop_last(), j);
    }
}

/// A new row for a combination of key values.
fn base_row_of(idx: &Vec<usize>, ncols: usize, t: &Vec<Value>) -> (r: Row)
    requires
        idx.len() == t.len(),
    ensures
        row_view(r) == base_row(idx@.map_values(|i: usize| i as int), ncols as int, t@.map_values(|x: Value| x@)),
{
    let ghost want = base_row(idx@.map_values(|i: usize| i as int), ncols as int, t@.map_values(|x: Value| x@));
    let mut values: Vec<Value> = Vec::new();
    let mut j: usize = 0;
    while j < ncols
        invariant
            j <= ncols,
            idx.len() == t.len(),
            want == base_row(idx@.map_values(|i: usize| i as int), ncols as int, t@.map_values(|x: Value| x@)),
            values.len() == j,
            forall|q: int| 0 <= q < j ==> (#[trigger] values@[q])@ == want[q],
        decreases ncols - j,
    {
        proof {
            lemma_last_pos_range(idx@.map_values(|i: usize| i as int), j as int);
        }
        let v = match last_pos_of(idx, j) {
            Some(p) => t[p].duplicate(),
            None => Value::Null,
        };
        values.push(v);
        j += 1;
    }
    let r = Row { values };
    assert(row_view(r) =~= want);
    r
}

fn texts_of_values(t: &Vec<Value>) -> (r: Vec<String>)
    ensures
        strings_view(r@) == texts_of(t@.map_values(|x: Value| x@)),
{
    let mut out: Vec<String> = Vec::new();
    let mut i: usize = 0;
    while i < t.len()
        invariant
            i <= t.len(),
            out.len() == i,
            forall|j: int| 0 <= j < i ==> (#[trigger] out@[j])@ == cell_text(t@[j]@),
        decreases t.len() - i,
    {
        out.push(t[i].to_csv_cell());
        i += 1;
    }
    assert(strings_view(out@) =~= texts_of(t@.map_values(|x: Value| x@)));
    out
}

fn e1208(message: &str) -> (d: Diagnostic)
    ensures
        d@ == error_view(1208, message@),
{
    Diagnostic::error(E1208(), message, Span::zero())
}

proof fn lemma_extend_all_len(prefixes: Seq<Seq<ValueView>>, vals: Seq<ValueView>, n: nat)
    requires
        forall|q: int| 0 <= q < prefixes.len() ==> (#[trigger] prefixes[q]).len() == n,
    ensures
        forall|q: int| 0 <= q < extend_all(prefixes, vals).len() ==> (#[trigger] extend_all(prefixes, vals)[q]).len() == n + 1,
    decreases prefixes.len(),
{
    if prefixes.len() > 0 {
        lemma_extend_all_len(prefixes.drop_last(), vals, n);
        let e = extend_all(prefixes.drop_last(), vals);
        let m = vals.map_values(|v: ValueView| prefixes.last().push(v));
        assert forall|q: int| 0 <= q < extend_all(prefixes, vals).len() implies (#[trigger] extend_all(prefixes, vals)[q]).len() == n + 1 by {
            if q >= e.len() {
                assert(extend_all(prefixes, vals)[q] == m[q - e.len()]);
            } else {
                assert(extend_all(prefixes, vals)[q] == e[q]);
            }
        }
    }
}

proof fn lemma_product_len(lists: Seq<Seq<ValueView>>)
    ensures
        forall|q: int| 0 <= q < product(lists).len() ==> (#[trigger] product(lists)[q]).len() == lists.len(),
    decreases lists.len(),
{
    if lists.len() > 0 {
        lemma_product_len(lists.drop_last());
        lemma_extend_all_len(product(lists.drop_last()), lists.last(), (lists.len() - 1) as nat);
    }
}

fn plan_rows(table: &Table, idx: &Vec<usize>, row_keys: &Vec<Vec<String>>, tuples: &Vec<Vec<Value>>) -> (r: (Vec<Row>, Vec<bool>))
    requires
        row_keys.len() == table.rows.len(),
        forall|q: int| 0 <= q < row_keys.len() ==> #[trigger] lists_view(row_keys@)[q] == key_texts(
            rows_view(table.rows@)[q],
            idx@.map_values(|i: usize| i as int),
        ),
        forall|a: int, b: int|
            0 <= a < b < table.rows.len() ==> key_texts(rows_view(table.rows@)[a], idx@.map_values(|i: usize| i as int))
                != key_texts(rows_view(table.rows@)[b], idx@.map_values(|i: usize| i as int)),
        forall|q: int| 0 <= q < tuples.len() ==> (#[trigger] tuples@[q]).len() == idx.len(),
    ensures
        r.0.len() == tuples.len(),
        r.1.len() == tuples.len(),
        forall|q: int|
            0 <= q < tuples.len() ==> row_view(#[trigger] r.0@[q]) == planned_rows(
                rows_view(table.rows@),
                idx@.map_values(|i: usize| i as int),
                table.columns.len() as int,
                vals_view(tuples@),
            )[q].0 && r.1@[q] == planned_rows(
                rows_view(table.rows@),
                idx@.map_values(|i: usize| i as int),
                table.columns.len() as int,
                vals_view(tuples@),
            )[q].1,
{
    let ghost rv = rows_view(table.rows@);
    let ghost iv = idx@.map_values(|i: usize| i as int);
    let ghost tv = vals_view(tuples@);
    let ghost want = planned_rows(rv, iv, table.columns.len() as int, tv);
    let mut out_rows: Vec<Row> = Vec::new();
    let mut marks: Vec<bool> = Vec::new();
    let mut t: usize = 0;
    while t < tuples.len()
        invariant
            t <= tuples.len(),
            rv == rows_view(table.rows@),
            iv == idx@.map_values(|i: usize| i as int),
            tv == vals_view(tuples@),
            want == planned_rows(rv, iv, table.columns.len() as int, tv),
            row_keys.len() == table.rows.len(),
            forall|q: int| 0 <= q < row_keys.len() ==> #[trigger] lists_view(row_keys@)[q] == key_texts(rv[q], iv),
            forall|a: int, b: int| 0 <= a < b < rv.len() ==> key_texts(rv[a], iv) != key_texts(rv[b], iv),
            forall|q: int| 0 <= q < tuples.len() ==> (#[trigger] tuples@[q]).len() == idx.len(),
            out_rows.len() == t,
            marks.len() == t,
            forall|q: int| 0 <= q < t ==> row_view(#[trigger] out_rows@[q]) == want[q].0 && marks@[q] == want[q].1,
        decreases tuples.len() - t,
    {
        let texts = texts_of_values(&tuples[t]);
        let ghost tt = tv[t as int];
        assert(tt == tuples@[t as int]@.map_values(|x: Value| x@));
        match find_list(row_keys, &texts) {
            Some(r) => {
                proof {
                    assert(lists_view(row_keys@)[r as int] == key_texts(rv[r as int], iv));
                    assert(key_texts(rv[r as int], iv) == texts_of(tt));
                    assert(exists|x: int| 0 <= x < rv.len() && key_texts(rv[x], iv) == texts_of(tt));
                    let c = choose|x: int| 0 <= x < rv.len() && key_texts(rv[x], iv) == texts_of(tt);
                    if c != r as int {
                        if c < r as int {
                            assert(key_texts(rv[c], iv) != key_texts(rv[r as int], iv));
                        } else {
                            assert(key_texts(rv[r as int], iv) != key_texts(rv[c], iv));
                        }
                    }
                    assert(matching_row(rv, iv, tt) == Some(r as int));
                }
                let row = Row { values: clone_values(&table.rows[r].values) };
                assert(row_view(row) == rv[r as int]);
                out_rows.push(row);
                marks.push(false);
            },
            None => {
                proof {
                    assert forall|x: int| 0 <= x < rv.len() implies key_texts(rv[x], iv) != texts_of(tt) by {
                        assert(lists_view(row_keys@)[x] == key_texts(rv[x], iv));
                    }
                    assert(matching_row(rv, iv, tt) is None);
                }
                let row = base_row_of(idx, table.columns.len(), &tuples[t]);
                out_rows.push(row);
                marks.push(true);
            },
        }
        t += 1;
    }
    (out_rows, marks)
}

/// Plans `complete` of a row-runtime table over the key columns `keys`:
/// one row per combination of the key values seen, first key outermost,
/// each the input row with those key texts, or a new row (marked `true`)
/// holding the key values and nulls, which the fill columns `fills` are
/// then set in by `complete_fill`.
pub fn complete_plan(table: &Table, keys: &Vec<String>, fills: &Vec<String>) -> (r: Result<
    (Vec<Row>, Vec<bool>),
    Diagnostic,
>)
    ensures
        match complete_plan_spec(strings_view(table.columns@), rows_view(table.rows@), strings_view(keys@), strings_view(fills@)) {
            Ok(p) => r matches Ok(out) && out.0.len() == p.len() && out.1.len() == p.len() && forall|i: int|
                0 <= i < p.len() ==> row_view(#[trigger] out.0@[i]) == p[i].0 && out.1@[i] == p[i].1,
            Err(d) => r matches Err(e) && e@ == d,
        },
{
    let ghost cols = strings_view(table.columns@);
    let ghost rv = rows_view(table.rows@);
    let ghost kv = strings_view(keys@);
    if keys.len() == 0 {
        return Err(crate::engine::unsupported_native_operation("complete key list"));
    }
    let idx = match column_indices(table, keys) {
        Ok(idx) => idx,
        Err(d) => return Err(d),
    };
    match column_indices(table, fills) {
        Ok(_) => {},
        Err(d) => return Err(d),
    }
    let ghost iv = idx@.map_values(|i: usize| i as int);
    assert(iv =~= key_positions(cols, kv));
    let mut row_keys: Vec<Vec<String>> = Vec::new();
    let mut n: usize = 0;
    while n < table.rows.len()
        invariant
            n <= table.rows.len(),
            rv == rows_view(table.rows@),
            iv == idx@.map_values(|i: usize| i as int),
            row_keys.len() == n,
            forall|q: int| 0 <= q < n ==> #[trigger] lists_view(row_keys@)[q] == key_texts(rv[q], iv),
        decreases table.rows.len() - n,
    {
        let k = key_texts_of(&table.rows[n], &idx);
        let ghost before = row_keys@;
        row_keys.push(k);
        assert(lists_view(row_keys@) =~= lists_view(before).push(strings_view(k@)));
        n += 1;
    }
    if any_duplicate(&row_keys) {
        proof {
            let (a, b) = choose|a: int, b: int|
                0 <= a < b < row_keys.len() && lists_view(row_keys@)[a] == lists_view(row_keys@)[b];
            assert(key_texts(rv[a], iv) == key_texts(rv[b], iv));
            assert(has_duplicate_keys(rv, iv));
        }
        return Err(e1208("complete found duplicate input rows for the same key tuple"));
    }
    proof {
        assert forall|a: int, b: int| 0 <= a < b < rv.len() implies key_texts(rv[a], iv) != key_texts(rv[b], iv) by {
            assert(lists_view(row_keys@)[a] == key_texts(rv[a], iv));
            assert(lists_view(row_keys@)[b] == key_texts(rv[b], iv));
        }
    }
    let ghost want_lists = Seq::new(keys@.len(), |p: int| observed(rv, iv[p], rv.len() as int));
    let mut lists: Vec<Vec<Value>> = Vec::new();
    let mut p: usize = 0;
    while p < idx.len()
        invariant
            p <= idx.len(),
            idx.len() == keys.len(),
            rv == rows_view(table.rows@),
            iv == idx@.map_values(|i: usize| i as int),
            want_lists == Seq::new(keys@.len(), |p: int| observed(rv, iv[p], rv.len() as int)),
            lists.len() == p,
            forall|q: int| 0 <= q < p ==> #[trigger] vals_view(lists@)[q] == want_lists[q],
        decreases idx.len() - p,
    {
        let o = observed_of(&table.rows, idx[p]);
        let ghost before = lists@;
        lists.push(o);
        assert(vals_view(lists@) =~= vals_view(before).push(o@.map_values(|x: Value| x@)));
        p += 1;
    }
    assert(vals_view(lists@) =~= want_lists);
    let tuples = product_of(&lists);
    proof {
        lemma_product_len(vals_view(lists@));
        assert forall|q: int| 0 <= q < tuples.len() implies (#[trigger] tuples@[q]).len() == idx.len() by {
            assert(vals_view(tuples@)[q].len() == tuples@[q].len());
        }
    }
    let (out_rows, marks) = plan_rows(table, &idx, &row_keys, &tuples);
    Ok((out_rows, marks))
}

/// A new row with its fill values: under each column the value of the
/// last fill naming it, else the row's cell.
pub open spec fn filled_row(base: Seq<ValueView>, pos: Seq<int>, vals: Seq<Result<ValueView, DiagnosticView>>) -> Seq<ValueView> {
    Seq::new(
        base.len(),
        |j: int|
            match last_pos(pos, j) {
                Some(f) => ok_value(vals[f]),
                None => base[j],
            },
    )
}

pub open spec fn planned_view(rows: Seq<Row>, missing: Seq<bool>) -> Seq<(Seq<ValueView>, bool)> {
    Seq::new(rows.len(), |i: int| (row_view(rows[i]), missing[i]))
}

/// What `complete` gives once the fills of its new rows are evaluated (in
/// row order, each new row's fills in order; other rows have none): the
/// first failed fill; else the columns and the planned rows, each new one
/// with its fill values.
pub open spec fn complete_fill_spec(
    columns: Seq<Seq<char>>,
    planned: Seq<(Seq<ValueView>, bool)>,
    fills: Seq<Seq<char>>,
    evaluated: Seq<Seq<Result<ValueView, DiagnosticView>>>,
) -> Result<(Seq<Seq<char>>, Seq<Seq<ValueView>>), DiagnosticView> {
    match first_row_error(evaluated) {
        Some(d) => Err(d),
        None => {
            let pos = key_positions(columns, fills);
            Ok(
                (
                    columns,
                    Seq::new(
                        planned.len(),
                        |i: int|
                            if planned[i].1 {
                                filled_row(planned[i].0, pos, evaluated[i])
                            } else {
                                planned[i].0
                            },
                    ),
                ),
            )
        },
    }
}

fn fill_row(row: &Row, pos: &Vec<usize>, vals: &Vec<Result<Value, Diagnostic>>) -> (r: Row)
    requires
        vals.len() == pos.len(),
    ensures
        row_view(r) == filled_row(
            row_view(*row),
            pos@.map_values(|i: usize| i as int),
            vals@.map_values(|c: Result<Value, Diagnostic>| cell_result_view(c)),
        ),
{
    let ghost want = filled_row(
        row_view(*row),
        pos@.map_values(|i: usize| i as int),
        vals@.map_values(|c: Result<Value, Diagnostic>| cell_result_view(c)),
    );
    let mut values: Vec<Value> = Vec::new();
    let mut j: usize = 0;
    while j < row.values.len()
        invariant
            j <= row.values.len(),
            vals.len() == pos.len(),
            want == filled_row(
                row_view(*row),
                pos@.map_values(|i: usize| i as int),
                vals@.map_values(|c: Result<Value, Diagnostic>| cell_result_view(c)),
            ),
            values.len() == j,
            forall|q: int| 0 <= q < j ==> (#[trigger] values@[q])@ == want[q],
        decreases row.values.len() - j,
    {
        proof {
            lemma_last_pos_range(pos@.map_values(|i: usize| i as int), j as int);
        }
        let v = match last_pos_of(pos, j) {
            Some(f) => match &vals[f] {
                Ok(x) => x.duplicate(),
                Err(_) => Value::Null,
            },
            None => row.values[j].duplicate(),
        };
        values.push(v);
        j += 1;
    }
    let r = Row { values };
    assert(row_view(r) =~= want);
    r
}

/// Finishes `complete`: the planned rows from `complete_plan`, with the
/// fill values of each new row (`missing`) set in, given each new row's
/// evaluated fills in order and nothing for the other rows.
pub fn complete_fill(
    columns: Vec<String>,
    rows: Vec<Row>,
    missing: &Vec<bool>,
    fills: &Vec<String>,
    evaluated: Vec<Vec<Result<Value, Diagnostic>>>,
) -> (r: Result<Table, Diagnostic>)
    requires
        rows.len() == missing.len(),
        evaluated.len() == rows.len(),
        forall|i: int| 0 <= i < evaluated.len() ==> (#[trigger] evaluated@[i]).len() == if missing@[i] {
            fills.len()
        } else {
            0
        },
        forall|f: int| 0 <= f < fills.len() ==> strings_view(columns@).contains(#[trigger] fills@[f]@),
    ensures
        table_result_view(r) == complete_fill_spec(
            strings_view(columns@),
            planned_view(rows@, missing@),
            strings_view(fills@),
            evaluated_view(evaluated@),
        ),
{
    let ghost ev = evaluated_view(evaluated@);
    let mut i: usize = 0;
    assert(ev.take(0) =~= Seq::<Seq<Result<ValueView, DiagnosticView>>>::empty());
    while i < evaluated.len()
        invariant
            i <= evaluated.len(),
            ev == evaluated_view(evaluated@),
            first_row_error(ev.take(i as int)) is None,
        decreases evaluated.len() - i,
    {
        let ghost cells = ev[i as int];
        let mut k: usize = 0;
        assert(cells.take(0) =~= Seq::<Result<ValueView, DiagnosticView>>::empty());
        while k < evaluated[i].len()
            invariant
                i < evaluated.len(),
                k <= evaluated@[i as int].len(),
                ev == evaluated_view(evaluated@),
                cells == ev[i as int],
                first_row_error(ev.take(i as int)) is None,
                first_error(cells.take(k as int)) is None,
            decreases evaluated@[i as int].len() - k,
        {
            assert(cells.take(k + 1).drop_last() =~= cells.take(k as int));
            assert(cells[k as int] == cell_result_view(evaluated@[i as int]@[k as int]));
            if let Err(d) = &evaluated[i][k] {
                proof {
                    assert(first_error(cells.take(k + 1)) == Some(d@));
                    lemma_first_error_settles(cells, k + 1);
                    assert(ev.take(i + 1).drop_last() =~= ev.take(i as int));
                    assert(first_row_error(ev.take(i + 1)) == Some(d@));
                    lemma_first_row_error_settles(ev, i + 1);
                }
                return Err(d.duplicate());
            }
            k += 1;
        }
        assert(cells.take(k as int) =~= cells);
        assert(ev.take(i + 1).drop_last() =~= ev.take(i as int));
        i += 1;
    }
    assert(ev.take(i as int) =~= ev);
    let ghost cols = strings_view(columns@);
    let ghost fv = strings_view(fills@);
    let mut pos: Vec<usize> = Vec::new();
    let mut f: usize = 0;
    while f < fills.len()
        invariant
            f <= fills.len(),
            cols == strings_view(columns@),
            fv == strings_view(fills@),
            forall|g: int| 0 <= g < fills.len() ==> cols.contains(#[trigger] fills@[g]@),
            pos.len() == f,
            forall|g: int| 0 <= g < f ==> (#[trigger] pos@[g]) as int == first_position(cols, fv[g]).unwrap(),
        decreases fills.len() - f,
    {
        assert(fv[f as int] == fills@[f as int]@);
        match crate::engine::position_of(columns.as_slice(), &fills[f]) {
            Some(c) => pos.push(c),
            None => {
                proof {
                    assert(cols.contains(fills@[f as int]@));
                    let j = choose|j: int| 0 <= j < cols.len() && cols[j] == fills@[f as int]@;
                    assert(exists|j: int| 0 <= j < cols.len() && cols[j] == fills@[f as int]@);
                }
                pos.push(0);
            },
        }
        f += 1;
    }
    let ghost pv = pos@.map_values(|x: usize| x as int);
    assert(pv =~= key_positions(cols, fv));
    let ghost planned = planned_view(rows@, missing@);
    let mut out: Vec<Row> = Vec::new();
    let mut t: usize = 0;
    while t < rows.len()
        invariant
            t <= rows.len(),
            rows.len() == missing.len(),
            evaluated.len() == rows.len(),
            forall|i: int| 0 <= i < evaluated.len() ==> (#[trigger] evaluated@[i]).len() == if missing@[i] {
                fills.len()
            } else {
                0
            },
            pos.len() == fills.len(),
            ev == evaluated_view(evaluated@),
            pv == pos@.map_values(|x: usize| x as int),
            planned == planned_view(rows@, missing@),
            out.len() == t,
            forall|q: int|
                0 <= q < t ==> row_view(#[trigger] out@[q]) == if planned[q].1 {
                    filled_row(planned[q].0, pv, ev[q])
                } else {
                    planned[q].0
                },
        decreases rows.len() - t,
    {
        if missing[t] {
            assert(evaluated@[t as int].len() == pos.len());
            let row = fill_row(&rows[t], &pos, &evaluated[t]);
            out.push(row);
        } else {
            let row = Row { values: clone_values(&rows[t].values) };
            out.push(row);
        }
        t += 1;
    }
    let r = Table { columns, rows: out };
    assert(rows_view(r.rows@) =~= Seq::new(
        planned.len(),
        |i: int|
            if planned[i].1 {
                filled_row(planned[i].0, pv, ev[i])
            } else {
                planned[i].0
            },
    ));
    Ok(r)
}

} // verus!
