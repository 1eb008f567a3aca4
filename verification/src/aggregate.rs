//! Aggregation after `group_by` in the row runtime: the rows grouped by the
//! texts of their key cells, groups in ascending key order, each group's
//! rows in input order; and the output table once each group's aggregate
//! items are evaluated.
use vstd::prelude::*;

use crate::diagnostic::{Diagnostic, DiagnosticView};
use crate::engine::first_position;
use crate::frame::{cell_at, row_view, rows_view, Row, Table};
use crate::mutate::{cell_result_view, evaluated_view, first_error, first_row_error, lemma_first_error_settles, lemma_first_row_error_settles};
use crate::pivot::table_result_view;
use crate::text::{chars_of, copy_string, copy_strings, strings_view};
use crate::value::{cell_text, Value, ValueView};

verus! {

/// Whether text `a` sorts before text `b`, character by character.
pub open spec fn text_lt(a: Seq<char>, b: Seq<char>) -> bool
    decreases a.len(),
{
    if a.len() == 0 {
        b.len() > 0
    } else if b.len() == 0 {
        false
    } else if a[0] != b[0] {
        (a[0] as u32) < (b[0] as u32)
    } else {
        text_lt(a.drop_first(), b.drop_first())
    }
}

/// Whether key `a` sorts before key `b`, text by text.
pub open spec fn key_lt(a: Seq<Seq<char>>, b: Seq<Seq<char>>) -> bool
    decreases a.len(),
{
    if a.len() == 0 {
        b.len() > 0
    } else if b.len() == 0 {
        false
    } else if a[0] != b[0] {
        text_lt(a[0], b[0])
    } else {
        key_lt(a.drop_first(), b.drop_first())
    }
}

proof fn lemma_char_u32_injective(a: char, b: char)
    requires
        a != b,
    ensures
        (a as u32) != (b as u32),
{
}

proof fn lemma_text_lt_order(a: Seq<char>, b: Seq<char>, c: Seq<char>)
    ensures
        !text_lt(a, a),
        a != b ==> text_lt(a, b) || text_lt(b, a),
        text_lt(a, b) ==> !text_lt(b, a),
        text_lt(a, b) && text_lt(b, c) ==> text_lt(a, c),
    decreases a.len() + b.len() + c.len(),
{
    if a.len() > 0 && b.len() > 0 && c.len() > 0 {
        lemma_text_lt_order(a.drop_first(), b.drop_first(), c.drop_first());
        if a[0] != b[0] {
            lemma_char_u32_injective(a[0], b[0]);
        }
        if a[0] == b[0] && a != b {
            assert(a.drop_first() != b.drop_first()) by {
                if a.drop_first() == b.drop_first() {
                    assert(a =~= seq![a[0]] + a.drop_first());
                    assert(b =~= seq![b[0]] + b.drop_first());
                }
            }
        }
    } else if a.len() > 0 && b.len() > 0 {
        lemma_text_lt_order(a.drop_first(), b.drop_first(), c);
        if a[0] != b[0] {
            lemma_char_u32_injective(a[0], b[0]);
        }
        if a[0] == b[0] && a != b {
            assert(a.drop_first() != b.drop_first()) by {
                if a.drop_first() == b.drop_first() {
                    assert(a =~= seq![a[0]] + a.drop_first());
                    assert(b =~= seq![b[0]] + b.drop_first());
                }
            }
        }
    } else if a.len() > 0 {
        lemma_text_lt_order(a.drop_first(), b, c);
    } else if a.len() == 0 && b.len() == 0 {
        assert(a =~= b);
    }
}

proof fn lemma_key_lt_order(a: Seq<Seq<char>>, b: Seq<Seq<char>>, c: Seq<Seq<char>>)
    ensures
        !key_lt(a, a),
        a != b ==> key_lt(a, b) || key_lt(b, a),
        key_lt(a, b) ==> !key_lt(b, a),
        key_lt(a, b) && key_lt(b, c) ==> key_lt(a, c),
    decreases a.len() + b.len() + c.len(),
{
    if a.len() > 0 {
        lemma_text_lt_order(a[0], a[0], a[0]);
    }
    if a.len() > 0 && b.len() > 0 {
        lemma_text_lt_order(a[0], b[0], b[0]);
        lemma_text_lt_order(b[0], a[0], a[0]);
        if c.len() > 0 {
            lemma_text_lt_order(a[0], b[0], c[0]);
            lemma_key_lt_order(a.drop_first(), b.drop_first(), c.drop_first());
        } else {
            lemma_key_lt_order(a.drop_first(), b.drop_first(), c);
        }
        if a[0] == b[0] && a != b {
            assert(a.drop_first() != b.drop_first()) by {
                if a.drop_first() == b.drop_first() {
                    assert(a =~= seq![a[0]] + a.drop_first());
                    assert(b =~= seq![b[0]] + b.drop_first());
                }
            }
        }
    } else if a.len() > 0 {
        lemma_key_lt_order(a.drop_first(), b, c);
    } else if a.len() == 0 && b.len() == 0 {
        assert(a =~= b);
    }
}

fn text_less(a: &String, b: &String) -> (r: bool)
    ensures
        r == text_lt(a@, b@),
{
    let ca = chars_of(a.as_str());
    let cb = chars_of(b.as_str());
    let mut i: usize = 0;
    assert(ca@.skip(0) =~= ca@);
    assert(cb@.skip(0) =~= cb@);
    while i < ca.len() && i < cb.len() && ca[i] == cb[i]
        invariant
            i <= ca.len(),
            i <= cb.len(),
            text_lt(a@, b@) == text_lt(ca@.skip(i as int), cb@.skip(i as int)),
            ca@ == a@,
            cb@ == b@,
        decreases ca.len() - i,
    {
        assert(ca@.skip(i as int).drop_first() =~= ca@.skip(i + 1));
        assert(cb@.skip(i as int).drop_first() =~= cb@.skip(i + 1));
        i += 1;
    }
    if i == ca.len() {
        i < cb.len()
    } else if i == cb.len() {
        false
    } else {
        (ca[i] as u32) < (cb[i] as u32)
    }
}

fn key_less(a: &Vec<String>, b: &Vec<String>) -> (r: bool)
    ensures
        r == key_lt(strings_view(a@), strings_view(b@)),
{
    let ghost av = strings_view(a@);
    let ghost bv = strings_view(b@);
    let mut i: usize = 0;
    assert(av.skip(0) =~= av);
    assert(bv.skip(0) =~= bv);
    while i < a.len() && i < b.len() && crate::text::string_eq(&a[i], &b[i])
        invariant
            i <= a.len(),
            i <= b.len(),
            av == strings_view(a@),
            bv == strings_view(b@),
            key_lt(av, bv) == key_lt(av.skip(i as int), bv.skip(i as int)),
        decreases a.len() - i,
    {
        assert(av.skip(i as int)[0] == a@[i as int]@);
        assert(av.skip(i as int).drop_first() =~= av.skip(i + 1));
        assert(bv.skip(i as int).drop_first() =~= bv.skip(i + 1));
        i += 1;
    }
    if i == a.len() {
        i < b.len()
    } else if i == b.len() {
        false
    } else {
        assert(av.skip(i as int)[0] == a@[i as int]@);
        assert(bv.skip(i as int)[0] == b@[i as int]@);
        text_less(&a[i], &b[i])
    }
}

/// A row's cell under the first column named `name`, or null.
pub open spec fn named_cell(columns: Seq<Seq<char>>, row: Seq<ValueView>, name: Seq<char>) -> ValueView {
    match first_position(columns, name) {
        Some(i) => cell_at(row, i),
        None => ValueView::Null,
    }
}

/// The texts of a row's cells under the group columns.
pub open spec fn group_key(columns: Seq<Seq<char>>, row: Seq<ValueView>, keys: Seq<Seq<char>>) -> Seq<Seq<char>> {
    keys.map_values(|k: Seq<char>| cell_text(named_cell(columns, row, k)))
}

/// Whether some group holds row `i`.
pub open spec fn row_grouped(groups: Seq<(Seq<Seq<char>>, Seq<usize>)>, i: usize) -> bool {
    exists|g: int| 0 <= g < groups.len() && #[trigger] groups[g].1.contains(i)
}

pub open spec fn increasing(v: Seq<usize>) -> bool {
    forall|a: int, b: int| 0 <= a < b < v.len() ==> v[a] < v[b]
}

/// What grouping gives: with no group columns, one group of every row;
/// else one group per distinct key, in ascending key order, holding the
/// rows with that key in input order.
pub open spec fn groups_ok(
    columns: Seq<Seq<char>>,
    rows: Seq<Seq<ValueView>>,
    keys: Seq<Seq<char>>,
    groups: Seq<(Seq<Seq<char>>, Seq<usize>)>,
) -> bool {
    if keys.len() == 0 {
        groups.len() == 1 && groups[0].0 == Seq::<Seq<char>>::empty() && groups[0].1.len() == rows.len()
            && forall|i: int| 0 <= i < rows.len() ==> groups[0].1[i] == i
    } else {
        &&& forall|g: int, h: int| 0 <= g < h < groups.len() ==> key_lt(groups[g].0, groups[h].0)
        &&& forall|g: int|
            0 <= g < groups.len() ==> increasing(#[trigger] groups[g].1) && groups[g].1.len() > 0 && forall|q: int|
                0 <= q < groups[g].1.len() ==> groups[g].1[q] < rows.len() && group_key(
                    columns,
                    rows[groups[g].1[q] as int],
                    keys,
                ) == groups[g].0
        &&& forall|i: usize| i < rows.len() ==> #[trigger] row_grouped(groups, i)
    }
}

pub open spec fn groups_view(groups: Seq<(Vec<String>, Vec<usize>)>) -> Seq<(Seq<Seq<char>>, Seq<usize>)> {
    groups.map_values(|g: (Vec<String>, Vec<usize>)| (strings_view(g.0@), g.1@))
}

fn named_cell_of(table: &Table, row: &Row, name: &str) -> (r: Value)
    ensures
        r@ == named_cell(strings_view(table.columns@), row_view(*row), name@),
{
    match table.column_index(name) {
        Some(i) => {
            if i < row.values.len() {
                row.values[i].duplicate()
            } else {
                Value::Null
            }
        },
        None => Value::Null,
    }
}

fn group_key_of(table: &Table, row: &Row, keys: &Vec<String>) -> (r: Vec<String>)
    ensures
        strings_view(r@) == group_key(strings_view(table.columns@), row_view(*row), strings_view(keys@)),
{
    let ghost want = group_key(strings_view(table.columns@), row_view(*row), strings_view(keys@));
    let mut out: Vec<String> = Vec::new();
    let mut p: usize = 0;
    while p < keys.len()
        invariant
            p <= keys.len(),
            want == group_key(strings_view(table.columns@), row_view(*row), strings_view(keys@)),
            out.len() == p,
            forall|q: int| 0 <= q < p ==> (#[trigger] out@[q])@ == want[q],
        decreases keys.len() - p,
    {
        let ghost cols = strings_view(table.columns@);
        let ghost name = keys@[p as int]@;
        proof {
            assert(strings_view(keys@)[p as int] == name);
            assert(want[p as int] == cell_text(named_cell(cols, row_view(*row), name)));
        }
        let text = named_cell_of(table, row, keys[p].as_str()).to_csv_cell();
        assert(text@ == want[p as int]);
        out.push(text);
        p += 1;
    }
    assert(strings_view(out@) =~= want);
    out
}

pub open spec fn groups_inv(
    columns: Seq<Seq<char>>,
    rows: Seq<Seq<ValueView>>,
    keys: Seq<Seq<char>>,
    groups: Seq<(Seq<Seq<char>>, Seq<usize>)>,
    n: int,
) -> bool {
    &&& forall|g: int, h: int| 0 <= g < h < groups.len() ==> key_lt(groups[g].0, groups[h].0)
    &&& forall|g: int|
        0 <= g < groups.len() ==> increasing(#[trigger] groups[g].1) && groups[g].1.len() > 0 && forall|q: int|
            0 <= q < groups[g].1.len() ==> groups[g].1[q] < n && group_key(columns, rows[groups[g].1[q] as int], keys)
                == groups[g].0
    &&& forall|i: usize| i < n ==> #[trigger] row_grouped(groups, i)
}

proof fn lemma_join_group(
    columns: Seq<Seq<char>>,
    rows: Seq<Seq<ValueView>>,
    keys: Seq<Seq<char>>,
    groups: Seq<(Seq<Seq<char>>, Seq<usize>)>,
    n: usize,
    j: int,
)
    requires
        n < rows.len(),
        groups_inv(columns, rows, keys, groups, n as int),
        0 <= j < groups.len(),
        groups[j].0 == group_key(columns, rows[n as int], keys),
    ensures
        groups_inv(columns, rows, keys, groups.update(j, (groups[j].0, groups[j].1.push(n))), n + 1),
{
    let g2 = groups.update(j, (groups[j].0, groups[j].1.push(n)));
    assert forall|g: int| 0 <= g < g2.len() implies increasing(#[trigger] g2[g].1) && g2[g].1.len() > 0 && forall|q: int|
        0 <= q < g2[g].1.len() ==> g2[g].1[q] < n + 1 && group_key(columns, rows[g2[g].1[q] as int], keys) == g2[g].0 by {
        if g == j {
            assert(increasing(groups[j].1));
            assert forall|a: int, b: int| 0 <= a < b < g2[g].1.len() implies g2[g].1[a] < g2[g].1[b] by {
                if b < groups[j].1.len() {
                } else {
                    assert(groups[j].1[a] < n);
                }
            }
        }
    }
    assert forall|i: usize| i < n + 1 implies #[trigger] row_grouped(g2, i) by {
        if i < n {
            assert(row_grouped(groups, i));
            let g = choose|g: int| 0 <= g < groups.len() && #[trigger] groups[g].1.contains(i);
            let q = choose|q: int| 0 <= q < groups[g].1.len() && groups[g].1[q] == i;
            if g == j {
                assert(g2[g].1[q] == i);
            }
            assert(g2[g].1.contains(i));
        } else {
            assert(g2[j].1[groups[j].1.len() as int] == n);
            assert(g2[j].1.contains(i));
        }
    }
}

proof fn lemma_new_group(
    columns: Seq<Seq<char>>,
    rows: Seq<Seq<ValueView>>,
    keys: Seq<Seq<char>>,
    groups: Seq<(Seq<Seq<char>>, Seq<usize>)>,
    n: usize,
    j: int,
)
    requires
        n < rows.len(),
        groups_inv(columns, rows, keys, groups, n as int),
        0 <= j <= groups.len(),
        forall|g: int| 0 <= g < j ==> key_lt(#[trigger] groups[g].0, group_key(columns, rows[n as int], keys)),
        j < groups.len() ==> key_lt(group_key(columns, rows[n as int], keys), groups[j].0),
    ensures
        groups_inv(columns, rows, keys, groups.insert(j, (group_key(columns, rows[n as int], keys), seq![n])), n + 1),
{
    let k = group_key(columns, rows[n as int], keys);
    let g2 = groups.insert(j, (k, seq![n]));
    assert forall|g: int, h: int| 0 <= g < h < g2.len() implies key_lt(g2[g].0, g2[h].0) by {
        if h == j {
            assert(g2[g] == groups[g]);
        } else if g == j {
            assert(g2[h] == groups[h - 1]);
            if h - 1 > j {
                lemma_key_lt_order(k, groups[j].0, groups[h - 1].0);
            }
        } else if g < j && h < j {
        } else if g < j && h > j {
            assert(g2[h] == groups[h - 1]);
        } else {
            assert(g2[g] == groups[g - 1]);
            assert(g2[h] == groups[h - 1]);
        }
    }
    assert forall|g: int| 0 <= g < g2.len() implies increasing(#[trigger] g2[g].1) && g2[g].1.len() > 0 && forall|q: int|
        0 <= q < g2[g].1.len() ==> g2[g].1[q] < n + 1 && group_key(columns, rows[g2[g].1[q] as int], keys) == g2[g].0 by {
        if g < j {
            assert(g2[g] == groups[g]);
        } else if g > j {
            assert(g2[g] == groups[g - 1]);
        }
    }
    assert forall|i: usize| i < n + 1 implies #[trigger] row_grouped(g2, i) by {
        if i < n {
            assert(row_grouped(groups, i));
            let g = choose|g: int| 0 <= g < groups.len() && #[trigger] groups[g].1.contains(i);
            if g < j {
                assert(g2[g] == groups[g]);
                assert(g2[g].1.contains(i));
            } else {
                assert(g2[g + 1] == groups[g]);
                assert(g2[g + 1].1.contains(i));
            }
        } else {
            assert(g2[j].1[0] == n);
            assert(g2[j].1.contains(i));
        }
    }
}

/// The rows grouped by the texts of their cells under the group columns
/// `keys`: with none, one group of every row; else one group per distinct
/// key in ascending key order, each holding its rows in input order.
pub fn aggregate_groups(table: &Table, keys: &Vec<String>) -> (r: Vec<(Vec<String>, Vec<usize>)>)
    ensures
        groups_ok(strings_view(table.columns@), rows_view(table.rows@), strings_view(keys@), groups_view(r@)),
{
    let ghost cols = strings_view(table.columns@);
    let ghost rv = rows_view(table.rows@);
    let ghost kv = strings_view(keys@);
    if keys.len() == 0 {
        let mut all: Vec<usize> = Vec::new();
        let mut i: usize = 0;
        while i < table.rows.len()
            invariant
                i <= table.rows.len(),
                all.len() == i,
                forall|q: int| 0 <= q < i ==> all@[q] == q,
            decreases table.rows.len() - i,
        {
            all.push(i);
            i += 1;
        }
        let mut out: Vec<(Vec<String>, Vec<usize>)> = Vec::new();
        out.push((Vec::new(), all));
        assert(groups_view(out@)[0].0 =~= Seq::<Seq<char>>::empty());
        return out;
    }
    let mut groups: Vec<(Vec<String>, Vec<usize>)> = Vec::new();
    let mut n: usize = 0;
    assert(groups_inv(cols, rv, kv, groups_view(groups@), 0));
    while n < table.rows.len()
        invariant
            n <= table.rows.len(),
            cols == strings_view(table.columns@),
            rv == rows_view(table.rows@),
            kv == strings_view(keys@),
            groups_inv(cols, rv, kv, groups_view(groups@), n as int),
        decreases table.rows.len() - n,
    {
        let k = group_key_of(table, &table.rows[n], keys);
        let ghost key = strings_view(k@);
        assert(key == group_key(cols, rv[n as int], kv));
        let ghost gv = groups_view(groups@);
        let mut j: usize = 0;
        while j < groups.len() && key_less(&groups[j].0, &k)
            invariant
                j <= groups.len(),
                gv == groups_view(groups@),
                key == strings_view(k@),
                forall|g: int| 0 <= g < j ==> key_lt(#[trigger] gv[g].0, key),
            decreases groups.len() - j,
        {
            assert(gv[j as int].0 == strings_view(groups@[j as int].0@));
            j += 1;
        }
        if j < groups.len() && crate::complete::strings_same(&groups[j].0, &k) {
            assert(gv[j as int].0 == key);
            let mut g = groups.remove(j);
            let ghost old_g = (strings_view(g.0@), g.1@);
            g.1.push(n);
            groups.insert(j, g);
            proof {
                assert(old_g == gv[j as int]);
                lemma_join_group(cols, rv, kv, gv, n, j as int);
                assert(groups_view(groups@) =~= gv.update(j as int, (gv[j as int].0, gv[j as int].1.push(n))));
            }
        } else {
            proof {
                if j < groups.len() {
                    assert(gv[j as int].0 == strings_view(groups@[j as int].0@));
                    assert(!key_lt(gv[j as int].0, key));
                    assert(gv[j as int].0 != key);
                    lemma_key_lt_order(key, gv[j as int].0, key);
                }
                lemma_new_group(cols, rv, kv, gv, n, j as int);
            }
            let mut members: Vec<usize> = Vec::new();
            members.push(n);
            groups.insert(j, (k, members));
            proof {
                assert(groups_view(groups@) =~= gv.insert(j as int, (key, seq![n])));
            }
        }
        n += 1;
    }
    groups
}

/// The aggregated table: the group columns then the aliases; one row per
/// group holding its key texts and then its evaluated items, unless an
/// item failed: the first failure, group by group, is the result.
pub open spec fn aggregate_spec(
    keys: Seq<Seq<char>>,
    aliases: Seq<Seq<char>>,
    groups: Seq<Seq<Seq<char>>>,
    evaluated: Seq<Seq<Result<ValueView, DiagnosticView>>>,
) -> Result<(Seq<Seq<char>>, Seq<Seq<ValueView>>), DiagnosticView> {
    match first_row_error(evaluated) {
        Some(d) => Err(d),
        None => Ok(
            (
                keys + aliases,
                Seq::new(
                    groups.len(),
                    |g: int|
                        groups[g].map_values(|t: Seq<char>| ValueView::String(t)) + evaluated[g].map_values(
                            |c: Result<ValueView, DiagnosticView>| crate::mutate::ok_value(c),
                        ),
                ),
            ),
        ),
    }
}

/// Builds the aggregated table from the groups' keys and each group's
/// evaluated aggregate items, in item order.
pub fn aggregate_table(
    keys: &Vec<String>,
    aliases: &Vec<String>,
    group_keys: &Vec<Vec<String>>,
    evaluated: Vec<Vec<Result<Value, Diagnostic>>>,
) -> (r: Result<Table, Diagnostic>)
    requires
        evaluated.len() == group_keys.len(),
    ensures
        table_result_view(r) == aggregate_spec(
            strings_view(keys@),
            strings_view(aliases@),
            group_keys@.map_values(|k: Vec<String>| strings_view(k@)),
            evaluated_view(evaluated@),
        ),
{
    let ghost ev = evaluated_view(evaluated@);
    let mut i: usize = 0;
    assert(ev.take(0) =~= Seq::<Seq<Result<ValueView, DiagnosticView>>>::empty());
    while i < evaluated.len()
        invariant
            i <= evaluated.len(),
            ev == evaluated_view(evaluated@),
            first_row_error(ev.take(i as int)) is None,
        decreases evaluated.len() - i,
    {
        let ghost cells = ev[i as int];
        let mut k: usize = 0;
        assert(cells.take(0) =~= Seq::<Result<ValueView, DiagnosticView>>::empty());
        while k < evaluated[i].len()
            invariant
                i < evaluated.len(),
                k <= evaluated@[i as int].len(),
                ev == evaluated_view(evaluated@),
                cells == ev[i as int],
                first_row_error(ev.take(i as int)) is None,
                first_error(cells.take(k as int)) is None,
            decreases evaluated@[i as int].len() - k,
        {
            assert(cells.take(k + 1).drop_last() =~= cells.take(k as int));
            assert(cells[k as int] == cell_result_view(evaluated@[i as int]@[k as int]));
            if let Err(d) = &evaluated[i][k] {
                proof {
                    assert(first_error(cells.take(k + 1)) == Some(d@));
                    lemma_first_error_settles(cells, k + 1);
                    assert(ev.take(i + 1).drop_last() =~= ev.take(i as int));
                    assert(first_row_error(ev.take(i + 1)) == Some(d@));
                    lemma_first_row_error_settles(ev, i + 1);
                }
                return Err(d.duplicate());
            }
            k += 1;
        }
        assert(cells.take(k as int) =~= cells);
        assert(ev.take(i + 1).drop_last() =~= ev.take(i as int));
        i += 1;
    }
    assert(ev.take(i as int) =~= ev);
    let mut columns = copy_strings(keys.as_slice());
    let mut a: usize = 0;
    while a < aliases.len()
        invariant
            a <= aliases.len(),
            strings_view(columns@) == strings_view(keys@) + strings_view(aliases@).take(a as int),
        decreases aliases.len() - a,
    {
        let ghost before = strings_view(columns@);
        columns.push(copy_string(&aliases[a]));
        assert(strings_view(columns@) =~= before.push(aliases@[a as int]@));
        assert(strings_view(aliases@).take(a + 1) =~= strings_view(aliases@).take(a as int).push(aliases@[a as int]@));
        a += 1;
    }
    assert(strings_view(aliases@).take(a as int) =~= strings_view(aliases@));
    let ghost gk = group_keys@.map_values(|k: Vec<String>| strings_view(k@));
    let mut rows: Vec<Row> = Vec::new();
    let mut g: usize = 0;
    while g < group_keys.len()
        invariant
            g <= group_keys.len(),
            evaluated.len() == group_keys.len(),
            ev == evaluated_view(evaluated@),
            gk == group_keys@.map_values(|k: Vec<String>| strings_view(k@)),
            rows.len() == g,
            forall|q: int| 0 <= q < g ==> row_view(#[trigger] rows@[q]) == gk[q].map_values(|t: Seq<char>| ValueView::String(t))
                + ev[q].map_values(|c: Result<ValueView, DiagnosticView>| crate::mutate::ok_value(c)),
        decreases group_keys.len() - g,
    {
        let mut values: Vec<Value> = Vec::new();
        let mut t: usize = 0;
        while t < group_keys[g].len()
            invariant
                g < group_keys.len(),
                t <= group_keys@[g as int].len(),
                values.len() == t,
                forall|q: int| 0 <= q < t ==> (#[trigger] values@[q])@ == ValueView::String(group_keys@[g as int]@[q]@),
            decreases group_keys@[g as int].len() - t,
        {
            values.push(Value::String(copy_string(&group_keys[g][t])));
            t += 1;
        }
        let ghost head = values@.len();
        let mut c: usize = 0;
        while c < evaluated[g].len()
            invariant
                g < evaluated.len(),
                c <= evaluated@[g as int].len(),
                head == group_keys@[g as int].len(),
                values.len() == head + c,
                forall|q: int| 0 <= q < head ==> (#[trigger] values@[q])@ == ValueView::String(group_keys@[g as int]@[q]@),
                forall|q: int| 0 <= q < c ==> (#[trigger] values@[head + q])@ == crate::mutate::ok_value(
                    cell_result_view(evaluated@[g as int]@[q]),
                ),
            decreases evaluated@[g as int].len() - c,
        {
            let v = match &evaluated[g][c] {
                Ok(x) => x.duplicate(),
                Err(_) => Value::Null,
            };
            values.push(v);
            c += 1;
        }
        let row = Row { values };
        proof {
            let rhs = gk[g as int].map_values(|t: Seq<char>| ValueView::String(t)) + ev[g as int].map_values(
                |c: Result<ValueView, DiagnosticView>| crate::mutate::ok_value(c),
            );
            assert(ev[g as int] == evaluated@[g as int]@.map_values(|c: Result<Value, Diagnostic>| cell_result_view(c)));
            assert(gk[g as int] == strings_view(group_keys@[g as int]@));
            assert(row_view(row).len() == rhs.len());
            assert forall|q: int| 0 <= q < rhs.len() implies row_view(row)[q] == rhs[q] by {
                if q < head {
                    assert(row_view(row)[q] == row.values@[q]@);
                } else {
                    assert(row.values@[q] == row.values@[head + (q - head)]);
                }
            }
            assert(row_view(row) =~= rhs);
        }
        rows.push(row);
        g += 1;
    }
    let r = Table { columns, rows };
    assert(rows_view(r.rows@) =~= Seq::new(
        gk.len(),
        |q: int|
            gk[q].map_values(|t: Seq<char>| ValueView::String(t)) + ev[q].map_values(
                |c: Result<ValueView, DiagnosticView>| crate::mutate::ok_value(c),
            ),
    ));
    Ok(r)
}

} // verus!
