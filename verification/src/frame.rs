//! In-memory tables of the row runtime, and the sort keys shared with the
//! window machinery.
use vstd::prelude::*;

use crate::engine::{first_position, option_usize_view, pairs_view, position_of};
use crate::text::{copy_string, strings_view};
use crate::value::{cell_text, Value, ValueView};

verus! {

/// Sort direction of one key.
#[derive(Clone, Copy, Debug, Eq, PartialEq, Structural)]
pub enum SortDirection {
    Asc,
    Desc,
}

/// Where nulls sort relative to other values.
#[derive(Clone, Copy, Debug, Eq, PartialEq, Structural)]
pub enum NullsOrder {
    First,
    Last,
}

/// One sort key: a column, a direction and a null placement.
#[derive(Clone, Debug, Eq, PartialEq)]
pub struct SortSpec {
    pub column: String,
    pub direction: SortDirection,
    pub nulls: NullsOrder,
}

/// A sort key as plain values.
pub open spec fn sort_spec_view(s: SortSpec) -> (Seq<char>, SortDirection, NullsOrder) {
    (s.column@, s.direction, s.nulls)
}

pub open spec fn sort_specs_view(s: Seq<SortSpec>) -> Seq<(Seq<char>, SortDirection, NullsOrder)> {
    s.map_values(|x: SortSpec| sort_spec_view(x))
}

impl SortSpec {
    /// A copy with the same column, direction and null placement.
    pub fn duplicate(&self) -> (r: Self)
        ensures
            sort_spec_view(r) == sort_spec_view(*self),
    {
        SortSpec {
            column: crate::text::copy_string(&self.column),
            direction: self.direction,
            nulls: self.nulls,
        }
    }
}

// ---------------------------------------------------------------------------
// Tables
// ---------------------------------------------------------------------------

/// One row of cells.
#[derive(Debug)]
pub struct Row {
    pub values: Vec<Value>,
}

/// Named columns over rows of cells. A row may hold fewer cells than there
/// are columns; a missing cell reads as null.
#[derive(Debug)]
pub struct Table {
    pub columns: Vec<String>,
    pub rows: Vec<Row>,
}

pub open spec fn row_view(r: Row) -> Seq<ValueView> {
    r.values@.map_values(|v: Value| v@)
}

pub open spec fn rows_view(rows: Seq<Row>) -> Seq<Seq<ValueView>> {
    rows.map_values(|r: Row| row_view(r))
}

/// The cell at offset `i`, null where the row is shorter.
pub open spec fn cell_at(row: Seq<ValueView>, i: int) -> ValueView {
    if 0 <= i < row.len() {
        row[i]
    } else {
        ValueView::Null
    }
}

/// The cells at the given offsets, in their order.
pub open spec fn pick(row: Seq<ValueView>, indices: Seq<int>) -> Seq<ValueView> {
    indices.map_values(|i: int| cell_at(row, i))
}

pub open spec fn indices_view(v: Seq<usize>) -> Seq<int> {
    v.map_values(|i: usize| i as int)
}

/// Whether some row holds a geometry at offset `i`.
pub open spec fn column_has_geometry(rows: Seq<Seq<ValueView>>, i: int) -> bool {
    exists|k: int| 0 <= k < rows.len() && 0 <= i < rows[k].len() && (#[trigger] rows[k][i]) is Geometry
}

/// The columns among the first `n` whose offset holds a geometry in some row.
pub open spec fn geometry_columns_spec(columns: Seq<Seq<char>>, rows: Seq<Seq<ValueView>>, n: int) -> Seq<Seq<char>>
    decreases n,
{
    if n <= 0 {
        Seq::empty()
    } else {
        let p = geometry_columns_spec(columns, rows, n - 1);
        if column_has_geometry(rows, n - 1) {
            p.push(columns[n - 1])
        } else {
            p
        }
    }
}

/// The offsets of the sources that a table has, in the order given.
pub open spec fn found_indices(columns: Seq<Seq<char>>, sources: Seq<Seq<char>>) -> Seq<int>
    decreases sources.len(),
{
    if sources.len() == 0 {
        Seq::empty()
    } else {
        let p = found_indices(columns, sources.drop_last());
        match first_position(columns, sources.last()) {
            Some(i) => p.push(i),
            None => p,
        }
    }
}

/// The offsets of the columns that are not dropped, among the first `n`.
pub open spec fn kept_indices(columns: Seq<Seq<char>>, dropped: Seq<Seq<char>>, n: int) -> Seq<int>
    decreases n,
{
    if n <= 0 {
        Seq::empty()
    } else {
        let p = kept_indices(columns, dropped, n - 1);
        if dropped.contains(columns[n - 1]) {
            p
        } else {
            p.push(n - 1)
        }
    }
}

/// A column's name after the first rename whose old name it has.
pub open spec fn renamed(column: Seq<char>, renames: Seq<(Seq<char>, Seq<char>)>) -> Seq<char>
    decreases renames.len(),
{
    if renames.len() == 0 {
        column
    } else if renames[0].0 == column {
        renames[0].1
    } else {
        renamed(column, renames.drop_first())
    }
}

/// The first names of name pairs.
pub open spec fn item_sources(items: Seq<(String, String)>) -> Seq<Seq<char>> {
    items.map_values(|x: (String, String)| x.0@)
}

/// The second names of name pairs.
pub open spec fn item_outputs(items: Seq<(String, String)>) -> Seq<Seq<char>> {
    items.map_values(|x: (String, String)| x.1@)
}

/// The key a row is told apart by in `distinct`: the cell texts at the key
/// offsets.
pub open spec fn distinct_key(row: Seq<ValueView>, indices: Seq<int>) -> Seq<Seq<char>> {
    indices.map_values(|i: int| cell_text(cell_at(row, i)))
}

/// The offsets of the rows among the first `n` whose key no earlier row
/// has.
pub open spec fn first_key_rows(rows: Seq<Seq<ValueView>>, indices: Seq<int>, n: int) -> Seq<int>
    decreases n,
{
    if n <= 0 {
        Seq::empty()
    } else {
        let p = first_key_rows(rows, indices, n - 1);
        if exists|k: int| 0 <= k < n - 1 && #[trigger] distinct_key(rows[k], indices) == distinct_key(rows[n - 1], indices) {
            p
        } else {
            p.push(n - 1)
        }
    }
}

fn project_row(row: &Row, indices: &Vec<usize>) -> (r: Row)
    ensures
        row_view(r) == pick(row_view(*row), indices_view(indices@)),
{
    let mut values: Vec<Value> = Vec::new();
    let mut k: usize = 0;
    while k < indices.len()
        invariant
            k <= indices.len(),
            values.len() == k,
            forall|j: int| 0 <= j < k ==> (#[trigger] values@[j])@ == cell_at(row_view(*row), indices@[j] as int),
        decreases indices.len() - k,
    {
        let i = indices[k];
        if i < row.values.len() {
            values.push(row.values[i].duplicate());
        } else {
            values.push(Value::Null);
        }
        k += 1;
    }
    let r = Row { values };
    assert(row_view(r) =~= pick(row_view(*row), indices_view(indices@)));
    r
}

fn project_rows(rows: &Vec<Row>, indices: &Vec<usize>) -> (r: Vec<Row>)
    ensures
        rows_view(r@) == rows_view(rows@).map_values(|row: Seq<ValueView>| pick(row, indices_view(indices@))),
{
    let mut out: Vec<Row> = Vec::new();
    let mut k: usize = 0;
    while k < rows.len()
        invariant
            k <= rows.len(),
            out.len() == k,
            forall|j: int| 0 <= j < k ==> row_view(#[trigger] out@[j]) == pick(row_view(rows@[j]), indices_view(indices@)),
        decreases rows.len() - k,
    {
        out.push(project_row(&rows[k], indices));
        k += 1;
    }
    assert(rows_view(out@) =~= rows_view(rows@).map_values(|row: Seq<ValueView>| pick(row, indices_view(indices@))));
    out
}

fn row_key(row: &Row, indices: &Vec<usize>) -> (r: Vec<String>)
    ensures
        strings_view(r@) == distinct_key(row_view(*row), indices_view(indices@)),
{
    let mut key: Vec<String> = Vec::new();
    let mut k: usize = 0;
    while k < indices.len()
        invariant
            k <= indices.len(),
            key.len() == k,
            forall|j: int| 0 <= j < k ==> (#[trigger] key@[j])@ == cell_text(cell_at(row_view(*row), indices@[j] as int)),
        decreases indices.len() - k,
    {
        let i = indices[k];
        if i < row.values.len() {
            key.push(row.values[i].to_csv_cell());
        } else {
            key.push(String::new());
        }
        k += 1;
    }
    assert(strings_view(key@) =~= distinct_key(row_view(*row), indices_view(indices@)));
    key
}

fn same_key(a: &Vec<String>, b: &Vec<String>) -> (r: bool)
    ensures
        r == (strings_view(a@) == strings_view(b@)),
{
    if a.len() != b.len() {
        assert(strings_view(a@).len() != strings_view(b@).len());
        return false;
    }
    let mut k: usize = 0;
    while k < a.len()
        invariant
            k <= a.len(),
            a.len() == b.len(),
            forall|j: int| 0 <= j < k ==> a@[j]@ == b@[j]@,
        decreases a.len() - k,
    {
        if !crate::text::string_eq(&a[k], &b[k]) {
            assert(strings_view(a@)[k as int] != strings_view(b@)[k as int]);
            return false;
        }
        k += 1;
    }
    assert(strings_view(a@) =~= strings_view(b@));
    true
}

fn names_contain(names: &[String], name: &String) -> (r: bool)
    ensures
        r == strings_view(names@).contains(name@),
{
    position_of(names, name).is_some()
}

fn copy_strings_vec(v: &Vec<String>) -> (r: Vec<String>)
    ensures
        strings_view(r@) == strings_view(v@),
{
    let r = crate::text::copy_strings(v.as_slice());
    r
}

impl Table {
    pub fn new(columns: Vec<String>, rows: Vec<Row>) -> (r: Self)
        ensures
            r.columns@ == columns@,
            r.rows@ == rows@,
    {
        Table { columns, rows }
    }

    /// The offset of the first column with this name.
    pub fn column_index(&self, name: &str) -> (r: Option<usize>)
        ensures
            option_usize_view(r) == first_position(strings_view(self.columns@), name@),
            r matches Some(i) ==> i < self.columns.len(),
    {
        let wanted = crate::text::copy_str(name);
        position_of(self.columns.as_slice(), &wanted)
    }

    /// The cell of `row` in the first column with this name, where the
    /// table has such a column and the row such a cell.
    pub fn value<'a>(&'a self, row: &'a Row, column: &str) -> (r: Option<&'a Value>)
        ensures
            match first_position(strings_view(self.columns@), column@) {
                Some(i) => if i < row.values.len() {
                    r matches Some(v) && v@ == row_view(*row)[i]
                } else {
                    r is None
                },
                None => r is None,
            },
    {
        match self.column_index(column) {
            Some(i) => {
                if i < row.values.len() {
                    Some(&row.values[i])
                } else {
                    None
                }
            },
            None => None,
        }
    }

    /// Whether some row holds a geometry at offset `index`.
    pub fn column_is_geometry(&self, index: usize) -> (r: bool)
        ensures
            r == column_has_geometry(rows_view(self.rows@), index as int),
    {
        let ghost rv = rows_view(self.rows@);
        let mut k: usize = 0;
        while k < self.rows.len()
            invariant
                k <= self.rows.len(),
                rv == rows_view(self.rows@),
                forall|j: int| 0 <= j < k ==> !(0 <= index < rv[j].len() && (#[trigger] rv[j])[index as int] is Geometry),
            decreases self.rows.len() - k,
        {
            let row = &self.rows[k];
            assert(rv[k as int] == row_view(*row));
            if index < row.values.len() && row.values[index].is_geometry() {
                assert(rv[k as int][index as int] is Geometry);
                return true;
            }
            k += 1;
        }
        assert forall|j: int| 0 <= j < rv.len() && 0 <= index < rv[j].len() implies !((#[trigger] rv[j][index as int]) is Geometry) by {
            assert(!(0 <= index < rv[j].len() && rv[j][index as int] is Geometry));
        }
        false
    }

    /// The names of the columns that hold a geometry in some row, in column
    /// order.
    pub fn geometry_columns(&self) -> (r: Vec<String>)
        ensures
            strings_view(r@) == geometry_columns_spec(strings_view(self.columns@), rows_view(self.rows@), self.columns.len() as int),
    {
        let mut out: Vec<String> = Vec::new();
        let mut k: usize = 0;
        while k < self.columns.len()
            invariant
                k <= self.columns.len(),
                strings_view(out@) == geometry_columns_spec(strings_view(self.columns@), rows_view(self.rows@), k as int),
            decreases self.columns.len() - k,
        {
            if self.column_is_geometry(k) {
                out.push(copy_string(&self.columns[k]));
                assert(strings_view(out@) =~= geometry_columns_spec(strings_view(self.columns@), rows_view(self.rows@), k as int).push(self.columns@[k as int]@));
            }
            k += 1;
        }
        out
    }

    /// The table with one column per item, named by the item's second name,
    /// holding the column named by its first. A row gets the cells of the
    /// sources the table has, in item order.
    pub fn select(self, items: &[(String, String)]) -> (r: Self)
        ensures
            strings_view(r.columns@) == item_outputs(items@),
            rows_view(r.rows@) == rows_view(self.rows@).map_values(
                |row: Seq<ValueView>| pick(row, found_indices(strings_view(self.columns@), item_sources(items@))),
            ),
    {
        let ghost sources = item_sources(items@);
        let ghost cols = strings_view(self.columns@);
        let mut indices: Vec<usize> = Vec::new();
        let mut columns: Vec<String> = Vec::new();
        let mut k: usize = 0;
        while k < items.len()
            invariant
                k <= items.len(),
                sources == item_sources(items@),
                cols == strings_view(self.columns@),
                indices_view(indices@) == found_indices(cols, sources.take(k as int)),
                strings_view(columns@) == item_outputs(items@).take(k as int),
            decreases items.len() - k,
        {
            assert(sources.take(k + 1).drop_last() =~= sources.take(k as int));
            assert(sources.take(k + 1).last() == items@[k as int].0@);
            match self.column_index(items[k].0.as_str()) {
                Some(i) => {
                    indices.push(i);
                    assert(indices_view(indices@) =~= found_indices(cols, sources.take(k as int)).push(i as int));
                },
                None => {},
            }
            columns.push(copy_string(&items[k].1));
            assert(strings_view(columns@) =~= item_outputs(items@).take(k + 1)) by {
                assert(item_outputs(items@).take(k + 1) =~= item_outputs(items@).take(k as int).push(items@[k as int].1@));
            }
            k += 1;
        }
        assert(sources.take(k as int) =~= sources);
        assert(item_outputs(items@).take(k as int) =~= item_outputs(items@));
        let rows = project_rows(&self.rows, &indices);
        Table { columns, rows }
    }

    /// The table without the named columns; the others keep their order.
    pub fn drop_columns(self, columns_to_drop: &[String]) -> (r: Self)
        ensures
            strings_view(r.columns@) == pick_names(strings_view(self.columns@), kept_indices(strings_view(self.columns@), strings_view(columns_to_drop@), self.columns.len() as int)),
            rows_view(r.rows@) == rows_view(self.rows@).map_values(
                |row: Seq<ValueView>| pick(row, kept_indices(strings_view(self.columns@), strings_view(columns_to_drop@), self.columns.len() as int)),
            ),
    {
        let ghost cols = strings_view(self.columns@);
        let ghost dropped = strings_view(columns_to_drop@);
        let mut indices: Vec<usize> = Vec::new();
        let mut columns: Vec<String> = Vec::new();
        let mut k: usize = 0;
        while k < self.columns.len()
            invariant
                k <= self.columns.len(),
                cols == strings_view(self.columns@),
                dropped == strings_view(columns_to_drop@),
                indices_view(indices@) == kept_indices(cols, dropped, k as int),
                strings_view(columns@) == pick_names(cols, kept_indices(cols, dropped, k as int)),
            decreases self.columns.len() - k,
        {
            assert(cols[k as int] == self.columns@[k as int]@);
            if !names_contain(columns_to_drop, &self.columns[k]) {
                indices.push(k);
                columns.push(copy_string(&self.columns[k]));
                assert(kept_indices(cols, dropped, k + 1) == kept_indices(cols, dropped, k as int).push(k as int));
                assert(indices_view(indices@) =~= kept_indices(cols, dropped, k as int).push(k as int));
                assert(pick_names(cols, kept_indices(cols, dropped, k as int).push(k as int))
                    =~= pick_names(cols, kept_indices(cols, dropped, k as int)).push(cols[k as int]));
                assert(strings_view(columns@) =~= pick_names(cols, kept_indices(cols, dropped, k + 1)));
            }
            k += 1;
        }
        let rows = project_rows(&self.rows, &indices);
        Table { columns, rows }
    }

    /// The table with each column renamed by the first rename of its name.
    pub fn rename_columns(self, renames: &[(String, String)]) -> (r: Self)
        ensures
            strings_view(r.columns@) == strings_view(self.columns@).map_values(|c: Seq<char>| renamed(c, pairs_view(renames@))),
            r.rows@ == self.rows@,
    {
        let ghost rv = pairs_view(renames@);
        let mut columns: Vec<String> = Vec::new();
        let mut k: usize = 0;
        while k < self.columns.len()
            invariant
                k <= self.columns.len(),
                rv == pairs_view(renames@),
                columns.len() == k,
                forall|j: int| 0 <= j < k ==> (#[trigger] columns@[j])@ == renamed(self.columns@[j]@, rv),
            decreases self.columns.len() - k,
        {
            columns.push(rename_one(&self.columns[k], renames));
            k += 1;
        }
        assert(strings_view(columns@) =~= strings_view(self.columns@).map_values(|c: Seq<char>| renamed(c, pairs_view(renames@))));
        Table { columns, rows: self.rows }
    }

    /// The table with its first `n` rows.
    pub fn limit(self, n: usize) -> (r: Self)
        ensures
            r.columns@ == self.columns@,
            r.rows@ == self.rows@.take(if n < self.rows.len() { n as int } else { self.rows.len() as int }),
    {
        let mut rows = self.rows;
        if n < rows.len() {
            rows.truncate(n);
        }
        Table { columns: self.columns, rows }
    }

    /// The table with only the first row of each key: the cell texts of the
    /// named key columns, or of all columns where none is named. Key
    /// columns the table lacks are left out of the key.
    pub fn distinct(self, key_columns: &[String]) -> (r: Self)
        ensures
            r.columns@ == self.columns@,
            r.rows@ == first_key_rows(
                rows_view(self.rows@),
                found_indices(strings_view(self.columns@), if key_columns@.len() == 0 { strings_view(self.columns@) } else { strings_view(key_columns@) }),
                self.rows.len() as int,
            ).map_values(|k: int| self.rows@[k]),
            rows_view(r.rows@) == distinct_rows(
                rows_view(self.rows@),
                found_indices(strings_view(self.columns@), if key_columns@.len() == 0 { strings_view(self.columns@) } else { strings_view(key_columns@) }),
            ),
    {
        let keys: Vec<String> = if key_columns.len() == 0 {
            copy_strings_vec(&self.columns)
        } else {
            crate::text::copy_strings(key_columns)
        };
        let ghost cols = strings_view(self.columns@);
        let ghost kv = strings_view(keys@);
        let mut indices: Vec<usize> = Vec::new();
        let mut k: usize = 0;
        while k < keys.len()
            invariant
                k <= keys.len(),
                cols == strings_view(self.columns@),
                kv == strings_view(keys@),
                indices_view(indices@) == found_indices(cols, kv.take(k as int)),
            decreases keys.len() - k,
        {
            assert(kv.take(k + 1).drop_last() =~= kv.take(k as int));
            assert(kv.take(k + 1).last() == keys@[k as int]@);
            match self.column_index(keys[k].as_str()) {
                Some(i) => {
                    indices.push(i);
                    assert(indices_view(indices@) =~= found_indices(cols, kv.take(k as int)).push(i as int));
                },
                None => {},
            }
            k += 1;
        }
        assert(kv.take(k as int) =~= kv);
        let ghost iv = indices_view(indices@);
        let ghost rv = rows_view(self.rows@);
        let total = self.rows.len();
        let ghost source = self.rows@;
        let mut seen: Vec<Vec<String>> = Vec::new();
        let mut kept: Vec<Row> = Vec::new();
        let mut rows = self.rows;
        let mut remaining: Vec<Row> = Vec::new();
        // Rows are taken from the back so that each is moved, not copied.
        while rows.len() > 0
            invariant
                rows.len() + remaining.len() == source.len(),
                rows@ == source.take(rows.len() as int),
                forall|j: int| 0 <= j < remaining.len() ==> remaining@[j] == source[source.len() - 1 - j],
            decreases rows.len(),
        {
            let row = rows.pop().unwrap();
            remaining.push(row);
        }
        let mut n: usize = 0;
        while remaining.len() > 0
            invariant
                n + remaining.len() == source.len(),
                forall|j: int| 0 <= j < remaining.len() ==> remaining@[j] == source[source.len() - 1 - j],
                iv == indices_view(indices@),
                rv == rows_view(source),
                source.len() == total,
                seen.len() == n,
                forall|j: int| 0 <= j < n ==> strings_view((#[trigger] seen@[j])@) == distinct_key(rv[j], iv),
                kept@ == first_key_rows(rv, iv, n as int).map_values(|k: int| source[k]),
            decreases remaining.len(),
        {
            let row = remaining.pop().unwrap();
            assert(row == source[n as int]);
            let key = row_key(&row, &indices);
            let mut found = false;
            let mut j: usize = 0;
            while j < seen.len()
                invariant
                    j <= seen.len(),
                    seen.len() == n,
                    !found ==> forall|t: int| 0 <= t < j ==> strings_view(seen@[t]@) != strings_view(key@),
                    found ==> exists|t: int| 0 <= t < n && strings_view(seen@[t]@) == strings_view(key@),
                decreases seen.len() - j,
            {
                if same_key(&seen[j], &key) {
                    found = true;
                }
                j += 1;
            }
            proof {
                assert(rv[n as int] == row_view(row));
                if found {
                    let t = choose|t: int| 0 <= t < n && strings_view(seen@[t]@) == strings_view(key@);
                    assert(distinct_key(rv[t], iv) == distinct_key(rv[n as int], iv));
                } else {
                    assert forall|t: int| 0 <= t < n implies #[trigger] distinct_key(rv[t], iv) != distinct_key(rv[n as int], iv) by {
                        assert(strings_view(seen@[t]@) != strings_view(key@));
                    }
                }
            }
            seen.push(key);
            if !found {
                kept.push(row);
                assert(kept@ =~= first_key_rows(rv, iv, n + 1).map_values(|k: int| source[k]));
            } else {
                assert(first_key_rows(rv, iv, n + 1) == first_key_rows(rv, iv, n as int));
            }
            n += 1;
        }
        proof {
            lemma_first_key_rows_shape(rv, iv, source.len() as int);
            assert(rows_view(kept@) =~= distinct_rows(rv, iv));
        }
        Table { columns: self.columns, rows: kept }
    }
}

/// The names at the given offsets.
pub open spec fn pick_names(names: Seq<Seq<char>>, indices: Seq<int>) -> Seq<Seq<char>> {
    indices.map_values(|i: int| names[i])
}

fn rename_one(column: &String, renames: &[(String, String)]) -> (r: String)
    ensures
        r@ == renamed(column@, pairs_view(renames@)),
{
    let ghost rv = pairs_view(renames@);
    let mut k: usize = 0;
    assert(rv.skip(0) =~= rv);
    while k < renames.len()
        invariant
            k <= renames.len(),
            rv == pairs_view(renames@),
            renamed(column@, rv) == renamed(column@, rv.skip(k as int)),
        decreases renames.len() - k,
    {
        assert(rv.skip(k as int)[0] == (renames@[k as int].0@, renames@[k as int].1@));
        assert(rv.skip(k as int).drop_first() =~= rv.skip(k + 1));
        if crate::text::string_eq(&renames[k].0, column) {
            return copy_string(&renames[k].1);
        }
        k += 1;
    }
    assert(rv.skip(k as int).len() == 0);
    copy_string(column)
}

// ---------------------------------------------------------------------------
// Laws
// ---------------------------------------------------------------------------

proof fn lemma_first_key_rows_shape(rows: Seq<Seq<ValueView>>, iv: Seq<int>, n: int)
    requires
        0 <= n <= rows.len(),
    ensures
        forall|p: int| 0 <= p < first_key_rows(rows, iv, n).len() ==> 0 <= #[trigger] first_key_rows(rows, iv, n)[p] < n,
        forall|p: int, q: int| 0 <= p < q < first_key_rows(rows, iv, n).len() ==> first_key_rows(rows, iv, n)[p] < first_key_rows(rows, iv, n)[q],
        forall|q: int, k: int| 0 <= q < first_key_rows(rows, iv, n).len() && 0 <= k < first_key_rows(rows, iv, n)[q]
            ==> #[trigger] distinct_key(rows[k], iv) != distinct_key(rows[#[trigger] first_key_rows(rows, iv, n)[q]], iv),
    decreases n,
{
    if n > 0 {
        lemma_first_key_rows_shape(rows, iv, n - 1);
        let p = first_key_rows(rows, iv, n - 1);
        if exists|k: int| 0 <= k < n - 1 && #[trigger] distinct_key(rows[k], iv) == distinct_key(rows[n - 1], iv) {
            assert(first_key_rows(rows, iv, n) == p);
        } else {
            let f = p.push(n - 1);
            assert(first_key_rows(rows, iv, n) == f);
            assert forall|q: int| 0 <= q < f.len() implies 0 <= #[trigger] f[q] < n by {
                if q < p.len() {
                    assert(f[q] == p[q]);
                }
            }
            assert forall|a: int, b: int| 0 <= a < b < f.len() implies f[a] < f[b] by {
                assert(f[a] == p[a]);
                if b < p.len() {
                    assert(f[b] == p[b]);
                }
            }
            assert forall|q: int, k: int| 0 <= q < f.len() && 0 <= k < f[q] implies #[trigger] distinct_key(rows[k], iv)
                != distinct_key(rows[#[trigger] f[q]], iv) by {
                if q < p.len() {
                    assert(f[q] == p[q]);
                } else {
                    assert(f[q] == n - 1);
                }
            }
        }
    }
}

/// Whether no two rows have the same key.
pub open spec fn keys_unique(rows: Seq<Seq<ValueView>>, iv: Seq<int>) -> bool {
    forall|i: int, j: int| 0 <= i < j < rows.len() ==> distinct_key(rows[i], iv) != distinct_key(rows[j], iv)
}

proof fn lemma_unique_keys_all_kept(rows: Seq<Seq<ValueView>>, iv: Seq<int>, n: int)
    requires
        0 <= n <= rows.len(),
        keys_unique(rows, iv),
    ensures
        first_key_rows(rows, iv, n) == Seq::new(n as nat, |i: int| i),
    decreases n,
{
    if n > 0 {
        lemma_unique_keys_all_kept(rows, iv, n - 1);
        assert(!exists|k: int| 0 <= k < n - 1 && #[trigger] distinct_key(rows[k], iv) == distinct_key(rows[n - 1], iv));
        assert(first_key_rows(rows, iv, n) =~= Seq::new(n as nat, |i: int| i));
    }
}

/// The rows that `distinct` keeps.
pub open spec fn distinct_rows(rows: Seq<Seq<ValueView>>, iv: Seq<int>) -> Seq<Seq<ValueView>> {
    first_key_rows(rows, iv, rows.len() as int).map_values(|k: int| rows[k])
}

/// The rows that `distinct` keeps have distinct keys, so keeping the first
/// row of each key again keeps every one of them: `distinct` twice is
/// `distinct` once.
pub proof fn lemma_distinct_idempotent(rows: Seq<Seq<ValueView>>, iv: Seq<int>)
    ensures
        keys_unique(distinct_rows(rows, iv), iv),
        distinct_rows(distinct_rows(rows, iv), iv) == distinct_rows(rows, iv),
{
    let f = first_key_rows(rows, iv, rows.len() as int);
    let kept = distinct_rows(rows, iv);
    lemma_first_key_rows_shape(rows, iv, rows.len() as int);
    assert forall|i: int, j: int| 0 <= i < j < kept.len() implies distinct_key(kept[i], iv) != distinct_key(kept[j], iv) by {
        assert(f[i] < f[j]);
        assert(distinct_key(rows[f[i]], iv) != distinct_key(rows[f[j]], iv));
    }
    lemma_unique_keys_all_kept(kept, iv, kept.len() as int);
    assert(distinct_rows(kept, iv) =~= kept);
}

} // verus!
