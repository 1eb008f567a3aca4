//! Benchmark reports read back: their columns, their rows, and how a run's
//! rows compare with a baseline's.
use vstd::prelude::*;

use crate::bench::{
    optional_u128_spec, optional_u64_spec, parse_optional_u128, parse_optional_u64,
    parse_u128_spec, parse_u128_text, record_field, record_field_spec, string_record_fields,
};
use crate::engine::{first_position, option_usize_view, position_of};
use crate::text::{
    chars_of, copy_str, decimal, push_decimal_u128, push_repeated, push_str, repeated,
    str_eq, strings_view,
};

verus! {

// ---------------------------------------------------------------------------
// Columns
// ---------------------------------------------------------------------------

/// Where each report column sits in a header; the optional columns may be
/// absent from older reports.
#[derive(Clone, Copy, Debug, Eq, PartialEq, Structural)]
pub struct ReportColumns {
    pub workload: usize,
    pub input_format: usize,
    pub output_format: usize,
    pub engine: Option<usize>,
    pub status: usize,
    pub elapsed_ms: usize,
    pub median_ms: Option<usize>,
    pub output_bytes: Option<usize>,
    pub peak_rss_bytes: Option<usize>,
    pub stddev_ms: Option<usize>,
}

/// The message for a report without a required column.
pub open spec fn missing_column_message(path: Seq<char>, name: Seq<char>) -> Seq<char> {
    "report "@ + path + " is missing `"@ + name + "`"@
}

pub open spec fn optional_index(o: Option<int>) -> Option<usize> {
    match o {
        Some(i) => Some(i as usize),
        None => None,
    }
}

/// The columns of a report header, or the message for the first required
/// column that it lacks, in the order `workload`, `input_format`,
/// `output_format`, `status`, `elapsed_ms`.
pub open spec fn report_columns_spec(h: Seq<Seq<char>>, path: Seq<char>) -> Result<ReportColumns, Seq<char>> {
    match first_position(h, "workload"@) {
        None => Err(missing_column_message(path, "workload"@)),
        Some(w) => match first_position(h, "input_format"@) {
            None => Err(missing_column_message(path, "input_format"@)),
            Some(i) => match first_position(h, "output_format"@) {
                None => Err(missing_column_message(path, "output_format"@)),
                Some(o) => match first_position(h, "status"@) {
                    None => Err(missing_column_message(path, "status"@)),
                    Some(s) => match first_position(h, "elapsed_ms"@) {
                        None => Err(missing_column_message(path, "elapsed_ms"@)),
                        Some(e) => Ok(
                            ReportColumns {
                                workload: w as usize,
                                input_format: i as usize,
                                output_format: o as usize,
                                engine: optional_index(first_position(h, "engine"@)),
                                status: s as usize,
                                elapsed_ms: e as usize,
                                median_ms: optional_index(first_position(h, "median_ms"@)),
                                output_bytes: optional_index(first_position(h, "output_bytes"@)),
                                peak_rss_bytes: optional_index(first_position(h, "peak_rss_bytes"@)),
                                stddev_ms: optional_index(first_position(h, "stddev_ms"@)),
                            },
                        ),
                    },
                },
            },
        },
    }
}

fn column_of(headers: &Vec<String>, name: &str) -> (r: Option<usize>)
    ensures
        optional_index(option_usize_view(r)) == r,
        option_usize_view(r) == first_position(strings_view(headers@), name@),
{
    let wanted = copy_str(name);
    position_of(headers.as_slice(), &wanted)
}

fn required_column(headers: &Vec<String>, name: &str, path: &str) -> (r: Result<usize, String>)
    ensures
        match first_position(strings_view(headers@), name@) {
            Some(i) => r == Ok::<usize, String>(i as usize),
            None => r matches Err(m) && m@ == missing_column_message(path@, name@),
        },
{
    match column_of(headers, name) {
        Some(i) => Ok(i),
        None => {
            let mut message = copy_str("report ");
            push_str(&mut message, path);
            push_str(&mut message, " is missing `");
            push_str(&mut message, name);
            push_str(&mut message, "`");
            Err(message)
        },
    }
}

/// Finds the report columns in a header; `path` names the report in the
/// message for a missing column.
pub fn report_columns(headers: &Vec<String>, path: &str) -> (r: Result<ReportColumns, String>)
    ensures
        match report_columns_spec(strings_view(headers@), path@) {
            Ok(c) => r == Ok::<ReportColumns, String>(c),
            Err(m) => r matches Err(e) && e@ == m,
        },
{
    let workload = match required_column(headers, "workload", path) {
        Ok(i) => i,
        Err(e) => return Err(e),
    };
    let input_format = match required_column(headers, "input_format", path) {
        Ok(i) => i,
        Err(e) => return Err(e),
    };
    let output_format = match required_column(headers, "output_format", path) {
        Ok(i) => i,
        Err(e) => return Err(e),
    };
    let engine = column_of(headers, "engine");
    let status = match required_column(headers, "status", path) {
        Ok(i) => i,
        Err(e) => return Err(e),
    };
    let elapsed_ms = match required_column(headers, "elapsed_ms", path) {
        Ok(i) => i,
        Err(e) => return Err(e),
    };
    Ok(
        ReportColumns {
            workload,
            input_format,
            output_format,
            engine,
            status,
            elapsed_ms,
            median_ms: column_of(headers, "median_ms"),
            output_bytes: column_of(headers, "output_bytes"),
            peak_rss_bytes: column_of(headers, "peak_rss_bytes"),
            stddev_ms: column_of(headers, "stddev_ms"),
        },
    )
}

// ---------------------------------------------------------------------------
// Rows
// ---------------------------------------------------------------------------

/// One row of a benchmark report. The standard deviation is kept as the
/// cell's text where the cell is not empty: reading it as a number is
/// binary64 arithmetic, left to the caller.
#[derive(Debug)]
pub struct ReportRow {
    pub workload: String,
    pub input_format: String,
    pub output_format: String,
    pub engine: String,
    pub status: String,
    pub elapsed_ms: u128,
    pub median_ms: Option<u128>,
    pub output_bytes: Option<u64>,
    pub peak_rss_bytes: Option<u64>,
    pub stddev_cell: Option<String>,
}

pub struct ReportRowView {
    pub workload: Seq<char>,
    pub input_format: Seq<char>,
    pub output_format: Seq<char>,
    pub engine: Seq<char>,
    pub status: Seq<char>,
    pub elapsed_ms: u128,
    pub median_ms: Option<u128>,
    pub output_bytes: Option<u64>,
    pub peak_rss_bytes: Option<u64>,
    pub stddev_cell: Option<Seq<char>>,
}

impl View for ReportRow {
    type V = ReportRowView;

    open spec fn view(&self) -> ReportRowView {
        ReportRowView {
            workload: self.workload@,
            input_format: self.input_format@,
            output_format: self.output_format@,
            engine: self.engine@,
            status: self.status@,
            elapsed_ms: self.elapsed_ms,
            median_ms: self.median_ms,
            output_bytes: self.output_bytes,
            peak_rss_bytes: self.peak_rss_bytes,
            stddev_cell: match self.stddev_cell {
                Some(s) => Some(s@),
                None => None,
            },
        }
    }
}

/// The field at `i`, or the empty text where the record is shorter.
pub open spec fn field_or_empty(fields: Seq<Seq<char>>, i: int) -> Seq<char> {
    if 0 <= i < fields.len() {
        fields[i]
    } else {
        Seq::empty()
    }
}

/// The field in an optional column.
pub open spec fn optional_field(fields: Seq<Seq<char>>, i: Option<usize>) -> Option<Seq<char>> {
    match i {
        Some(i) => if i < fields.len() {
            Some(fields[i as int])
        } else {
            None
        },
        None => None,
    }
}

/// The row that a record's fields make under the given columns: a missing
/// field reads as empty, an engine that is absent or empty as
/// `unspecified`, an elapsed time that does not parse as 0, and an optional
/// number that is absent, empty or does not parse as none.
pub open spec fn report_row_spec(c: ReportColumns, f: Seq<Seq<char>>) -> ReportRowView {
    ReportRowView {
        workload: field_or_empty(f, c.workload as int),
        input_format: field_or_empty(f, c.input_format as int),
        output_format: field_or_empty(f, c.output_format as int),
        engine: match optional_field(f, c.engine) {
            Some(t) => if t.len() > 0 {
                t
            } else {
                "unspecified"@
            },
            None => "unspecified"@,
        },
        status: field_or_empty(f, c.status as int),
        elapsed_ms: match parse_u128_spec(field_or_empty(f, c.elapsed_ms as int)) {
            Some(v) => v,
            None => 0,
        },
        median_ms: optional_u128_spec(optional_field(f, c.median_ms)),
        output_bytes: optional_u64_spec(optional_field(f, c.output_bytes)),
        peak_rss_bytes: optional_u64_spec(optional_field(f, c.peak_rss_bytes)),
        stddev_cell: match optional_field(f, c.stddev_ms) {
            Some(t) => if t.len() > 0 {
                Some(t)
            } else {
                None
            },
            None => None,
        },
    }
}

fn field_text(record: &csv::StringRecord, i: usize) -> (r: String)
    ensures
        r@ == field_or_empty(string_record_fields(*record), i as int),
{
    match record_field(record, i) {
        Some(t) => t,
        None => String::new(),
    }
}

fn optional_field_text(record: &csv::StringRecord, i: Option<usize>) -> (r: Option<String>)
    ensures
        match optional_field(string_record_fields(*record), i) {
            Some(t) => r matches Some(s) && s@ == t,
            None => r is None,
        },
{
    match i {
        Some(i) => record_field(record, i),
        None => None,
    }
}

/// Reads one report record under the given columns.
pub fn report_row(columns: &ReportColumns, record: &csv::StringRecord) -> (r: ReportRow)
    ensures
        r@ == report_row_spec(*columns, string_record_fields(*record)),
{
    let ghost f = string_record_fields(*record);
    let engine = match optional_field_text(record, columns.engine) {
        Some(t) => {
            if chars_of(t.as_str()).len() > 0 {
                t
            } else {
                copy_str("unspecified")
            }
        },
        None => copy_str("unspecified"),
    };
    let elapsed_text = field_text(record, columns.elapsed_ms);
    let elapsed_chars = chars_of(elapsed_text.as_str());
    let elapsed_ms = match parse_u128_text(elapsed_chars.as_slice()) {
        Some(v) => v,
        None => 0,
    };
    let stddev_cell = match optional_field_text(record, columns.stddev_ms) {
        Some(t) => {
            if chars_of(t.as_str()).len() > 0 {
                Some(t)
            } else {
                None
            }
        },
        None => None,
    };
    proof {
        match columns.median_ms {
            Some(i) => assert(optional_field(f, Some(i)) == record_field_spec(*record, i as int)),
            None => {},
        }
        match columns.output_bytes {
            Some(i) => assert(optional_field(f, Some(i)) == record_field_spec(*record, i as int)),
            None => {},
        }
        match columns.peak_rss_bytes {
            Some(i) => assert(optional_field(f, Some(i)) == record_field_spec(*record, i as int)),
            None => {},
        }
    }
    ReportRow {
        workload: field_text(record, columns.workload),
        input_format: field_text(record, columns.input_format),
        output_format: field_text(record, columns.output_format),
        engine,
        status: field_text(record, columns.status),
        elapsed_ms,
        median_ms: parse_optional_u128(record, columns.median_ms),
        output_bytes: parse_optional_u64(record, columns.output_bytes),
        peak_rss_bytes: parse_optional_u64(record, columns.peak_rss_bytes),
        stddev_cell,
    }
}

/// The rows of a report, given its header and its records in order.
pub fn read_report_rows(headers: &Vec<String>, records: &Vec<csv::StringRecord>, path: &str) -> (r: Result<Vec<ReportRow>, String>)
    ensures
        match report_columns_spec(strings_view(headers@), path@) {
            Ok(c) => r matches Ok(rows) && rows.len() == records.len() && forall|i: int|
                0 <= i < records.len() ==> #[trigger] rows[i]@ == report_row_spec(c, string_record_fields(records[i])),
            Err(m) => r matches Err(e) && e@ == m,
        },
{
    let columns = match report_columns(headers, path) {
        Ok(c) => c,
        Err(e) => return Err(e),
    };
    let mut rows: Vec<ReportRow> = Vec::new();
    let mut i: usize = 0;
    while i < records.len()
        invariant
            i <= records.len(),
            rows.len() == i,
            forall|k: int| 0 <= k < i ==> #[trigger] rows[k]@ == report_row_spec(columns, string_record_fields(records[k])),
        decreases records.len() - i,
    {
        rows.push(report_row(&columns, &records[i]));
        i += 1;
    }
    Ok(rows)
}

/// A row's key without its engine: workload, input format, output format.
pub open spec fn row_key(r: ReportRowView) -> (Seq<char>, Seq<char>, Seq<char>) {
    (r.workload, r.input_format, r.output_format)
}

/// The time a row is compared by: its median where it has one, else its
/// elapsed time.
pub open spec fn compare_ms_spec(r: ReportRowView) -> u128 {
    match r.median_ms {
        Some(m) => m,
        None => r.elapsed_ms,
    }
}

impl ReportRow {
    /// The row's workload, input format and output format.
    pub fn key_without_engine(&self) -> (r: (String, String, String))
        ensures
            (r.0@, r.1@, r.2@) == row_key(self@),
    {
        (self.workload.clone(), self.input_format.clone(), self.output_format.clone())
    }

    /// `input->output`.
    pub fn format_label(&self) -> (r: String)
        ensures
            r@ == self.input_format@ + "->"@ + self.output_format@,
    {
        let mut out = self.input_format.clone();
        push_str(&mut out, "->");
        push_str(&mut out, self.output_format.as_str());
        out
    }

    /// The median time where the row has one, else the elapsed time.
    pub fn compare_ms(&self) -> (r: u128)
        ensures
            r == compare_ms_spec(self@),
    {
        match self.median_ms {
            Some(m) => m,
            None => self.elapsed_ms,
        }
    }
}

// ---------------------------------------------------------------------------
// Comparing a run with a baseline
// ---------------------------------------------------------------------------

/// The last baseline row with the given key: a later row with the same key
/// replaces an earlier one.
pub open spec fn last_with_key(rows: Seq<ReportRowView>, key: (Seq<char>, Seq<char>, Seq<char>)) -> Option<int>
    decreases rows.len(),
{
    if rows.len() == 0 {
        None
    } else if row_key(rows.last()) == key {
        Some(rows.len() - 1)
    } else {
        last_with_key(rows.drop_last(), key)
    }
}

/// How one run row compares with the baseline.
#[derive(Clone, Copy, Debug, Eq, PartialEq, Structural)]
pub enum Comparison {
    /// No baseline row has the same workload and formats.
    NoBaseline,
    /// The run row or its baseline did not succeed.
    NotCompared { baseline_ms: u128 },
    /// Both succeeded: how much slower the run is (zero where it is not), and
    /// whether that exceeds the absolute threshold. Whether it also exceeds
    /// the relative threshold is binary64 arithmetic, left to the caller.
    Compared { baseline_ms: u128, current_ms: u128, regression_ms: u128, over_absolute: bool },
}

pub open spec fn rows_view(rows: Seq<ReportRow>) -> Seq<ReportRowView> {
    rows.map_values(|r: ReportRow| r@)
}

pub open spec fn comparison_spec(baseline: Seq<ReportRowView>, row: ReportRowView, max_absolute_regression_ms: u128) -> Comparison {
    match last_with_key(baseline, row_key(row)) {
        None => Comparison::NoBaseline,
        Some(j) => {
            let b = baseline[j];
            if row.status != "ok"@ || b.status != "ok"@ {
                Comparison::NotCompared { baseline_ms: compare_ms_spec(b) }
            } else {
                let base = compare_ms_spec(b);
                let current = compare_ms_spec(row);
                let regression: u128 = if current > base { (current - base) as u128 } else { 0 };
                Comparison::Compared {
                    baseline_ms: base,
                    current_ms: current,
                    regression_ms: regression,
                    over_absolute: regression > max_absolute_regression_ms,
                }
            }
        },
    }
}

proof fn lemma_last_with_key(rows: Seq<ReportRowView>, key: (Seq<char>, Seq<char>, Seq<char>))
    ensures
        match last_with_key(rows, key) {
            Some(j) => 0 <= j < rows.len() && row_key(rows[j]) == key && forall|k: int|
                j < k < rows.len() ==> row_key(#[trigger] rows[k]) != key,
            None => forall|k: int| 0 <= k < rows.len() ==> row_key(#[trigger] rows[k]) != key,
        },
    decreases rows.len(),
{
    if rows.len() > 0 {
        lemma_last_with_key(rows.drop_last(), key);
        assert forall|k: int| 0 <= k < rows.len() - 1 implies rows[k] == rows.drop_last()[k] by {}
    }
}

/// How a run row fares against the baseline, over all rows: with no
/// baseline row of the same workload and formats it has no baseline;
/// otherwise the last such baseline row is the one it is held against. A
/// run or baseline row whose status is not `ok` is never compared; two `ok`
/// rows are compared by their median (else elapsed) times, the regression
/// being how much slower the run is and zero when it is not slower, and it
/// is over the absolute threshold exactly when it exceeds it.
pub proof fn lemma_comparison_outcomes(baseline: Seq<ReportRowView>, row: ReportRowView, max_absolute_regression_ms: u128)
    ensures
        (comparison_spec(baseline, row, max_absolute_regression_ms) is NoBaseline) <==> (forall|k: int|
            0 <= k < baseline.len() ==> (#[trigger] baseline[k]).workload != row.workload || baseline[k].input_format
                != row.input_format || baseline[k].output_format != row.output_format),
        row.status != "ok"@ ==> !(comparison_spec(baseline, row, max_absolute_regression_ms) is Compared),
        !(comparison_spec(baseline, row, max_absolute_regression_ms) is NoBaseline) ==> exists|j: int|
            0 <= j < baseline.len() && (#[trigger] baseline[j]).workload == row.workload && baseline[j].input_format
                == row.input_format && baseline[j].output_format == row.output_format && (forall|k: int|
                j < k < baseline.len() ==> (#[trigger] baseline[k]).workload != row.workload || baseline[k].input_format
                    != row.input_format || baseline[k].output_format != row.output_format) && match comparison_spec(
                baseline,
                row,
                max_absolute_regression_ms,
            ) {
                Comparison::NotCompared { baseline_ms } => (row.status != "ok"@ || baseline[j].status != "ok"@)
                    && baseline_ms == match baseline[j].median_ms {
                    Some(m) => m,
                    None => baseline[j].elapsed_ms,
                },
                Comparison::Compared { baseline_ms, current_ms, regression_ms, over_absolute } => {
                    &&& row.status == "ok"@
                    &&& baseline[j].status == "ok"@
                    &&& baseline_ms == match baseline[j].median_ms {
                        Some(m) => m,
                        None => baseline[j].elapsed_ms,
                    }
                    &&& current_ms == match row.median_ms {
                        Some(m) => m,
                        None => row.elapsed_ms,
                    }
                    &&& regression_ms + baseline_ms == if current_ms > baseline_ms { current_ms as int } else { baseline_ms as int }
                    &&& over_absolute == (regression_ms > max_absolute_regression_ms)
                },
                Comparison::NoBaseline => false,
            },
{
    lemma_last_with_key(baseline, row_key(row));
    match last_with_key(baseline, row_key(row)) {
        Some(j) => {
            assert(baseline[j].workload == row.workload);
        },
        None => {
            assert forall|k: int| 0 <= k < baseline.len() implies (#[trigger] baseline[k]).workload != row.workload
                || baseline[k].input_format != row.input_format || baseline[k].output_format != row.output_format by {
                assert(row_key(baseline[k]) != row_key(row));
            }
        },
    }
}

fn same_key(a: &ReportRow, b: &ReportRow) -> (r: bool)
    ensures
        r == (row_key(a@) == row_key(b@)),
{
    crate::text::string_eq(&a.workload, &b.workload) && crate::text::string_eq(&a.input_format, &b.input_format)
        && crate::text::string_eq(&a.output_format, &b.output_format)
}

/// Compares a run row with the baseline rows.
pub fn compare_row(baseline: &Vec<ReportRow>, row: &ReportRow, max_absolute_regression_ms: u128) -> (r: Comparison)
    ensures
        r == comparison_spec(rows_view(baseline@), row@, max_absolute_regression_ms),
{
    let ghost bv = rows_view(baseline@);
    let mut found: Option<usize> = None;
    let mut i: usize = 0;
    while i < baseline.len()
        invariant
            i <= baseline.len(),
            bv == rows_view(baseline@),
            bv.len() == baseline.len(),
            option_usize_view(found) == last_with_key(bv.take(i as int), row_key(row@)),
            found matches Some(j) ==> j < i,
        decreases baseline.len() - i,
    {
        assert(bv.take(i + 1).drop_last() =~= bv.take(i as int));
        assert(bv.take(i + 1).last() == baseline@[i as int]@);
        if same_key(&baseline[i], row) {
            found = Some(i);
        }
        i += 1;
    }
    assert(bv.take(i as int) =~= bv);
    match found {
        None => Comparison::NoBaseline,
        Some(j) => {
            let b = &baseline[j];
            assert(bv[j as int] == b@);
            if !str_eq(row.status.as_str(), "ok") || !str_eq(b.status.as_str(), "ok") {
                Comparison::NotCompared { baseline_ms: b.compare_ms() }
            } else {
                let base = b.compare_ms();
                let current = row.compare_ms();
                let regression = if current > base { current - base } else { 0 };
                Comparison::Compared {
                    baseline_ms: base,
                    current_ms: current,
                    regression_ms: regression,
                    over_absolute: regression > max_absolute_regression_ms,
                }
            }
        },
    }
}

/// The outcome of a comparison with `regressions` rows over both
/// thresholds.
pub fn comparison_result(regressions: usize) -> (r: Result<(), String>)
    ensures
        regressions == 0 ==> r is Ok,
        regressions > 0 ==> (r matches Err(m) && m@ == decimal(regressions as nat)
            + " regression(s) exceeded configured thresholds"@),
{
    if regressions == 0 {
        Ok(())
    } else {
        let mut m = String::new();
        push_decimal_u128(&mut m, regressions as u128);
        push_str(&mut m, " regression(s) exceeded configured thresholds");
        Err(m)
    }
}

// ---------------------------------------------------------------------------
// Rendering
// ---------------------------------------------------------------------------

/// `text` padded with spaces after it to `width` characters (`{:<width}`).
pub open spec fn pad_end(text: Seq<char>, width: nat) -> Seq<char> {
    if text.len() >= width {
        text
    } else {
        text + repeated(' ', (width - text.len()) as nat)
    }
}

/// `text` padded with spaces before it to `width` characters (`{:>width}`).
pub open spec fn pad_start(text: Seq<char>, width: nat) -> Seq<char> {
    if text.len() >= width {
        text
    } else {
        repeated(' ', (width - text.len()) as nat) + text
    }
}

fn push_padded_end(out: &mut String, text: &str, width: usize)
    ensures
        final(out)@ == old(out)@ + pad_end(text@, width as nat),
{
    let n = chars_of(text).len();
    push_str(out, text);
    if n < width {
        push_repeated(out, ' ', width - n);
        assert(old(out)@ + text@ + repeated(' ', (width - n) as nat) =~= old(out)@ + (text@ + repeated(' ', (width - n) as nat)));
    }
}

fn push_padded_start(out: &mut String, text: &str, width: usize)
    ensures
        final(out)@ == old(out)@ + pad_start(text@, width as nat),
{
    let n = chars_of(text).len();
    if n < width {
        push_repeated(out, ' ', width - n);
        push_str(out, text);
        assert(old(out)@ + repeated(' ', (width - n) as nat) + text@ =~= old(out)@ + (repeated(' ', (width - n) as nat) + text@));
    } else {
        push_str(out, text);
    }
}

/// One line of the comparison table: seven columns, the first four
/// left-aligned to 43, 18, 7 and 11 characters, the last three
/// right-aligned to 10, 10 and 11, one space apart.
pub open spec fn table_line(cells: Seq<Seq<char>>) -> Seq<char> {
    pad_end(cells[0], 43) + " "@ + pad_end(cells[1], 18) + " "@ + pad_end(cells[2], 7) + " "@
        + pad_end(cells[3], 11) + " "@ + pad_start(cells[4], 10) + " "@ + pad_start(cells[5], 10) + " "@
        + pad_start(cells[6], 11)
}

/// The first four columns and the two times of a compared row, before the
/// improvement column.
pub open spec fn compared_prefix(cells: Seq<Seq<char>>) -> Seq<char> {
    pad_end(cells[0], 43) + " "@ + pad_end(cells[1], 18) + " "@ + pad_end(cells[2], 7) + " "@
        + pad_end(cells[3], 11) + " "@ + pad_start(cells[4], 10) + " "@ + pad_start(cells[5], 10) + " "@
}

fn push_table_prefix(out: &mut String, cells: &Vec<String>)
    requires
        cells.len() >= 6,
    ensures
        final(out)@ == old(out)@ + compared_prefix(strings_view(cells@)),
{
    let ghost c = strings_view(cells@);
    let mut p = String::new();
    push_padded_end(&mut p, cells[0].as_str(), 43);
    push_str(&mut p, " ");
    let ghost p1 = p@;
    push_padded_end(&mut p, cells[1].as_str(), 18);
    push_str(&mut p, " ");
    let ghost p2 = p@;
    push_padded_end(&mut p, cells[2].as_str(), 7);
    push_str(&mut p, " ");
    let ghost p3 = p@;
    push_padded_end(&mut p, cells[3].as_str(), 11);
    push_str(&mut p, " ");
    let ghost p4 = p@;
    push_padded_start(&mut p, cells[4].as_str(), 10);
    push_str(&mut p, " ");
    let ghost p5 = p@;
    push_padded_start(&mut p, cells[5].as_str(), 10);
    push_str(&mut p, " ");
    proof {
        assert(c[0] == cells@[0]@ && c[1] == cells@[1]@ && c[2] == cells@[2]@);
        assert(c[3] == cells@[3]@ && c[4] == cells@[4]@ && c[5] == cells@[5]@);
        assert(p1 =~= pad_end(c[0], 43) + " "@);
        assert(p2 =~= pad_end(c[0], 43) + " "@ + pad_end(c[1], 18) + " "@);
        assert(p3 =~= pad_end(c[0], 43) + " "@ + pad_end(c[1], 18) + " "@ + pad_end(c[2], 7) + " "@);
        assert(p4 =~= pad_end(c[0], 43) + " "@ + pad_end(c[1], 18) + " "@ + pad_end(c[2], 7) + " "@
            + pad_end(c[3], 11) + " "@);
        assert(p5 =~= pad_end(c[0], 43) + " "@ + pad_end(c[1], 18) + " "@ + pad_end(c[2], 7) + " "@
            + pad_end(c[3], 11) + " "@ + pad_start(c[4], 10) + " "@);
        assert(p@ =~= compared_prefix(c));
    }
    push_str(out, p.as_str());
}

/// One line of the comparison table.
pub fn table_line_text(cells: &Vec<String>) -> (r: String)
    requires
        cells.len() == 7,
    ensures
        r@ == table_line(strings_view(cells@)),
{
    let mut out = String::new();
    push_table_prefix(&mut out, cells);
    push_padded_start(&mut out, cells[6].as_str(), 11);
    assert(strings_view(cells@)[6] == cells@[6]@);
    assert(out@ =~= table_line(strings_view(cells@)));
    out
}

/// The comparison table's header line.
pub fn comparison_header() -> (r: String)
    ensures
        r@ == table_line(seq!["workload"@, "format"@, "engine"@, "status"@, "baseline"@, "current"@, "improvement"@]),
{
    let cells = vec![
        copy_str("workload"),
        copy_str("format"),
        copy_str("engine"),
        copy_str("status"),
        copy_str("baseline"),
        copy_str("current"),
        copy_str("improvement"),
    ];
    let r = table_line_text(&cells);
    assert(strings_view(cells@) =~= seq!["workload"@, "format"@, "engine"@, "status"@, "baseline"@, "current"@, "improvement"@]);
    r
}

/// The comparison table line of a run row. A compared row's improvement is
/// a binary64 percentage: the caller renders it (`{:+10.1}`) and says
/// whether the row regressed past both thresholds.
pub open spec fn comparison_line_spec(row: ReportRowView, c: Comparison, improvement: Seq<char>, regressed: bool) -> Seq<char> {
    let label = row.input_format + "->"@ + row.output_format;
    let current = decimal(compare_ms_spec(row) as nat);
    match c {
        Comparison::NoBaseline => table_line(
            seq![row.workload, label, row.engine, row.status, "-"@, current, "no baseline"@],
        ),
        Comparison::NotCompared { baseline_ms } => table_line(
            seq![row.workload, label, row.engine, row.status, decimal(baseline_ms as nat), current, "-"@],
        ),
        Comparison::Compared { baseline_ms, current_ms, .. } => compared_prefix(
            seq![row.workload, label, row.engine, row.status, decimal(baseline_ms as nat), decimal(current_ms as nat)],
        ) + improvement + "%"@ + if regressed { " regression"@ } else { Seq::empty() },
    }
}

pub fn comparison_line(row: &ReportRow, c: Comparison, improvement: &str, regressed: bool) -> (r: String)
    ensures
        r@ == comparison_line_spec(row@, c, improvement@, regressed),
{
    let current = crate::text::decimal_string_u128(row.compare_ms());
    match c {
        Comparison::NoBaseline => {
            let cells = vec![
                row.workload.clone(),
                row.format_label(),
                row.engine.clone(),
                row.status.clone(),
                copy_str("-"),
                current,
                copy_str("no baseline"),
            ];
            let r = table_line_text(&cells);
            assert(strings_view(cells@) =~= seq![row.workload@, row.input_format@ + "->"@ + row.output_format@, row.engine@, row.status@, "-"@, decimal(compare_ms_spec(row@) as nat), "no baseline"@]);
            r
        },
        Comparison::NotCompared { baseline_ms } => {
            let cells = vec![
                row.workload.clone(),
                row.format_label(),
                row.engine.clone(),
                row.status.clone(),
                crate::text::decimal_string_u128(baseline_ms),
                current,
                copy_str("-"),
            ];
            let r = table_line_text(&cells);
            assert(strings_view(cells@) =~= seq![row.workload@, row.input_format@ + "->"@ + row.output_format@, row.engine@, row.status@, decimal(baseline_ms as nat), decimal(compare_ms_spec(row@) as nat), "-"@]);
            r
        },
        Comparison::Compared { baseline_ms, current_ms, .. } => {
            let cells = vec![
                row.workload.clone(),
                row.format_label(),
                row.engine.clone(),
                row.status.clone(),
                crate::text::decimal_string_u128(baseline_ms),
                crate::text::decimal_string_u128(current_ms),
            ];
            let mut out = String::new();
            push_table_prefix(&mut out, &cells);
            assert(strings_view(cells@) =~= seq![row.workload@, row.input_format@ + "->"@ + row.output_format@, row.engine@, row.status@, decimal(baseline_ms as nat), decimal(current_ms as nat)]);
            push_str(&mut out, improvement);
            push_str(&mut out, "%");
            if regressed {
                push_str(&mut out, " regression");
            }
            assert(out@ =~= comparison_line_spec(row@, c, improvement@, regressed));
            out
        },
    }
}

/// The markdown table's two header lines.
pub fn markdown_header() -> (r: (String, String))
    ensures
        r.0@ == "| workload | format | engine | status | median ms | stddev ms | output bytes | peak RSS bytes |"@,
        r.1@ == "| --- | --- | --- | --- | ---: | ---: | ---: | ---: |"@,
{
    (
        copy_str("| workload | format | engine | status | median ms | stddev ms | output bytes | peak RSS bytes |"),
        copy_str("| --- | --- | --- | --- | ---: | ---: | ---: | ---: |"),
    )
}

pub open spec fn optional_decimal(o: Option<u64>) -> Seq<char> {
    match o {
        Some(v) => decimal(v as nat),
        None => Seq::empty(),
    }
}

/// A row of the markdown table. The standard deviation arrives rendered
/// (`{:.3}`, or empty where the row has none): that is binary64 formatting.
pub open spec fn markdown_row_spec(row: ReportRowView, stddev: Seq<char>) -> Seq<char> {
    "| "@ + row.workload + " | "@ + row.input_format + "->"@ + row.output_format + " | "@ + row.engine + " | "@
        + row.status + " | "@ + decimal(compare_ms_spec(row) as nat) + " | "@ + stddev + " | "@
        + optional_decimal(row.output_bytes) + " | "@ + optional_decimal(row.peak_rss_bytes) + " |"@
}

fn push_optional_decimal(out: &mut String, o: Option<u64>)
    ensures
        final(out)@ == old(out)@ + optional_decimal(o),
{
    match o {
        Some(v) => push_decimal_u128(out, v as u128),
        None => {
            assert(old(out)@ + Seq::<char>::empty() =~= old(out)@);
        },
    }
}

pub fn markdown_row(row: &ReportRow, stddev: &str) -> (r: String)
    ensures
        r@ == markdown_row_spec(row@, stddev@),
{
    let mut out = copy_str("| ");
    push_str(&mut out, row.workload.as_str());
    push_str(&mut out, " | ");
    push_str(&mut out, row.format_label().as_str());
    push_str(&mut out, " | ");
    push_str(&mut out, row.engine.as_str());
    push_str(&mut out, " | ");
    push_str(&mut out, row.status.as_str());
    push_str(&mut out, " | ");
    push_decimal_u128(&mut out, row.compare_ms());
    push_str(&mut out, " | ");
    push_str(&mut out, stddev);
    push_str(&mut out, " | ");
    push_optional_decimal(&mut out, row.output_bytes);
    push_str(&mut out, " | ");
    push_optional_decimal(&mut out, row.peak_rss_bytes);
    push_str(&mut out, " |");
    assert(out@ =~= markdown_row_spec(row@, stddev@));
    out
}

} // verus!
