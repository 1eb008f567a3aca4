//! Reading CSV, Arrow IPC, Parquet and JSON Lines inputs from their bytes,
//! and writing a table as CSV bytes.
use vstd::prelude::*;
use vstd::string::StringSliceAdditionalSpecFns;
use vstd::utf8::*;

use crate::codes;
use crate::diagnostic::{Diagnostic, DiagnosticView, code_text};
use crate::format::{DataFormat, is_unicode_whitespace, is_whitespace, str_from_utf8, trim_start_spec,
    utf8_error_text_of};
use crate::severity::Severity;
use crate::span::Span;
use crate::frame::Table;
use crate::value::{cell_text, number_view, Value, ValueView};
use crate::text::{strings_view, chars_of, chars_eq, copy_string, decimal, push_decimal, push_str,
    string_from_chars};

verus! {

pub open spec fn fields_result_view(r: Result<Vec<String>, String>) -> Result<Seq<Seq<char>>, Seq<char>> {
    match r {
        Ok(v) => Ok(strings_view(v@)),
        Err(e) => Err(e@),
    }
}

/// The header fields the `csv` crate reads from CSV bytes, or its error text.
pub uninterp spec fn csv_header_result(bytes: Seq<u8>) -> Result<Seq<Seq<char>>, Seq<char>>;

/// The field names of the schema that `arrow_ipc`'s stream reader reads, or
/// its error text.
pub uninterp spec fn arrow_stream_fields_result(bytes: Seq<u8>) -> Result<Seq<Seq<char>>, Seq<char>>;

/// The field names of the schema that `arrow_ipc`'s file reader reads, or
/// its error text.
pub uninterp spec fn arrow_file_fields_result(bytes: Seq<u8>) -> Result<Seq<Seq<char>>, Seq<char>>;

/// The field names of the Arrow schema that `parquet`'s reader builder
/// reads, or its error text.
pub uninterp spec fn parquet_fields_result(bytes: Seq<u8>) -> Result<Seq<Seq<char>>, Seq<char>>;

/// Calls the `csv` crate: a reader with a header row over `bytes`, and its
/// `headers()`. The result is named, not described.
#[verifier::external_body]
fn csv_headers(bytes: &[u8]) -> (r: Result<Vec<String>, String>)
    ensures
        fields_result_view(r) == csv_header_result(bytes@),
{
    let mut reader = csv::ReaderBuilder::new().has_headers(true).from_reader(std::io::Cursor::new(bytes));
    match reader.headers() {
        Ok(headers) => Ok(headers.iter().map(|field| field.to_string()).collect()),
        Err(error) => Err(error.to_string()),
    }
}

/// The records the `csv` crate reads after the header row of CSV bytes,
/// each as its fields, or the error text of the first it cannot read.
pub uninterp spec fn csv_records_result(bytes: Seq<u8>) -> Result<Seq<Seq<Seq<char>>>, Seq<char>>;

pub open spec fn records_view(rows: Seq<Vec<String>>) -> Seq<Seq<Seq<char>>> {
    rows.map_values(|row: Vec<String>| strings_view(row@))
}

pub open spec fn records_result_view(r: Result<Vec<Vec<String>>, String>) -> Result<Seq<Seq<Seq<char>>>, Seq<char>> {
    match r {
        Ok(rows) => Ok(records_view(rows@)),
        Err(e) => Err(e@),
    }
}

/// Calls the `csv` crate: a reader with a header row over `bytes`, and its
/// `records()` collected up to the first error, each record's fields as
/// text. The result is named, not described.
#[verifier::external_body]
fn csv_records(bytes: &[u8]) -> (r: Result<Vec<Vec<String>>, String>)
    ensures
        records_result_view(r) == csv_records_result(bytes@),
{
    let mut reader = csv::ReaderBuilder::new().has_headers(true).from_reader(std::io::Cursor::new(bytes));
    reader
        .records()
        .map(|record| record.map(|record| record.iter().map(|field| field.to_string()).collect()))
        .collect::<Result<Vec<Vec<String>>, _>>()
        .map_err(|error| error.to_string())
}

/// Calls `arrow_ipc::reader::StreamReader::try_new` on `bytes` and reads the
/// schema's field names. The result is named, not described.
#[verifier::external_body]
fn arrow_stream_fields(bytes: &[u8]) -> (r: Result<Vec<String>, String>)
    ensures
        fields_result_view(r) == arrow_stream_fields_result(bytes@),
{
    match arrow_ipc::reader::StreamReader::try_new(std::io::Cursor::new(bytes), None) {
        Ok(reader) => Ok(reader.schema().fields().iter().map(|field| field.name().clone()).collect()),
        Err(error) => Err(error.to_string()),
    }
}

/// Calls `arrow_ipc::reader::FileReader::try_new` on `bytes` and reads the
/// schema's field names. The result is named, not described.
#[verifier::external_body]
fn arrow_file_fields(bytes: &[u8]) -> (r: Result<Vec<String>, String>)
    ensures
        fields_result_view(r) == arrow_file_fields_result(bytes@),
{
    match arrow_ipc::reader::FileReader::try_new(std::io::Cursor::new(bytes), None) {
        Ok(reader) => Ok(reader.schema().fields().iter().map(|field| field.name().clone()).collect()),
        Err(error) => Err(error.to_string()),
    }
}

/// Calls `parquet::arrow::arrow_reader::ParquetRecordBatchReaderBuilder::try_new`
/// on a copy of `bytes` and reads the Arrow schema's field names. The result
/// is named, not described.
#[verifier::external_body]
fn parquet_fields(bytes: &[u8]) -> (r: Result<Vec<String>, String>)
    ensures
        fields_result_view(r) == parquet_fields_result(bytes@),
{
    let data = bytes::Bytes::copy_from_slice(bytes);
    match parquet::arrow::arrow_reader::ParquetRecordBatchReaderBuilder::try_new(data) {
        Ok(builder) => Ok(builder.schema().fields().iter().map(|field| field.name().clone()).collect()),
        Err(error) => Err(error.to_string()),
    }
}

/// The error that reading `path` failed: `E1804`, `<what> for `<path>`: <detail>`.
pub open spec fn read_failure(what: Seq<char>, path: Seq<char>, detail: Seq<char>) -> DiagnosticView {
    DiagnosticView {
        severity: Severity::Error,
        code: code_text(0, 1804),
        message: what + " for `"@ + path + "`: "@ + detail,
        span: Span { start: 0, end: 0 },
        related: Seq::empty(),
        help: None,
    }
}

/// What a schema read gives: the field names, or the read failure.
pub open spec fn schema_outcome(
    r: Result<Vec<String>, Diagnostic>,
    what: Seq<char>,
    path: Seq<char>,
    fields: Result<Seq<Seq<char>>, Seq<char>>,
) -> bool {
    match fields {
        Ok(names) => r matches Ok(v) && strings_view(v@) == names,
        Err(detail) => r matches Err(d) && d@ == read_failure(what, path, detail),
    }
}

/// Field names as they came, or the read failure for `path`.
pub fn fields_or_read_failure(
    what: &str,
    path: &str,
    fields: Result<Vec<String>, String>,
) -> (r: Result<Vec<String>, Diagnostic>)
    ensures
        schema_outcome(r, what@, path@, fields_result_view(fields)),
{
    match fields {
        Ok(names) => Ok(names),
        Err(detail) => {
            let mut message = String::new();
            push_str(&mut message, what);
            push_str(&mut message, " for `");
            push_str(&mut message, path);
            push_str(&mut message, "`: ");
            push_str(&mut message, detail.as_str());
            Err(Diagnostic::error(codes::E1804(), message.as_str(), Span::zero()))
        },
    }
}

/// The header of CSV bytes.
pub fn read_csv_schema_from_bytes(path: &str, bytes: &[u8]) -> (r: Result<Vec<String>, Diagnostic>)
    ensures
        schema_outcome(r, "CSV header parse failed"@, path@, csv_header_result(bytes@)),
{
    fields_or_read_failure("CSV header parse failed", path, csv_headers(bytes))
}

/// The header and the records of CSV bytes, each record's fields as text;
/// the first header or record failure is the error.
pub fn read_csv_cells_from_bytes(path: &str, bytes: &[u8]) -> (r: Result<(Vec<String>, Vec<Vec<String>>), Diagnostic>)
    ensures
        match csv_header_result(bytes@) {
            Err(detail) => r matches Err(d) && d@ == read_failure("CSV header parse failed"@, path@, detail),
            Ok(names) => match csv_records_result(bytes@) {
                Ok(rows) => r matches Ok(out) && strings_view(out.0@) == names && records_view(out.1@) == rows,
                Err(detail) => r matches Err(d) && d@ == read_failure("CSV row parse failed"@, path@, detail),
            },
        },
{
    let header = match fields_or_read_failure("CSV header parse failed", path, csv_headers(bytes)) {
        Ok(header) => header,
        Err(d) => return Err(d),
    };
    match csv_records(bytes) {
        Ok(rows) => Ok((header, rows)),
        Err(detail) => {
            let mut message = String::new();
            push_str(&mut message, "CSV row parse failed");
            push_str(&mut message, " for `");
            push_str(&mut message, path);
            push_str(&mut message, "`: ");
            push_str(&mut message, detail.as_str());
            Err(Diagnostic::error(codes::E1804(), message.as_str(), Span::zero()))
        },
    }
}

/// The bytes the `csv` crate writes for these records, with `\n` after
/// each, or the position of the first record it refuses (the record count
/// for a refused flush) and its error text.
pub uninterp spec fn csv_written_result(records: Seq<Seq<Seq<char>>>) -> Result<Seq<u8>, (nat, Seq<char>)>;

pub open spec fn written_view(r: Result<Vec<u8>, (usize, String)>) -> Result<Seq<u8>, (nat, Seq<char>)> {
    match r {
        Ok(bytes) => Ok(bytes@),
        Err((index, text)) => Err((index as nat, text@)),
    }
}

/// Calls the `csv` crate: a writer with a header row and `\n` terminators
/// into a `Vec<u8>`, `write_record` for each record in turn up to the first
/// error, then `flush`. The result is named, not described.
#[verifier::external_body]
fn csv_write_records(records: &Vec<Vec<String>>) -> (r: Result<Vec<u8>, (usize, String)>)
    ensures
        written_view(r) == csv_written_result(records_view(records@)),
{
    let mut writer =
        csv::WriterBuilder::new().has_headers(true).terminator(csv::Terminator::Any(b'\n')).from_writer(Vec::new());
    for (index, record) in records.iter().enumerate() {
        writer.write_record(record).map_err(|error| (index, error.to_string()))?;
    }
    writer.flush().map_err(|error| (records.len(), error.to_string()))?;
    writer.into_inner().map_err(|error| (records.len(), error.to_string()))
}

/// The records a table is written as: its column names, then each row's
/// cell texts.
pub open spec fn table_records(columns: Seq<Seq<char>>, rows: Seq<Seq<ValueView>>) -> Seq<Seq<Seq<char>>> {
    seq![columns] + rows.map_values(|row: Seq<ValueView>| row.map_values(|v: ValueView| cell_text(v)))
}

pub open spec fn csv_write_failure(what: Seq<char>, detail: Seq<char>) -> DiagnosticView {
    DiagnosticView {
        severity: Severity::Error,
        code: code_text(0, 1704),
        message: what + detail,
        span: Span { start: 0, end: 0 },
        related: Seq::empty(),
        help: None,
    }
}

/// The CSV bytes of a table: a header line of its column names, then a line
/// per row; a refused header, row or flush is the error.
pub fn write_csv_to_vec(table: &Table) -> (r: Result<Vec<u8>, Diagnostic>)
    ensures
        match csv_written_result(table_records(strings_view(table.columns@), crate::frame::rows_view(table.rows@))) {
            Ok(bytes) => r matches Ok(v) && v@ == bytes,
            Err((index, detail)) => r matches Err(d) && d@ == csv_write_failure(
                if index == 0 {
                    "CSV header write failed: "@
                } else if index <= table.rows.len() {
                    "CSV row write failed: "@
                } else {
                    "CSV flush failed: "@
                },
                detail,
            ),
        },
{
    let ghost rv = crate::frame::rows_view(table.rows@);
    let mut records: Vec<Vec<String>> = Vec::new();
    records.push(crate::text::copy_strings(table.columns.as_slice()));
    let mut i: usize = 0;
    while i < table.rows.len()
        invariant
            i <= table.rows.len(),
            rv == crate::frame::rows_view(table.rows@),
            records_view(records@) == table_records(strings_view(table.columns@), rv.take(i as int)),
        decreases table.rows.len() - i,
    {
        let row = &table.rows[i];
        let mut cells: Vec<String> = Vec::new();
        let mut j: usize = 0;
        while j < row.values.len()
            invariant
                j <= row.values.len(),
                strings_view(cells@) == row.values@.take(j as int).map_values(|v: Value| cell_text(v@)),
            decreases row.values.len() - j,
        {
            let ghost before = cells@;
            cells.push(row.values[j].to_csv_cell());
            assert(strings_view(cells@) =~= strings_view(before).push(cell_text(row.values@[j as int]@)));
            assert(row.values@.take(j + 1).map_values(|v: Value| cell_text(v@)) =~= row.values@.take(j as int).map_values(
                |v: Value| cell_text(v@),
            ).push(cell_text(row.values@[j as int]@)));
            j += 1;
        }
        assert(row.values@.take(j as int) =~= row.values@);
        assert(strings_view(cells@) =~= rv[i as int].map_values(|v: ValueView| cell_text(v)));
        let ghost before = records@;
        records.push(cells);
        assert(records_view(records@) =~= records_view(before).push(strings_view(cells@)));
        assert(table_records(strings_view(table.columns@), rv.take(i + 1)) =~= table_records(
            strings_view(table.columns@),
            rv.take(i as int),
        ).push(rv[i as int].map_values(|v: ValueView| cell_text(v))));
        i += 1;
    }
    assert(rv.take(i as int) =~= rv);
    match csv_write_records(&records) {
        Ok(bytes) => Ok(bytes),
        Err((index, detail)) => {
            let mut message = String::new();
            if index == 0 {
                push_str(&mut message, "CSV header write failed: ");
            } else if index <= table.rows.len() {
                push_str(&mut message, "CSV row write failed: ");
            } else {
                push_str(&mut message, "CSV flush failed: ");
            }
            push_str(&mut message, detail.as_str());
            Err(Diagnostic::error(codes::E1704(), message.as_str(), Span::zero()))
        },
    }
}

/// The schema field names of an Arrow IPC stream.
pub fn read_arrow_stream_schema_from_bytes(path: &str, bytes: &[u8]) -> (r: Result<Vec<String>, Diagnostic>)
    ensures
        schema_outcome(r, "Arrow IPC stream parse failed"@, path@, arrow_stream_fields_result(bytes@)),
{
    fields_or_read_failure("Arrow IPC stream parse failed", path, arrow_stream_fields(bytes))
}

/// The schema field names of an Arrow IPC file.
pub fn read_arrow_file_schema_from_bytes(path: &str, bytes: &[u8]) -> (r: Result<Vec<String>, Diagnostic>)
    ensures
        schema_outcome(r, "Arrow IPC file parse failed"@, path@, arrow_file_fields_result(bytes@)),
{
    fields_or_read_failure("Arrow IPC file parse failed", path, arrow_file_fields(bytes))
}

/// The schema field names of a Parquet file.
pub fn read_parquet_schema_from_bytes(path: &str, bytes: &[u8]) -> (r: Result<Vec<String>, Diagnostic>)
    ensures
        schema_outcome(r, "Parquet parse failed"@, path@, parquet_fields_result(bytes@)),
{
    fields_or_read_failure("Parquet parse failed", path, parquet_fields(bytes))
}

/// A JSON value as a table cell takes it: a number by its JSON text, and
/// an array or object by its JSON text.
#[derive(Debug)]
pub enum JsonCell {
    Null,
    Bool(bool),
    Number(String),
    Text(String),
    Nested(String),
}

pub enum JsonCellView {
    Null,
    Bool(bool),
    Number(Seq<char>),
    Text(Seq<char>),
    Nested(Seq<char>),
}

impl View for JsonCell {
    type V = JsonCellView;

    open spec fn view(&self) -> JsonCellView {
        match self {
            JsonCell::Null => JsonCellView::Null,
            JsonCell::Bool(b) => JsonCellView::Bool(*b),
            JsonCell::Number(t) => JsonCellView::Number(t@),
            JsonCell::Text(t) => JsonCellView::Text(t@),
            JsonCell::Nested(t) => JsonCellView::Nested(t@),
        }
    }
}

pub type JsonEntries = Seq<(Seq<char>, JsonCellView)>;

pub open spec fn entries_view(entries: Seq<(String, JsonCell)>) -> JsonEntries {
    entries.map_values(|e: (String, JsonCell)| (e.0@, e.1@))
}

/// The members of the JSON object that `serde_json` parses from `text`, in
/// the map's order, each value as a cell; `None` when the text is JSON but
/// not an object; or the parse error's text.
pub uninterp spec fn json_object_entries_result(text: Seq<char>) -> Result<Option<JsonEntries>, Seq<char>>;

pub open spec fn entries_result_view(r: Result<Option<Vec<(String, JsonCell)>>, String>) -> Result<Option<JsonEntries>, Seq<char>> {
    match r {
        Ok(Some(v)) => Ok(Some(entries_view(v@))),
        Ok(None) => Ok(None),
        Err(e) => Err(e@),
    }
}

/// Calls `serde_json::from_str::<serde_json::Value>` on `text` and, for an
/// object, lists its members in the map's order, each value by its variant,
/// a number or a nested value by its `Display` text. The result is named,
/// not described.
#[verifier::external_body]
fn json_object_entries(text: &str) -> (r: Result<Option<Vec<(String, JsonCell)>>, String>)
    ensures
        entries_result_view(r) == json_object_entries_result(text@),
{
    match serde_json::from_str::<serde_json::Value>(text) {
        Ok(serde_json::Value::Object(object)) => Ok(Some(object.iter().map(|(key, value)| (key.clone(), match value {
            serde_json::Value::Null => JsonCell::Null,
            serde_json::Value::Bool(b) => JsonCell::Bool(*b),
            serde_json::Value::Number(n) => JsonCell::Number(n.to_string()),
            serde_json::Value::String(t) => JsonCell::Text(t.clone()),
            nested => JsonCell::Nested(nested.to_string()),
        })).collect())),
        Ok(_) => Ok(None),
        Err(error) => Err(error.to_string()),
    }
}

/// `cs` without its trailing whitespace.
pub open spec fn trim_end_spec(cs: Seq<char>) -> Seq<char>
    decreases cs.len(),
{
    if cs.len() > 0 && is_unicode_whitespace(cs.last()) {
        trim_end_spec(cs.drop_last())
    } else {
        cs
    }
}

/// `cs` without leading and trailing whitespace (`str::trim`).
pub open spec fn trim_spec(cs: Seq<char>) -> Seq<char> {
    trim_end_spec(trim_start_spec(cs))
}

/// The pieces of `cs` between newlines; the last piece is what follows the
/// last newline, possibly empty.
pub open spec fn split_newlines(cs: Seq<char>) -> Seq<Seq<char>>
    decreases cs.len(),
{
    if cs.len() == 0 {
        seq![Seq::empty()]
    } else {
        let p = split_newlines(cs.drop_last());
        if cs.last() == '\n' {
            p.push(Seq::empty())
        } else {
            p.update(p.len() - 1, p.last().push(cs.last()))
        }
    }
}

pub proof fn lemma_split_newlines_nonempty(cs: Seq<char>)
    ensures
        split_newlines(cs).len() >= 1,
    decreases cs.len(),
{
    if cs.len() > 0 {
        lemma_split_newlines_nonempty(cs.drop_last());
    }
}

/// `acc` followed by the keys not yet in it, in first-appearance order.
pub open spec fn key_union(acc: Seq<Seq<char>>, keys: Seq<Seq<char>>) -> Seq<Seq<char>>
    decreases keys.len(),
{
    if keys.len() == 0 {
        acc
    } else {
        let a = key_union(acc, keys.drop_last());
        if a.contains(keys.last()) {
            a
        } else {
            a.push(keys.last())
        }
    }
}

pub open spec fn jsonl_failure(message: Seq<char>) -> DiagnosticView {
    DiagnosticView {
        severity: Severity::Error,
        code: code_text(0, 1804),
        message,
        span: Span { start: 0, end: 0 },
        related: Seq::empty(),
        help: None,
    }
}

/// What one JSON Lines line (line number `n`) adds to the objects read so
/// far: nothing when blank, else its object's members.
pub open spec fn jsonl_line_step(
    objects: Seq<JsonEntries>,
    line: Seq<char>,
    n: nat,
    path: Seq<char>,
) -> Result<Seq<JsonEntries>, DiagnosticView> {
    let t = trim_spec(line);
    if t.len() == 0 {
        Ok(objects)
    } else {
        match json_object_entries_result(t) {
            Ok(Some(entries)) => Ok(objects.push(entries)),
            Ok(None) => Err(
                jsonl_failure(
                    "JSON Lines row in `"@ + path + "` at line "@ + decimal(n) + " is not an object"@,
                ),
            ),
            Err(detail) => Err(
                jsonl_failure(
                    "JSON Lines parse failed for `"@ + path + "` at line "@ + decimal(n) + ": "@
                        + detail,
                ),
            ),
        }
    }
}

/// The objects of the lines in order, or the first line's failure.
pub open spec fn jsonl_lines_objects(lines: Seq<Seq<char>>, path: Seq<char>) -> Result<Seq<JsonEntries>, DiagnosticView>
    decreases lines.len(),
{
    if lines.len() == 0 {
        Ok(Seq::empty())
    } else {
        match jsonl_lines_objects(lines.drop_last(), path) {
            Ok(objects) => jsonl_line_step(objects, lines.last(), lines.len(), path),
            Err(d) => Err(d),
        }
    }
}

/// The objects of JSON Lines bytes, one per line that is not blank.
pub open spec fn jsonl_objects_spec(path: Seq<char>, bytes: Seq<u8>) -> Result<Seq<JsonEntries>, DiagnosticView> {
    if valid_utf8(bytes) {
        jsonl_lines_objects(split_newlines(decode_utf8(bytes)), path)
    } else {
        Err(jsonl_failure("JSON Lines input for `"@ + path + "` is not UTF-8: "@ + utf8_error_text_of(bytes)))
    }
}

pub open spec fn entry_keys(entries: JsonEntries) -> Seq<Seq<char>> {
    entries.map_values(|e: (Seq<char>, JsonCellView)| e.0)
}

/// The keys of the objects, each once, in first-appearance order.
pub open spec fn objects_columns(objects: Seq<JsonEntries>) -> Seq<Seq<char>>
    decreases objects.len(),
{
    if objects.len() == 0 {
        Seq::empty()
    } else {
        key_union(objects_columns(objects.drop_last()), entry_keys(objects.last()))
    }
}

/// The columns of JSON Lines bytes: the keys of every object line, each
/// once, in first-appearance order.
pub open spec fn jsonl_schema_spec(path: Seq<char>, bytes: Seq<u8>) -> Result<Seq<Seq<char>>, DiagnosticView> {
    match jsonl_objects_spec(path, bytes) {
        Ok(objects) => Ok(objects_columns(objects)),
        Err(d) => Err(d),
    }
}

/// An object's cell under `column`: the value of its member of that name,
/// or null.
pub open spec fn entry_cell(entries: JsonEntries, column: Seq<char>) -> JsonCellView
    decreases entries.len(),
{
    if entries.len() == 0 {
        JsonCellView::Null
    } else if entries[0].0 == column {
        entries[0].1
    } else {
        entry_cell(entries.drop_first(), column)
    }
}

/// An object's cells under the columns.
pub open spec fn object_row(entries: JsonEntries, columns: Seq<Seq<char>>) -> Seq<JsonCellView> {
    columns.map_values(|c: Seq<char>| entry_cell(entries, c))
}

#[verifier::external_type_specification]
#[verifier::external_body]
#[verifier::reject_recursive_types(T)]
#[verifier::reject_recursive_types(S)]
pub struct ExIndexSet<T, S>(indexmap::IndexSet<T, S>);

/// The names an `indexmap::IndexSet<String>` holds, in its order.
pub uninterp spec fn column_set_items(set: indexmap::IndexSet<String>) -> Seq<Seq<char>>;

/// `indexmap::IndexSet::new`: a set that holds nothing.
#[verifier::external_body]
pub(crate) fn new_column_set() -> (r: indexmap::IndexSet<String>)
    ensures
        column_set_items(r) == Seq::<Seq<char>>::empty(),
{
    indexmap::IndexSet::new()
}

/// `indexmap::IndexSet::insert`: a name the set already holds leaves it
/// as it was and gives `false`; any other name goes last and gives `true`.
#[verifier::external_body]
fn insert_column(set: &mut indexmap::IndexSet<String>, name: String) -> (added: bool)
    ensures
        added == !column_set_items(*old(set)).contains(name@),
        added ==> column_set_items(*final(set)) == column_set_items(*old(set)).push(name@),
        !added ==> column_set_items(*final(set)) == column_set_items(*old(set)),
{
    set.insert(name)
}

/// The set's names in its order, through its `IntoIterator`.
#[verifier::external_body]
pub(crate) fn column_set_names(set: indexmap::IndexSet<String>) -> (r: Vec<String>)
    ensures
        strings_view(r@) == column_set_items(set),
{
    set.into_iter().collect()
}

/// Adds `keys` to the column set, each name not yet in it going last.
pub fn union_keys(columns: &mut indexmap::IndexSet<String>, keys: &Vec<String>)
    ensures
        column_set_items(*final(columns)) == key_union(column_set_items(*old(columns)), strings_view(keys@)),
{
    let ghost acc = column_set_items(*columns);
    let ghost ks = strings_view(keys@);
    let mut j: usize = 0;
    while j < keys.len()
        invariant
            j <= keys.len(),
            ks == strings_view(keys@),
            column_set_items(*columns) == key_union(acc, ks.take(j as int)),
        decreases keys.len() - j,
    {
        assert(ks.take(j + 1).drop_last() =~= ks.take(j as int));
        assert(ks.take(j + 1).last() == keys@[j as int]@);
        insert_column(columns, copy_string(&keys[j]));
        j += 1;
    }
    assert(ks.take(keys.len() as int) =~= ks);
}

pub fn trimmed(line: &Vec<char>) -> (r: String)
    ensures
        r@ == trim_spec(line@),
{
    let mut s: usize = 0;
    assert(line@.skip(0) =~= line@);
    while s < line.len() && is_whitespace(line[s])
        invariant
            s <= line.len(),
            trim_start_spec(line@) == trim_start_spec(line@.skip(s as int)),
        decreases line.len() - s,
    {
        assert(line@.skip(s as int).drop_first() =~= line@.skip(s + 1));
        s += 1;
    }
    assert(trim_start_spec(line@) == line@.skip(s as int));
    let mut e: usize = line.len();
    assert(line@.subrange(s as int, e as int) =~= line@.skip(s as int));
    while e > s && is_whitespace(line[e - 1])
        invariant
            s <= e <= line.len(),
            trim_spec(line@) == trim_end_spec(line@.subrange(s as int, e as int)),
        decreases e,
    {
        assert(line@.subrange(s as int, e as int).drop_last() =~= line@.subrange(s as int, e - 1));
        e -= 1;
    }
    let mut out: Vec<char> = Vec::new();
    let mut k = s;
    while k < e
        invariant
            s <= k <= e <= line.len(),
            out@ == line@.subrange(s as int, k as int),
        decreases e - k,
    {
        out.push(line[k]);
        k += 1;
        assert(out@ =~= line@.subrange(s as int, k as int));
    }
    string_from_chars(out.as_slice())
}

pub open spec fn objects_view(objects: Seq<Vec<(String, JsonCell)>>) -> Seq<JsonEntries> {
    objects.map_values(|o: Vec<(String, JsonCell)>| entries_view(o@))
}

fn absorb_line(
    objects: &mut Vec<Vec<(String, JsonCell)>>,
    line: &Vec<char>,
    line_number: usize,
    path: &str,
) -> (r: Result<(), Diagnostic>)
    ensures
        match jsonl_line_step(objects_view(old(objects)@), line@, line_number as nat, path@) {
            Ok(acc) => r is Ok && objects_view(final(objects)@) == acc,
            Err(d) => r matches Err(e) && e@ == d,
        },
{
    let text = trimmed(line);
    let empty = chars_of(text.as_str()).len() == 0;
    if empty {
        return Ok(());
    }
    match json_object_entries(text.as_str()) {
        Ok(Some(entries)) => {
            let ghost before = objects@;
            objects.push(entries);
            assert(objects_view(objects@) =~= objects_view(before).push(entries_view(entries@)));
            Ok(())
        },
        Ok(None) => {
            let mut message = String::new();
            push_str(&mut message, "JSON Lines row in `");
            push_str(&mut message, path);
            push_str(&mut message, "` at line ");
            push_decimal(&mut message, line_number);
            push_str(&mut message, " is not an object");
            Err(Diagnostic::error(codes::E1804(), message.as_str(), Span::zero()))
        },
        Err(detail) => {
            let mut message = String::new();
            push_str(&mut message, "JSON Lines parse failed for `");
            push_str(&mut message, path);
            push_str(&mut message, "` at line ");
            push_decimal(&mut message, line_number);
            push_str(&mut message, ": ");
            push_str(&mut message, detail.as_str());
            Err(Diagnostic::error(codes::E1804(), message.as_str(), Span::zero()))
        },
    }
}

proof fn lemma_failure_persists(lines: Seq<Seq<char>>, k: int, path: Seq<char>)
    requires
        0 <= k <= lines.len(),
        jsonl_lines_objects(lines.take(k), path) is Err,
    ensures
        jsonl_lines_objects(lines, path) == jsonl_lines_objects(lines.take(k), path),
    decreases lines.len() - k,
{
    if k < lines.len() {
        assert(lines.drop_last().take(k) =~= lines.take(k));
        lemma_failure_persists(lines.drop_last(), k, path);
    } else {
        assert(lines.take(k) =~= lines);
    }
}

pub open spec fn lines_view(lines: Seq<Vec<char>>) -> Seq<Seq<char>> {
    lines.map_values(|l: Vec<char>| l@)
}

/// The pieces of `cs` between newlines.
pub fn split_lines(cs: &Vec<char>) -> (r: Vec<Vec<char>>)
    ensures
        lines_view(r@) == split_newlines(cs@),
{
    let mut lines: Vec<Vec<char>> = Vec::new();
    let mut current: Vec<char> = Vec::new();
    let mut i: usize = 0;
    assert(cs@.take(0) =~= Seq::<char>::empty());
    assert(split_newlines(Seq::<char>::empty()) =~= lines_view(lines@) + seq![current@]);
    while i < cs.len()
        invariant
            i <= cs.len(),
            split_newlines(cs@.take(i as int)) == lines_view(lines@) + seq![current@],
        decreases cs.len() - i,
    {
        let c = cs[i];
        assert(cs@.take(i + 1).drop_last() =~= cs@.take(i as int));
        assert(cs@.take(i + 1).last() == c);
        if c == '\n' {
            let line = current;
            lines.push(line);
            current = Vec::new();
            assert(split_newlines(cs@.take(i + 1)) =~= lines_view(lines@) + seq![current@]);
        } else {
            current.push(c);
            assert(split_newlines(cs@.take(i + 1)) =~= lines_view(lines@) + seq![current@]);
        }
        i += 1;
    }
    assert(cs@.take(cs.len() as int) =~= cs@);
    lines.push(current);
    assert(lines_view(lines@) =~= split_newlines(cs@));
    lines
}

/// The objects of JSON Lines bytes, one per line that is not blank, or the
/// first line's failure.
pub fn parse_json_lines(path: &str, bytes: &[u8]) -> (r: Result<Vec<Vec<(String, JsonCell)>>, Diagnostic>)
    ensures
        match jsonl_objects_spec(path@, bytes@) {
            Ok(objects) => r matches Ok(v) && objects_view(v@) == objects,
            Err(d) => r matches Err(e) && e@ == d,
        },
{
    let text = match str_from_utf8(bytes) {
        Ok(text) => text,
        Err(detail) => {
            let mut message = String::new();
            push_str(&mut message, "JSON Lines input for `");
            push_str(&mut message, path);
            push_str(&mut message, "` is not UTF-8: ");
            push_str(&mut message, detail.as_str());
            return Err(Diagnostic::error(codes::E1804(), message.as_str(), Span::zero()));
        },
    };
    proof {
        encode_utf8_decode_utf8(text@);
    }
    let cs = chars_of(text);
    let lines = split_lines(&cs);
    let ghost lv = lines_view(lines@);
    proof {
        encode_utf8_valid_utf8(text@);
    }
    let mut objects: Vec<Vec<(String, JsonCell)>> = Vec::new();
    let mut k: usize = 0;
    assert(lv.take(0) =~= Seq::<Seq<char>>::empty());
    assert(objects_view(objects@) =~= Seq::<JsonEntries>::empty());
    while k < lines.len()
        invariant
            k <= lines.len(),
            lv == lines_view(lines@),
            lv == split_newlines(cs@),
            valid_utf8(bytes@),
            decode_utf8(bytes@) == cs@,
            jsonl_lines_objects(lv.take(k as int), path@) == Ok::<Seq<JsonEntries>, DiagnosticView>(objects_view(objects@)),
        decreases lines.len() - k,
    {
        assert(lv.take(k + 1).drop_last() =~= lv.take(k as int));
        assert(lv.take(k + 1).last() == lines@[k as int]@);
        match absorb_line(&mut objects, &lines[k], k + 1, path) {
            Ok(()) => {},
            Err(d) => {
                proof {
                    lemma_failure_persists(lv, k + 1, path@);
                    assert(decode_utf8(bytes@) == cs@);
                    assert(jsonl_lines_objects(lv.take(k + 1), path@) == Err::<Seq<JsonEntries>, DiagnosticView>(d@));
                    assert(jsonl_objects_spec(path@, bytes@) == Err::<Seq<JsonEntries>, DiagnosticView>(d@));
                }
                return Err(d);
            },
        }
        k += 1;
    }
    assert(lv.take(lines.len() as int) =~= lv);
    Ok(objects)
}

/// The names of an object's members, in order.
fn keys_of(entries: &Vec<(String, JsonCell)>) -> (r: Vec<String>)
    ensures
        strings_view(r@) == entry_keys(entries_view(entries@)),
{
    let mut keys: Vec<String> = Vec::new();
    let mut i: usize = 0;
    while i < entries.len()
        invariant
            i <= entries.len(),
            strings_view(keys@) == entry_keys(entries_view(entries@)).take(i as int),
        decreases entries.len() - i,
    {
        let ghost before = keys@;
        keys.push(copy_string(&entries[i].0));
        assert(strings_view(keys@) =~= strings_view(before).push(entries@[i as int].0@));
        i += 1;
    }
    assert(entry_keys(entries_view(entries@)).take(i as int) =~= entry_keys(entries_view(entries@)));
    keys
}

/// The keys of the objects, each once, in first-appearance order.
fn columns_of(objects: &Vec<Vec<(String, JsonCell)>>) -> (r: Vec<String>)
    ensures
        strings_view(r@) == objects_columns(objects_view(objects@)),
{
    let ghost ov = objects_view(objects@);
    let mut set = new_column_set();
    let mut i: usize = 0;
    assert(ov.take(0) =~= Seq::<JsonEntries>::empty());
    while i < objects.len()
        invariant
            i <= objects.len(),
            ov == objects_view(objects@),
            column_set_items(set) == objects_columns(ov.take(i as int)),
        decreases objects.len() - i,
    {
        let keys = keys_of(&objects[i]);
        union_keys(&mut set, &keys);
        assert(ov.take(i + 1).drop_last() =~= ov.take(i as int));
        assert(ov.take(i + 1).last() == entries_view(objects@[i as int]@));
        i += 1;
    }
    assert(ov.take(objects.len() as int) =~= ov);
    column_set_names(set)
}

/// The columns of JSON Lines bytes: every key of every object line, each
/// once, in first-appearance order.
pub fn read_json_lines_schema_from_bytes(path: &str, bytes: &[u8]) -> (r: Result<Vec<String>, Diagnostic>)
    ensures
        match jsonl_schema_spec(path@, bytes@) {
            Ok(names) => r matches Ok(v) && strings_view(v@) == names,
            Err(d) => r matches Err(e) && e@ == d,
        },
{
    match parse_json_lines(path, bytes) {
        Ok(objects) => Ok(columns_of(&objects)),
        Err(d) => Err(d),
    }
}

fn copy_cell(cell: &JsonCell) -> (r: JsonCell)
    ensures
        r@ == cell@,
{
    match cell {
        JsonCell::Null => JsonCell::Null,
        JsonCell::Bool(b) => JsonCell::Bool(*b),
        JsonCell::Number(t) => JsonCell::Number(copy_string(t)),
        JsonCell::Text(t) => JsonCell::Text(copy_string(t)),
        JsonCell::Nested(t) => JsonCell::Nested(copy_string(t)),
    }
}

/// An object's cell under `column`.
fn cell_under(entries: &Vec<(String, JsonCell)>, column: &String) -> (r: JsonCell)
    ensures
        r@ == entry_cell(entries_view(entries@), column@),
{
    let ghost ev = entries_view(entries@);
    let mut i: usize = 0;
    assert(ev.skip(0) =~= ev);
    while i < entries.len()
        invariant
            i <= entries.len(),
            ev == entries_view(entries@),
            entry_cell(ev, column@) == entry_cell(ev.skip(i as int), column@),
        decreases entries.len() - i,
    {
        assert(ev.skip(i as int)[0] == (entries@[i as int].0@, entries@[i as int].1@));
        if crate::text::string_eq(&entries[i].0, column) {
            return copy_cell(&entries[i].1);
        }
        assert(ev.skip(i as int).drop_first() =~= ev.skip(i + 1));
        i += 1;
    }
    assert(ev.skip(i as int).len() == 0);
    JsonCell::Null
}

pub open spec fn cell_rows_view(rows: Seq<Vec<JsonCell>>) -> Seq<Seq<JsonCellView>> {
    rows.map_values(|row: Vec<JsonCell>| row@.map_values(|c: JsonCell| c@))
}

/// The columns of JSON Lines bytes and one row of cells per object line,
/// each the object's value under the column, or null where it has none.
pub fn read_json_lines_cells_from_bytes(path: &str, bytes: &[u8]) -> (r: Result<(Vec<String>, Vec<Vec<JsonCell>>), Diagnostic>)
    ensures
        match jsonl_objects_spec(path@, bytes@) {
            Ok(objects) => r matches Ok(out) && strings_view(out.0@) == objects_columns(objects)
                && cell_rows_view(out.1@) == objects.map_values(|o: JsonEntries| object_row(o, objects_columns(objects))),
            Err(d) => r matches Err(e) && e@ == d,
        },
{
    let objects = match parse_json_lines(path, bytes) {
        Ok(objects) => objects,
        Err(d) => return Err(d),
    };
    let columns = columns_of(&objects);
    let ghost ov = objects_view(objects@);
    let ghost cv = strings_view(columns@);
    let mut rows: Vec<Vec<JsonCell>> = Vec::new();
    let mut i: usize = 0;
    while i < objects.len()
        invariant
            i <= objects.len(),
            ov == objects_view(objects@),
            cv == strings_view(columns@),
            cell_rows_view(rows@) == ov.take(i as int).map_values(|o: JsonEntries| object_row(o, cv)),
        decreases objects.len() - i,
    {
        let mut row: Vec<JsonCell> = Vec::new();
        let mut j: usize = 0;
        while j < columns.len()
            invariant
                i < objects.len(),
                j <= columns.len(),
                ov == objects_view(objects@),
                cv == strings_view(columns@),
                row@.map_values(|c: JsonCell| c@) == object_row(ov[i as int], cv).take(j as int),
            decreases columns.len() - j,
        {
            let cell = cell_under(&objects[i], &columns[j]);
            let ghost before = row@;
            row.push(cell);
            assert(row@.map_values(|c: JsonCell| c@) =~= before.map_values(|c: JsonCell| c@).push(cell@));
            assert(object_row(ov[i as int], cv).take(j + 1) =~= object_row(ov[i as int], cv).take(j as int).push(
                entry_cell(ov[i as int], cv[j as int]),
            ));
            j += 1;
        }
        assert(object_row(ov[i as int], cv).take(j as int) =~= object_row(ov[i as int], cv));
        let ghost before = rows@;
        rows.push(row);
        assert(cell_rows_view(rows@) =~= cell_rows_view(before).push(object_row(ov[i as int], cv)));
        assert(ov.take(i + 1).map_values(|o: JsonEntries| object_row(o, cv)) =~= ov.take(i as int).map_values(
            |o: JsonEntries| object_row(o, cv),
        ).push(object_row(ov[i as int], cv)));
        i += 1;
    }
    assert(ov.take(objects.len() as int) =~= ov);
    Ok((columns, rows))
}

/// The table value of a JSON cell: a number is `number`, what reading its
/// text as a binary64 number gave (its bit pattern and rendering), or its
/// text where it gave nothing; text and nested values become text.
pub open spec fn json_cell_value(cell: JsonCellView, number: Option<(u64, Seq<char>)>) -> ValueView {
    match cell {
        JsonCellView::Null => ValueView::Null,
        JsonCellView::Bool(b) => ValueView::Bool(b),
        JsonCellView::Number(t) => match number {
            Some((bits, text)) => ValueView::Number(bits, text),
            None => ValueView::String(t),
        },
        JsonCellView::Text(t) => ValueView::String(t),
        JsonCellView::Nested(t) => ValueView::String(t),
    }
}

/// The table value of a JSON cell, given what reading a number's text as a
/// binary64 number gave.
pub fn json_cell_to_value(cell: &JsonCell, number: Option<(u64, String)>) -> (r: Value)
    ensures
        r@ == json_cell_value(cell@, number_view(number)),
{
    match cell {
        JsonCell::Null => Value::Null,
        JsonCell::Bool(b) => Value::Bool(*b),
        JsonCell::Number(t) => match number {
            Some((bits, text)) => Value::Number { bits, text },
            None => Value::String(copy_string(t)),
        },
        JsonCell::Text(t) => Value::String(copy_string(t)),
        JsonCell::Nested(t) => Value::String(copy_string(t)),
    }
}

/// What reading the schema of tabular bytes in `format` yields: the
/// header of CSV, the schema fields of Parquet and Arrow IPC, and the keys
/// of JSON Lines.
pub open spec fn tabular_schema_outcome(
    r: Result<Vec<String>, Diagnostic>,
    path: Seq<char>,
    format: DataFormat,
    bytes: Seq<u8>,
) -> bool {
    match format {
        DataFormat::Csv => schema_outcome(r, "CSV header parse failed"@, path, csv_header_result(bytes)),
        DataFormat::Parquet => schema_outcome(r, "Parquet parse failed"@, path, parquet_fields_result(bytes)),
        DataFormat::ArrowFile => schema_outcome(r, "Arrow IPC file parse failed"@, path, arrow_file_fields_result(bytes)),
        DataFormat::ArrowStream => schema_outcome(r, "Arrow IPC stream parse failed"@, path, arrow_stream_fields_result(bytes)),
        DataFormat::JsonLines => match jsonl_schema_spec(path, bytes) {
            Ok(names) => r matches Ok(v) && strings_view(v@) == names,
            Err(d) => r matches Err(e) && e@ == d,
        },
        DataFormat::GeoJson => match crate::geo::geojson_schema_spec(path, bytes) {
            Ok(names) => r matches Ok(v) && strings_view(v@) == names,
            Err(d) => r matches Err(e) && e@ == d,
        },
        _ => false,
    }
}

/// The column names of the bytes of a source in `format`. Shapefiles,
/// whose sidecar files live next to them, and TopoJSON, whose schema comes
/// out of geometry decoding, are read by the host's loaders.
pub fn read_schema_from_bytes(path: &str, format: DataFormat, bytes: &[u8]) -> (r: Result<Vec<String>, Diagnostic>)
    requires
        !(format == DataFormat::Shapefile || format == DataFormat::TopoJson),
    ensures
        tabular_schema_outcome(r, path@, format, bytes@),
{
    match format {
        DataFormat::Csv => read_csv_schema_from_bytes(path, bytes),
        DataFormat::Parquet => read_parquet_schema_from_bytes(path, bytes),
        DataFormat::ArrowFile => read_arrow_file_schema_from_bytes(path, bytes),
        DataFormat::ArrowStream => read_arrow_stream_schema_from_bytes(path, bytes),
        DataFormat::GeoJson => crate::geo::read_geojson_schema_from_bytes(path, bytes),
        _ => read_json_lines_schema_from_bytes(path, bytes),
    }
}

} // verus!
