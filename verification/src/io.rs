//! The driver's view of the outside world: reading program sources, data
//! bytes, schemas and standard input. Hosts implement [`DriverIo`]; the
//! in-memory provider serves tests and embedded hosts from maps.
use vstd::prelude::*;

use crate::assoc::{entry_map, find_entry, keys_unique, lookup_entry, put_entry};
use crate::codes;
use crate::diagnostic::{code_text, Diagnostic, DiagnosticView};
use crate::readers::{csv_header_result, read_csv_schema_from_bytes, read_failure, schema_outcome};
use crate::severity::Severity;
use crate::span::Span;
use crate::text::{copy_str, copy_string, copy_strings, decimal, push_decimal, push_str, strings_view};

verus! {

/// What a host knows of a data file without reading it.
#[derive(Clone, Debug, Eq, PartialEq)]
pub struct DriverMetadata {
    pub len: Option<u64>,
    pub fingerprint: Option<String>,
}

impl Default for DriverMetadata {
    fn default() -> (r: Self)
        ensures
            r.len is None,
            r.fingerprint is None,
    {
        DriverMetadata { len: None, fingerprint: None }
    }
}

/// The reads the driver asks of its host.
pub trait DriverIo {
    /// The text of the PDL program at `path`.
    fn read_source(&self, path: &str) -> Result<String, Diagnostic>;

    /// The header column names of the CSV file at `path`.
    fn read_csv_schema(&self, path: &str) -> Result<Vec<String>, Diagnostic>;

    /// The bytes of the data file at `path`.
    fn read_path_bytes(&self, path: &str) -> Result<Vec<u8>, Diagnostic>;

    /// All of standard input.
    fn read_stdin_bytes(&self) -> Result<Vec<u8>, Diagnostic>;

    /// The size and fingerprint of the data file at `path`.
    fn path_metadata(&self, path: &str) -> Result<DriverMetadata, Diagnostic>;
}

/// A driver error at no particular location.
pub open spec fn driver_error(number: int, message: Seq<char>) -> DiagnosticView {
    DiagnosticView {
        severity: Severity::Error,
        code: code_text(0, number),
        message,
        span: Span { start: 0, end: 0 },
        related: Seq::empty(),
        help: None,
    }
}

/// What reading the CSV schema of `path` gives a host with these schemas
/// and files: a registered schema; else the CSV header of registered
/// bytes; else the failure that nothing was provided.
pub open spec fn csv_schema_read(
    schemas: Map<Seq<char>, Seq<Seq<char>>>,
    files: Map<Seq<char>, Seq<u8>>,
    path: Seq<char>,
) -> Result<Seq<Seq<char>>, DiagnosticView> {
    if schemas.contains_key(path) {
        Ok(schemas[path])
    } else if files.contains_key(path) {
        match csv_header_result(files[path]) {
            Ok(names) => Ok(names),
            Err(detail) => Err(read_failure("CSV header parse failed"@, path, detail)),
        }
    } else {
        Err(driver_error(1818, "in-memory schema for "@ + "`"@ + path + "`"@ + " was not provided"@))
    }
}

pub open spec fn names_result_view(r: Result<Vec<String>, Diagnostic>) -> Result<Seq<Seq<char>>, DiagnosticView> {
    match r {
        Ok(v) => Ok(strings_view(v@)),
        Err(d) => Err(d@),
    }
}

/// An in-memory host's CSV schema reads: a schema registered for a path
/// is what the path reads, whatever bytes the path has, and a later
/// registration replaces an earlier one; a path with bytes and no schema
/// reads the CSV header of its bytes; a path with neither fails (E1818).
pub proof fn lemma_in_memory_csv_schema(
    schemas: Map<Seq<char>, Seq<Seq<char>>>,
    files: Map<Seq<char>, Seq<u8>>,
    path: Seq<char>,
    columns: Seq<Seq<char>>,
    later: Seq<Seq<char>>,
    bytes: Seq<u8>,
)
    ensures
        csv_schema_read(schemas.insert(path, columns), files, path) == Ok::<Seq<Seq<char>>, DiagnosticView>(columns),
        csv_schema_read(schemas.insert(path, columns), files.insert(path, bytes), path) == Ok::<
            Seq<Seq<char>>,
            DiagnosticView,
        >(columns),
        csv_schema_read(schemas.insert(path, columns).insert(path, later), files, path) == Ok::<
            Seq<Seq<char>>,
            DiagnosticView,
        >(later),
        !schemas.contains_key(path) ==> csv_schema_read(schemas, files.insert(path, bytes), path) == match csv_header_result(bytes) {
            Ok(names) => Ok(names),
            Err(detail) => Err(read_failure("CSV header parse failed"@, path, detail)),
        },
        !schemas.contains_key(path) && !files.contains_key(path) ==> csv_schema_read(schemas, files, path) is Err
            && csv_schema_read(schemas, files, path)->Err_0.code == code_text(0, 1818),
{
}

/// A host served from memory: program sources, data bytes and CSV schemas
/// by path, and optional standard input.
#[derive(Debug)]
pub struct InMemoryDriverIo {
    sources: Vec<(String, String)>,
    files: Vec<(String, Vec<u8>)>,
    stdin: Option<Vec<u8>>,
    schemas: Vec<(String, Vec<String>)>,
}

fn copy_bytes(b: &[u8]) -> (r: Vec<u8>)
    ensures
        r@ == b@,
{
    let mut out: Vec<u8> = Vec::new();
    let mut i: usize = 0;
    while i < b.len()
        invariant
            i <= b.len(),
            out@ == b@.take(i as int),
        decreases b.len() - i,
    {
        out.push(b[i]);
        i += 1;
        assert(out@ =~= b@.take(i as int));
    }
    assert(b@.take(b.len() as int) =~= b@);
    out
}

impl InMemoryDriverIo {
    #[verifier::type_invariant]
    spec fn well_formed(self) -> bool {
        &&& keys_unique(self.sources@)
        &&& keys_unique(self.files@)
        &&& keys_unique(self.schemas@)
    }

    /// Program sources by path.
    pub closed spec fn sources(self) -> Map<Seq<char>, Seq<char>> {
        entry_map(self.sources@).map_values(|v: String| v@)
    }

    /// Data file bytes by path.
    pub closed spec fn files(self) -> Map<Seq<char>, Seq<u8>> {
        entry_map(self.files@).map_values(|v: Vec<u8>| v@)
    }

    /// CSV column names by path.
    pub closed spec fn schemas(self) -> Map<Seq<char>, Seq<Seq<char>>> {
        entry_map(self.schemas@).map_values(|v: Vec<String>| strings_view(v@))
    }

    /// Standard input, where provided.
    pub closed spec fn stdin(self) -> Option<Seq<u8>> {
        match self.stdin {
            Some(b) => Some(b@),
            None => None,
        }
    }

    /// A host that knows nothing.
    fn new() -> (r: Self)
        ensures
            r.sources() == Map::<Seq<char>, Seq<char>>::empty(),
            r.files() == Map::<Seq<char>, Seq<u8>>::empty(),
            r.schemas() == Map::<Seq<char>, Seq<Seq<char>>>::empty(),
            r.stdin() is None,
    {
        let r = InMemoryDriverIo { sources: Vec::new(), files: Vec::new(), stdin: None, schemas: Vec::new() };
        assert(r.sources() =~= Map::<Seq<char>, Seq<char>>::empty());
        assert(r.files() =~= Map::<Seq<char>, Seq<u8>>::empty());
        assert(r.schemas() =~= Map::<Seq<char>, Seq<Seq<char>>>::empty());
        r
    }

    /// This host with the program `source` at `path`.
    pub fn with_source(self, path: &str, source: &str) -> (r: Self)
        ensures
            r.sources() == self.sources().insert(path@, source@),
            r.files() == self.files(),
            r.schemas() == self.schemas(),
            r.stdin() == self.stdin(),
    {
        proof {
            use_type_invariant(&self);
        }
        let ghost before = self.sources();
        let InMemoryDriverIo { sources, files, stdin, schemas } = self;
        let mut sources = sources;
        put_entry(&mut sources, copy_str(path), copy_str(source));
        let r = InMemoryDriverIo { sources, files, stdin, schemas };
        assert(r.sources() =~= before.insert(path@, source@));
        r
    }

    /// This host with CSV column names `columns` for `path`.
    pub fn with_schema(self, path: &str, columns: Vec<String>) -> (r: Self)
        ensures
            r.schemas() == self.schemas().insert(path@, strings_view(columns@)),
            r.sources() == self.sources(),
            r.files() == self.files(),
            r.stdin() == self.stdin(),
    {
        proof {
            use_type_invariant(&self);
        }
        let ghost before = self.schemas();
        let InMemoryDriverIo { sources, files, stdin, schemas } = self;
        let mut schemas = schemas;
        put_entry(&mut schemas, copy_str(path), columns);
        let r = InMemoryDriverIo { sources, files, stdin, schemas };
        assert(r.schemas() =~= before.insert(path@, strings_view(columns@)));
        r
    }

    /// This host with the data file `bytes` at `path`.
    pub fn with_file_bytes(self, path: &str, bytes: Vec<u8>) -> (r: Self)
        ensures
            r.files() == self.files().insert(path@, bytes@),
            r.sources() == self.sources(),
            r.schemas() == self.schemas(),
            r.stdin() == self.stdin(),
    {
        proof {
            use_type_invariant(&self);
        }
        let ghost before = self.files();
        let InMemoryDriverIo { sources, files, stdin, schemas } = self;
        let mut files = files;
        put_entry(&mut files, copy_str(path), bytes);
        let r = InMemoryDriverIo { sources, files, stdin, schemas };
        assert(r.files() =~= before.insert(path@, bytes@));
        r
    }

    /// This host with `bytes` on standard input.
    pub fn with_stdin_bytes(self, bytes: Vec<u8>) -> (r: Self)
        ensures
            r.stdin() == Some(bytes@),
            r.sources() == self.sources(),
            r.files() == self.files(),
            r.schemas() == self.schemas(),
    {
        proof {
            use_type_invariant(&self);
        }
        let InMemoryDriverIo { sources, files, stdin, schemas } = self;
        InMemoryDriverIo { sources, files, stdin: Some(bytes), schemas }
    }
}

impl Default for InMemoryDriverIo {
    fn default() -> (r: Self)
        ensures
            r.sources() == Map::<Seq<char>, Seq<char>>::empty(),
            r.files() == Map::<Seq<char>, Seq<u8>>::empty(),
            r.schemas() == Map::<Seq<char>, Seq<Seq<char>>>::empty(),
            r.stdin() is None,
    {
        InMemoryDriverIo::new()
    }
}

/// `what` followed by the path in backticks and `tail`.
fn quoted_path_message(what: &str, path: &str, tail: &str) -> (r: String)
    ensures
        r@ == what@ + "`"@ + path@ + "`"@ + tail@,
{
    let mut m = String::new();
    push_str(&mut m, what);
    push_str(&mut m, "`");
    push_str(&mut m, path);
    push_str(&mut m, "`");
    push_str(&mut m, tail);
    m
}

impl DriverIo for InMemoryDriverIo {
    fn read_source(&self, path: &str) -> (r: Result<String, Diagnostic>)
        ensures
            match r {
                Ok(s) => self.sources().contains_key(path@) && s@ == self.sources()[path@],
                Err(d) => !self.sources().contains_key(path@) && d@ == driver_error(
                    1802,
                    "in-memory PDL source "@ + "`"@ + path@ + "`"@ + " was not provided"@,
                ),
            },
    {
        proof {
            use_type_invariant(self);
        }
        match lookup_entry(&self.sources, path) {
            Some(s) => Ok(copy_string(s)),
            None => {
                let m = quoted_path_message("in-memory PDL source ", path, " was not provided");
                Err(Diagnostic::error(codes::E1802(), m.as_str(), Span::zero()))
            },
        }
    }

    fn read_csv_schema(&self, path: &str) -> (r: Result<Vec<String>, Diagnostic>)
        ensures
            names_result_view(r) == csv_schema_read(self.schemas(), self.files(), path@),
            self.schemas().contains_key(path@) ==> (r matches Ok(v) && strings_view(v@)
                == self.schemas()[path@]),
            !self.schemas().contains_key(path@) && self.files().contains_key(path@) ==> schema_outcome(
                r,
                "CSV header parse failed"@,
                path@,
                csv_header_result(self.files()[path@]),
            ),
            !self.schemas().contains_key(path@) && !self.files().contains_key(path@) ==> (r matches Err(d)
                && d@ == driver_error(
                1818,
                "in-memory schema for "@ + "`"@ + path@ + "`"@ + " was not provided"@,
            )),
    {
        proof {
            use_type_invariant(self);
        }
        if let Some(schema) = lookup_entry(&self.schemas, path) {
            return Ok(copy_strings(schema.as_slice()));
        }
        if let Some(bytes) = lookup_entry(&self.files, path) {
            return read_csv_schema_from_bytes(path, bytes.as_slice());
        }
        let m = quoted_path_message("in-memory schema for ", path, " was not provided");
        Err(Diagnostic::error(codes::E1818(), m.as_str(), Span::zero()))
    }

    fn read_path_bytes(&self, path: &str) -> (r: Result<Vec<u8>, Diagnostic>)
        ensures
            match r {
                Ok(b) => self.files().contains_key(path@) && b@ == self.files()[path@],
                Err(d) => !self.files().contains_key(path@) && d@ == driver_error(
                    1802,
                    "in-memory bytes for "@ + "`"@ + path@ + "`"@ + " were not provided"@,
                ),
            },
    {
        proof {
            use_type_invariant(self);
        }
        match lookup_entry(&self.files, path) {
            Some(b) => Ok(copy_bytes(b.as_slice())),
            None => {
                let m = quoted_path_message("in-memory bytes for ", path, " were not provided");
                Err(Diagnostic::error(codes::E1802(), m.as_str(), Span::zero()))
            },
        }
    }

    fn read_stdin_bytes(&self) -> (r: Result<Vec<u8>, Diagnostic>)
        ensures
            match r {
                Ok(b) => self.stdin() == Some(b@),
                Err(d) => self.stdin() is None && d@ == driver_error(
                    1806,
                    "in-memory stdin bytes were not provided"@,
                ),
            },
    {
        match &self.stdin {
            Some(b) => Ok(copy_bytes(b.as_slice())),
            None => Err(
                Diagnostic::error(codes::E1806(), "in-memory stdin bytes were not provided", Span::zero()),
            ),
        }
    }

    fn path_metadata(&self, path: &str) -> (r: Result<DriverMetadata, Diagnostic>)
        ensures
            match r {
                Ok(m) => self.files().contains_key(path@) && m.len == Some(
                    self.files()[path@].len() as u64,
                ) && (m.fingerprint matches Some(f) && f@ == "memory-len:"@ + decimal(
                    self.files()[path@].len(),
                )),
                Err(d) => !self.files().contains_key(path@) && d@ == driver_error(
                    1802,
                    "in-memory metadata for "@ + "`"@ + path@ + "`"@ + " was not provided"@,
                ),
            },
    {
        proof {
            use_type_invariant(self);
        }
        match lookup_entry(&self.files, path) {
            Some(b) => {
                let n = b.len();
                let mut f = String::new();
                push_str(&mut f, "memory-len:");
                push_decimal(&mut f, n);
                Ok(DriverMetadata { len: Some(n as u64), fingerprint: Some(f) })
            },
            None => {
                let m = quoted_path_message("in-memory metadata for ", path, " was not provided");
                Err(Diagnostic::error(codes::E1802(), m.as_str(), Span::zero()))
            },
        }
    }
}

/// Read after write: once `with_file_bytes` has recorded `bytes` for
/// `path`, the host holds exactly those bytes for `path` (what
/// `read_path_bytes` and `path_metadata` then report), and every other
/// path keeps what it had.
pub proof fn lemma_in_memory_read_after_write(
    before: InMemoryDriverIo,
    after: InMemoryDriverIo,
    path: Seq<char>,
    bytes: Seq<u8>,
)
    requires
        after.files() == before.files().insert(path, bytes),
    ensures
        after.files().contains_key(path),
        after.files()[path] == bytes,
        forall|other: Seq<char>|
            other != path ==> (#[trigger] after.files().contains_key(other)) == before.files().contains_key(other)
                && (before.files().contains_key(other) ==> after.files()[other] == before.files()[other]),
{
}

} // verus!
