//! Data formats PDL reads and writes, naming and inference by extension,
//! and format sniffing from stream bytes.
use vstd::prelude::*;
use vstd::string::StringSliceAdditionalSpecFns;
use vstd::utf8::*;

use crate::codes;
use crate::diagnostic::{Diagnostic, DiagnosticView, code_text};
use crate::span::Span;
use crate::text::{chars_of, str_eq};

verus! {

/// A tabular data format.
#[derive(Clone, Copy, Debug, Eq, PartialEq, Structural)]
pub enum DataFormat {
    Csv,
    Parquet,
    ArrowFile,
    ArrowStream,
    JsonLines,
    GeoJson,
    Shapefile,
    TopoJson,
}

/// The canonical name of each format.
pub open spec fn canonical_name_spec(format: DataFormat) -> Seq<char> {
    match format {
        DataFormat::Csv => "csv"@,
        DataFormat::Parquet => "parquet"@,
        DataFormat::ArrowFile => "arrow-file"@,
        DataFormat::ArrowStream => "arrow-stream"@,
        DataFormat::JsonLines => "jsonl"@,
        DataFormat::GeoJson => "geojson"@,
        DataFormat::Shapefile => "shapefile"@,
        DataFormat::TopoJson => "topojson"@,
    }
}

/// The format a user-facing name selects: canonical names and the aliases
/// `ipc`, `arrow` and `ndjson`.
pub open spec fn format_from_name_spec(name: Seq<char>) -> Option<DataFormat> {
    if name == "csv"@ {
        Some(DataFormat::Csv)
    } else if name == "parquet"@ {
        Some(DataFormat::Parquet)
    } else if name == "arrow-file"@ || name == "ipc"@ {
        Some(DataFormat::ArrowFile)
    } else if name == "arrow-stream"@ || name == "arrow"@ {
        Some(DataFormat::ArrowStream)
    } else if name == "jsonl"@ || name == "ndjson"@ {
        Some(DataFormat::JsonLines)
    } else if name == "geojson"@ {
        Some(DataFormat::GeoJson)
    } else if name == "shapefile"@ {
        Some(DataFormat::Shapefile)
    } else if name == "topojson"@ {
        Some(DataFormat::TopoJson)
    } else {
        None
    }
}

/// The format a file extension selects.
pub open spec fn format_for_extension_spec(extension: Option<Seq<char>>) -> Option<DataFormat> {
    match extension {
        Some(e) => if e == "csv"@ {
            Some(DataFormat::Csv)
        } else if e == "parquet"@ || e == "pq"@ {
            Some(DataFormat::Parquet)
        } else if e == "arrow"@ || e == "feather"@ {
            Some(DataFormat::ArrowFile)
        } else if e == "jsonl"@ || e == "ndjson"@ {
            Some(DataFormat::JsonLines)
        } else if e == "geojson"@ {
            Some(DataFormat::GeoJson)
        } else if e == "shp"@ {
            Some(DataFormat::Shapefile)
        } else if e == "topojson"@ {
            Some(DataFormat::TopoJson)
        } else {
            None
        },
        None => None,
    }
}

/// The extension of the last component of a path, as `std::path::Path::extension`
/// computes it.
pub uninterp spec fn path_extension_of(path: Seq<char>) -> Option<Seq<char>>;

/// Calls `std::path::Path::extension` on `path`. The result is the
/// extension that std's path rules give for the text of `path`; nothing more
/// of those rules is stated here.
#[verifier::external_body]
fn path_extension(path: &str) -> (r: Option<String>)
    ensures
        match r {
            Some(e) => path_extension_of(path@) == Some(e@),
            None => path_extension_of(path@) is None,
        },
{
    std::path::Path::new(path).extension().and_then(|e| e.to_str()).map(|e| e.to_string())
}

impl DataFormat {
    pub fn canonical_name(self) -> (r: &'static str)
        ensures
            r@ == canonical_name_spec(self),
    {
        match self {
            DataFormat::Csv => "csv",
            DataFormat::Parquet => "parquet",
            DataFormat::ArrowFile => "arrow-file",
            DataFormat::ArrowStream => "arrow-stream",
            DataFormat::JsonLines => "jsonl",
            DataFormat::GeoJson => "geojson",
            DataFormat::Shapefile => "shapefile",
            DataFormat::TopoJson => "topojson",
        }
    }

    pub fn from_name(name: &str) -> (r: Option<Self>)
        ensures
            r == format_from_name_spec(name@),
    {
        if str_eq(name, "csv") {
            Some(DataFormat::Csv)
        } else if str_eq(name, "parquet") {
            Some(DataFormat::Parquet)
        } else if str_eq(name, "arrow-file") || str_eq(name, "ipc") {
            Some(DataFormat::ArrowFile)
        } else if str_eq(name, "arrow-stream") || str_eq(name, "arrow") {
            Some(DataFormat::ArrowStream)
        } else if str_eq(name, "jsonl") || str_eq(name, "ndjson") {
            Some(DataFormat::JsonLines)
        } else if str_eq(name, "geojson") {
            Some(DataFormat::GeoJson)
        } else if str_eq(name, "shapefile") {
            Some(DataFormat::Shapefile)
        } else if str_eq(name, "topojson") {
            Some(DataFormat::TopoJson)
        } else {
            None
        }
    }

    /// The format a file extension selects, if any.
    pub fn for_extension(extension: Option<&str>) -> (r: Option<Self>)
        ensures
            r == format_for_extension_spec(match extension {
                Some(e) => Some(e@),
                None => None,
            }),
    {
        match extension {
            Some(e) => if str_eq(e, "csv") {
                Some(DataFormat::Csv)
            } else if str_eq(e, "parquet") || str_eq(e, "pq") {
                Some(DataFormat::Parquet)
            } else if str_eq(e, "arrow") || str_eq(e, "feather") {
                Some(DataFormat::ArrowFile)
            } else if str_eq(e, "jsonl") || str_eq(e, "ndjson") {
                Some(DataFormat::JsonLines)
            } else if str_eq(e, "geojson") {
                Some(DataFormat::GeoJson)
            } else if str_eq(e, "shp") {
                Some(DataFormat::Shapefile)
            } else if str_eq(e, "topojson") {
                Some(DataFormat::TopoJson)
            } else {
                None
            },
            None => None,
        }
    }

    /// The format the extension of `path` selects, if any.
    pub fn infer_from_path(path: &str) -> (r: Option<Self>)
        ensures
            r == format_for_extension_spec(path_extension_of(path@)),
    {
        match path_extension(path) {
            Some(e) => Self::for_extension(Some(e.as_str())),
            None => Self::for_extension(None),
        }
    }

    /// Every format can be read.
    pub fn is_supported_input(self) -> (r: bool)
        ensures
            r,
    {
        true
    }

    /// Every format but shapefile and TopoJSON can be written.
    pub fn is_supported_output(self) -> (r: bool)
        ensures
            r == !(self == DataFormat::Shapefile || self == DataFormat::TopoJson),
    {
        match self {
            DataFormat::Shapefile | DataFormat::TopoJson => false,
            _ => true,
        }
    }

    pub fn is_binary(self) -> (r: bool)
        ensures
            r == (self == DataFormat::Parquet || self == DataFormat::ArrowFile || self
                == DataFormat::ArrowStream),
    {
        match self {
            DataFormat::Parquet | DataFormat::ArrowFile | DataFormat::ArrowStream => true,
            _ => false,
        }
    }

    /// Whether the format carries geometry values.
    pub fn is_geospatial(self) -> (r: bool)
        ensures
            r == (self == DataFormat::GeoJson || self == DataFormat::Shapefile || self
                == DataFormat::TopoJson),
    {
        match self {
            DataFormat::GeoJson | DataFormat::Shapefile | DataFormat::TopoJson => true,
            _ => false,
        }
    }
}

/// Every canonical name selects its own format.
pub proof fn lemma_canonical_name_round_trip(format: DataFormat)
    ensures
        format_from_name_spec(canonical_name_spec(format)) == Some(format),
{
    reveal_strlit("csv");
    reveal_strlit("parquet");
    reveal_strlit("arrow-file");
    reveal_strlit("ipc");
    reveal_strlit("arrow-stream");
    reveal_strlit("arrow");
    reveal_strlit("jsonl");
    reveal_strlit("ndjson");
    reveal_strlit("geojson");
    reveal_strlit("shapefile");
    reveal_strlit("topojson");
    let n = canonical_name_spec(format);
    assert("csv"@.len() == 3);
    assert("ipc"@.len() == 3);
    assert("arrow"@.len() == 5);
    assert("jsonl"@.len() == 5);
    assert("ndjson"@.len() == 6);
    assert("parquet"@.len() == 7);
    assert("geojson"@.len() == 7);
    assert("topojson"@.len() == 8);
    assert("shapefile"@.len() == 9);
    assert("arrow-file"@.len() == 10);
    assert("arrow-stream"@.len() == 12);
    assert("csv"@[0] != "ipc"@[0]);
    assert("arrow"@[0] != "jsonl"@[0]);
    assert("parquet"@[0] != "geojson"@[0]);
}

/// A file whose extension is a format's canonical name is read as that
/// format, for every format whose files carry their name as extension:
/// `.csv`, `.parquet`, `.jsonl`, `.geojson` and `.topojson`; and the
/// extension then selects the same format as the name does.
pub proof fn lemma_extension_of_canonical_name(format: DataFormat)
    requires
        format == DataFormat::Csv || format == DataFormat::Parquet || format == DataFormat::JsonLines || format
            == DataFormat::GeoJson || format == DataFormat::TopoJson,
    ensures
        format_for_extension_spec(Some(canonical_name_spec(format))) == Some(format),
        format_for_extension_spec(Some(canonical_name_spec(format))) == format_from_name_spec(
            canonical_name_spec(format),
        ),
{
    reveal_strlit("csv");
    reveal_strlit("parquet");
    reveal_strlit("pq");
    reveal_strlit("arrow");
    reveal_strlit("feather");
    reveal_strlit("jsonl");
    reveal_strlit("ndjson");
    reveal_strlit("geojson");
    reveal_strlit("shp");
    reveal_strlit("topojson");
    lemma_canonical_name_round_trip(format);
    assert("csv"@.len() == 3);
    assert("pq"@.len() == 2);
    assert("shp"@.len() == 3);
    assert("arrow"@.len() == 5);
    assert("jsonl"@.len() == 5);
    assert("ndjson"@.len() == 6);
    assert("parquet"@.len() == 7);
    assert("feather"@.len() == 7);
    assert("geojson"@.len() == 7);
    assert("topojson"@.len() == 8);
    assert("csv"@[0] != "shp"@[0]);
    assert("arrow"@[0] != "jsonl"@[0]);
    assert("parquet"@[0] != "feather"@[0]);
    assert("parquet"@[0] != "geojson"@[0]);
    assert("feather"@[0] != "geojson"@[0]);
}

/// The short extensions: `.pq` is Parquet, `.arrow` and `.feather` the
/// Arrow file format, `.ndjson` JSON Lines and `.shp` a shapefile; a
/// missing extension selects nothing.
pub proof fn lemma_short_extensions()
    ensures
        format_for_extension_spec(Some("pq"@)) == Some(DataFormat::Parquet),
        format_for_extension_spec(Some("arrow"@)) == Some(DataFormat::ArrowFile),
        format_for_extension_spec(Some("feather"@)) == Some(DataFormat::ArrowFile),
        format_for_extension_spec(Some("ndjson"@)) == Some(DataFormat::JsonLines),
        format_for_extension_spec(Some("shp"@)) == Some(DataFormat::Shapefile),
        format_for_extension_spec(None) is None,
{
    reveal_strlit("csv");
    reveal_strlit("parquet");
    reveal_strlit("pq");
    reveal_strlit("arrow");
    reveal_strlit("feather");
    reveal_strlit("jsonl");
    reveal_strlit("ndjson");
    reveal_strlit("geojson");
    reveal_strlit("shp");
    reveal_strlit("topojson");
    assert("csv"@.len() == 3);
    assert("pq"@.len() == 2);
    assert("shp"@.len() == 3);
    assert("arrow"@.len() == 5);
    assert("jsonl"@.len() == 5);
    assert("ndjson"@.len() == 6);
    assert("parquet"@.len() == 7);
    assert("feather"@.len() == 7);
    assert("geojson"@.len() == 7);
    assert("topojson"@.len() == 8);
    assert("csv"@[0] != "shp"@[0]);
    assert("parquet"@[0] != "feather"@[0]);
}

/// Characters with the Unicode `White_Space` property (`char::is_whitespace`).
pub open spec fn is_unicode_whitespace(c: char) -> bool {
    let v = c as u32;
    ||| 0x09 <= v <= 0x0d
    ||| v == 0x20
    ||| v == 0x85
    ||| v == 0xa0
    ||| v == 0x1680
    ||| 0x2000 <= v <= 0x200a
    ||| v == 0x2028
    ||| v == 0x2029
    ||| v == 0x202f
    ||| v == 0x205f
    ||| v == 0x3000
}

pub fn is_whitespace(c: char) -> (r: bool)
    ensures
        r == is_unicode_whitespace(c),
{
    let v = c as u32;
    (0x09 <= v && v <= 0x0d) || v == 0x20 || v == 0x85 || v == 0xa0 || v == 0x1680 || (0x2000
        <= v && v <= 0x200a) || v == 0x2028 || v == 0x2029 || v == 0x202f || v == 0x205f || v
        == 0x3000
}

/// `cs` without its leading whitespace.
pub open spec fn trim_start_spec(cs: Seq<char>) -> Seq<char>
    decreases cs.len(),
{
    if cs.len() > 0 && is_unicode_whitespace(cs[0]) {
        trim_start_spec(cs.drop_first())
    } else {
        cs
    }
}

pub open spec fn has_prefix(bytes: Seq<u8>, prefix: Seq<u8>) -> bool {
    bytes.len() >= prefix.len() && bytes.take(prefix.len() as int) == prefix
}

/// The format stream bytes announce: Parquet and Arrow magic numbers first,
/// then, for UTF-8 text, JSON Lines when the first non-whitespace character
/// opens an object or array and CSV otherwise. Other bytes announce none.
pub open spec fn sniff_spec(bytes: Seq<u8>) -> Option<DataFormat> {
    if has_prefix(bytes, seq![0x50u8, 0x41u8, 0x52u8, 0x31u8]) {
        Some(DataFormat::Parquet)
    } else if has_prefix(bytes, seq![0x41u8, 0x52u8, 0x52u8, 0x4fu8, 0x57u8, 0x31u8]) {
        Some(DataFormat::ArrowFile)
    } else if has_prefix(bytes, seq![0xffu8, 0xffu8, 0xffu8, 0xffu8]) {
        Some(DataFormat::ArrowStream)
    } else if valid_utf8(bytes) {
        let t = trim_start_spec(decode_utf8(bytes));
        if t.len() > 0 && (t[0] == '{' || t[0] == '[') {
            Some(DataFormat::JsonLines)
        } else {
            Some(DataFormat::Csv)
        }
    } else {
        None
    }
}

/// The diagnostic for stream bytes whose format cannot be told.
pub open spec fn unsniffable_diagnostic() -> DiagnosticView {
    DiagnosticView {
        severity: crate::severity::Severity::Error,
        code: code_text(0, 1216),
        message: "could not infer supported format from stream bytes"@,
        span: Span { start: 0, end: 0 },
        related: Seq::empty(),
        help: None,
    }
}

/// The text of the error `std::str::from_utf8` reports for `bytes`.
pub uninterp spec fn utf8_error_text_of(bytes: Seq<u8>) -> Seq<char>;

/// Calls `std::str::from_utf8`: the bytes as text exactly when they are
/// valid UTF-8, and otherwise the error's display text.
#[verifier::external_body]
pub fn str_from_utf8(bytes: &[u8]) -> (r: Result<&str, String>)
    ensures
        r is Ok <==> valid_utf8(bytes@),
        r matches Ok(s) ==> s.spec_bytes() == bytes@,
        r matches Err(e) ==> e@ == utf8_error_text_of(bytes@),
{
    std::str::from_utf8(bytes).map_err(|error| error.to_string())
}

fn starts_with_bytes(bytes: &[u8], prefix: &[u8]) -> (r: bool)
    ensures
        r == has_prefix(bytes@, prefix@),
{
    if bytes.len() < prefix.len() {
        return false;
    }
    let mut i: usize = 0;
    while i < prefix.len()
        invariant
            prefix.len() <= bytes.len(),
            i <= prefix.len(),
            forall|j: int| 0 <= j < i ==> bytes@[j] == prefix@[j],
        decreases prefix.len() - i,
    {
        if bytes[i] != prefix[i] {
            assert(bytes@.take(prefix.len() as int)[i as int] != prefix@[i as int]);
            return false;
        }
        i += 1;
    }
    assert(bytes@.take(prefix.len() as int) =~= prefix@);
    true
}

/// The format that stream bytes announce.
pub fn sniff_format_from_bytes(bytes: &[u8]) -> (r: Result<DataFormat, Diagnostic>)
    ensures
        match r {
            Ok(f) => sniff_spec(bytes@) == Some(f),
            Err(d) => sniff_spec(bytes@) is None && d@ == unsniffable_diagnostic(),
        },
{
    let parquet: [u8; 4] = [0x50, 0x41, 0x52, 0x31];
    let arrow_file: [u8; 6] = [0x41, 0x52, 0x52, 0x4f, 0x57, 0x31];
    let arrow_stream: [u8; 4] = [0xff, 0xff, 0xff, 0xff];
    assert(parquet@ == seq![0x50u8, 0x41u8, 0x52u8, 0x31u8]);
    assert(arrow_file@ == seq![0x41u8, 0x52u8, 0x52u8, 0x4fu8, 0x57u8, 0x31u8]);
    assert(arrow_stream@ == seq![0xffu8, 0xffu8, 0xffu8, 0xffu8]);
    if starts_with_bytes(bytes, parquet.as_slice()) {
        return Ok(DataFormat::Parquet);
    }
    if starts_with_bytes(bytes, arrow_file.as_slice()) {
        return Ok(DataFormat::ArrowFile);
    }
    if starts_with_bytes(bytes, arrow_stream.as_slice()) {
        return Ok(DataFormat::ArrowStream);
    }
    if let Ok(text) = str_from_utf8(bytes) {
        let cs = chars_of(text);
        proof {
            encode_utf8_decode_utf8(text@);
        }
        let mut i: usize = 0;
        assert(cs@.skip(0) =~= cs@);
        while i < cs.len() && is_whitespace(cs[i])
            invariant
                i <= cs.len(),
                trim_start_spec(cs@) == trim_start_spec(cs@.skip(i as int)),
            decreases cs.len() - i,
        {
            assert(cs@.skip(i as int).drop_first() =~= cs@.skip(i + 1));
            i += 1;
        }
        if i < cs.len() && (cs[i] == '{' || cs[i] == '[') {
            assert(trim_start_spec(cs@)[0] == cs@[i as int]);
            return Ok(DataFormat::JsonLines);
        }
        proof {
            if i < cs.len() {
                assert(trim_start_spec(cs@)[0] == cs@[i as int]);
            } else {
                assert(cs@.skip(i as int).len() == 0);
            }
        }
        return Ok(DataFormat::Csv);
    }
    Err(Diagnostic::error(codes::E1216(), "could not infer supported format from stream bytes", Span::zero()))
}

} // verus!
