//! The schema of geospatial inputs: property columns in first-appearance
//! order across features, followed by the geometry column.
use vstd::prelude::*;
use vstd::string::StringSliceAdditionalSpecFns;
use vstd::utf8::*;

use crate::codes;
use crate::diagnostic::{code_text, Diagnostic, DiagnosticView};
use crate::format::{str_from_utf8, utf8_error_text_of};
use crate::readers::{column_set_items, column_set_names, key_union, new_column_set, union_keys};
use crate::severity::Severity;
use crate::span::Span;
use crate::text::{copy_str, push_str, strings_view};
use geo_types::Geometry;
use shapefile::{dbase, Reader, Shape, ShapeReader};
use std::io::Cursor;

verus! {

/// The column every feature's geometry is held in.
pub open spec fn geom_column() -> Seq<char> {
    "geom"@
}

/// Bytes for an ESRI shapefile bundle: the `.shp` geometry plus its
/// required `.dbf` attribute sidecar and an optional `.shx` index sidecar.
#[derive(Clone, Copy, Debug)]
pub struct ShapefileBundle<'a> {
    pub shp: &'a [u8],
    pub dbf: &'a [u8],
    pub shx: Option<&'a [u8]>,
}

/// A geospatial load error.
pub open spec fn geo_error_view(message: Seq<char>) -> DiagnosticView {
    DiagnosticView {
        severity: Severity::Error,
        code: code_text(0, 1819),
        message,
        span: Span { start: 0, end: 0 },
        related: Seq::empty(),
        help: None,
    }
}

/// A geospatial load error with `message`.
pub fn geo_error(message: &str) -> (r: Diagnostic)
    ensures
        r@ == geo_error_view(message@),
{
    Diagnostic::error(codes::E1819(), message, Span::zero())
}

/// The property names of each feature that `geojson` reads from GeoJSON
/// text (`Ok(None)` for a bare geometry), or its error text.
pub uninterp spec fn geojson_feature_keys_of(text: Seq<char>) -> Result<Option<Seq<Seq<Seq<char>>>>, Seq<char>>;

pub open spec fn feature_keys_view(r: Result<Option<Vec<Vec<String>>>, String>) -> Result<
    Option<Seq<Seq<Seq<char>>>>,
    Seq<char>,
> {
    match r {
        Ok(Some(features)) => Ok(Some(features@.map_values(|keys: Vec<String>| strings_view(keys@)))),
        Ok(None) => Ok(None),
        Err(e) => Err(e@),
    }
}

/// Calls `str::parse::<geojson::GeoJson>` on `text` and lists, for each
/// feature of a collection or for a lone feature, its property names in
/// the order the document gives them. A bare geometry gives `None`. The
/// geometries themselves are not read here: the schema does not depend on
/// them, and this crate's conversion of GeoJSON geometries to `geo_types`
/// does not fail.
#[verifier::external_body]
fn geojson_feature_keys(text: &str) -> (r: Result<Option<Vec<Vec<String>>>, String>)
    ensures
        feature_keys_view(r) == geojson_feature_keys_of(text@),
{
    let keys = |feature: &geojson::Feature| -> Vec<String> {
        feature.properties.as_ref().map(|properties| properties.keys().cloned().collect()).unwrap_or_default()
    };
    match text.parse::<geojson::GeoJson>() {
        Ok(geojson::GeoJson::FeatureCollection(collection)) => Ok(Some(collection.features.iter().map(keys).collect())),
        Ok(geojson::GeoJson::Feature(feature)) => Ok(Some(vec![keys(&feature)])),
        Ok(geojson::GeoJson::Geometry(_)) => Ok(None),
        Err(error) => Err(error.to_string()),
    }
}

/// The property columns of features, each once, in first-appearance order.
pub open spec fn features_columns(features: Seq<Seq<Seq<char>>>) -> Seq<Seq<char>>
    decreases features.len(),
{
    if features.len() == 0 {
        Seq::empty()
    } else {
        key_union(features_columns(features.drop_last()), features.last())
    }
}

/// What reading the schema of GeoJSON bytes yields.
pub open spec fn geojson_schema_spec(path: Seq<char>, bytes: Seq<u8>) -> Result<Seq<Seq<char>>, DiagnosticView> {
    if !valid_utf8(bytes) {
        Err(geo_error_view("GeoJSON input for `"@ + path + "` is not UTF-8: "@ + utf8_error_text_of(bytes)))
    } else {
        match geojson_feature_keys_of(decode_utf8(bytes)) {
            Err(e) => Err(geo_error_view("GeoJSON parse failed: "@ + e)),
            Ok(None) => Err(
                DiagnosticView {
                    severity: Severity::Error,
                    code: code_text(0, 1822),
                    message: "expected a GeoJSON FeatureCollection or Feature, found a bare geometry"@,
                    span: Span { start: 0, end: 0 },
                    related: Seq::empty(),
                    help: None,
                },
            ),
            Ok(Some(features)) => Ok(features_columns(features).push(geom_column())),
        }
    }
}

/// Schema column names for a GeoJSON source: property names in
/// first-appearance order followed by `geom`.
pub fn read_geojson_schema_from_bytes(path: &str, bytes: &[u8]) -> (r: Result<Vec<String>, Diagnostic>)
    ensures
        match geojson_schema_spec(path@, bytes@) {
            Ok(names) => r matches Ok(v) && strings_view(v@) == names,
            Err(d) => r matches Err(e) && e@ == d,
        },
{
    let text = match str_from_utf8(bytes) {
        Ok(text) => text,
        Err(error) => {
            let mut m = copy_str("GeoJSON input for `");
            push_str(&mut m, path);
            push_str(&mut m, "` is not UTF-8: ");
            push_str(&mut m, error.as_str());
            return Err(geo_error(m.as_str()));
        },
    };
    proof {
        assert(text.spec_bytes() == bytes@);
        encode_utf8_decode_utf8(text@);
    }
    match geojson_feature_keys(text) {
        Err(error) => {
            let mut m = copy_str("GeoJSON parse failed: ");
            push_str(&mut m, error.as_str());
            Err(geo_error(m.as_str()))
        },
        Ok(None) => Err(
            Diagnostic::error(
                codes::E1822(),
                "expected a GeoJSON FeatureCollection or Feature, found a bare geometry",
                Span::zero(),
            ),
        ),
        Ok(Some(features)) => {
            let ghost fv = features@.map_values(|keys: Vec<String>| strings_view(keys@));
            let mut set = new_column_set();
            let mut i: usize = 0;
            while i < features.len()
                invariant
                    i <= features.len(),
                    fv == features@.map_values(|keys: Vec<String>| strings_view(keys@)),
                    column_set_items(set) == features_columns(fv.take(i as int)),
                decreases features.len() - i,
            {
                union_keys(&mut set, &features[i]);
                proof {
                    assert(fv.take(i + 1).drop_last() =~= fv.take(i as int));
                    assert(fv.take(i + 1).last() == strings_view(features@[i as int]@));
                }
                i += 1;
            }
            assert(fv.take(features.len() as int) =~= fv);
            let mut columns = column_set_names(set);
            let ghost before = strings_view(columns@);
            columns.push(copy_str("geom"));
            assert(strings_view(columns@) =~= before.push(geom_column()));
            Ok(columns)
        },
    }
}

// ---------------------------------------------------------------------------
// Shapefiles
// ---------------------------------------------------------------------------

pub open spec fn opt_bytes(b: Option<&[u8]>) -> Option<Seq<u8>> {
    match b {
        Some(x) => Some(x@),
        None => None,
    }
}

/// What opening a bundle with the `shapefile` crate gives: the `.dbf`
/// field names in file order, or the error text of the part that would not
/// open, `(true, text)` for the `.shp` and `(false, text)` for the `.dbf`.
pub uninterp spec fn shapefile_open_of(shp: Seq<u8>, dbf: Seq<u8>, shx: Option<Seq<u8>>) -> Result<Seq<Seq<char>>, (bool, Seq<char>)>;

/// The `n`-th item that `shapefile::Reader::iter_shapes_and_records` gives
/// over an opened bundle: nothing past the last; whether it was read and
/// its shape converted, `(true, text)` where reading failed and
/// `(false, text)` where the shape is no geometry.
pub uninterp spec fn shapefile_record_of(shp: Seq<u8>, dbf: Seq<u8>, shx: Option<Seq<u8>>, n: nat) -> Option<
    Result<(), (bool, Seq<char>)>,
>;

/// The outcomes of the items before index `k`, up to and including the
/// first failure.
pub open spec fn record_outcomes(shp: Seq<u8>, dbf: Seq<u8>, shx: Option<Seq<u8>>, k: nat) -> Seq<
    Result<(), (bool, Seq<char>)>,
>
    decreases k,
{
    if k == 0 {
        Seq::empty()
    } else {
        let prev = record_outcomes(shp, dbf, shx, (k - 1) as nat);
        if prev.len() == k - 1 && (prev.len() == 0 || prev.last() is Ok) {
            match shapefile_record_of(shp, dbf, shx, (k - 1) as nat) {
                Some(o) => prev.push(o),
                None => prev,
            }
        } else {
            prev
        }
    }
}

/// How many items are asked for: the byte count of the `.shp`, or of the
/// `.shx` where that is larger. Every shape record read in sequence starts
/// with an eight-byte header in the `.shp`, and with an index every record
/// takes an eight-byte entry of the `.shx`, so no bundle has that many.
pub open spec fn record_bound(shp: Seq<u8>, shx: Option<Seq<u8>>) -> nat {
    match shx {
        Some(x) => if x.len() > shp.len() { x.len() } else { shp.len() },
        None => shp.len(),
    }
}

/// Each item's outcome in turn, up to and including the first failure.
pub open spec fn shapefile_records_of(shp: Seq<u8>, dbf: Seq<u8>, shx: Option<Seq<u8>>) -> Seq<
    Result<(), (bool, Seq<char>)>,
> {
    record_outcomes(shp, dbf, shx, record_bound(shp, shx))
}

/// What the `shapefile` crate reads of a bundle: the field names and each
/// record's outcome, or the failure to open it.
pub open spec fn shapefile_contents_of(shp: Seq<u8>, dbf: Seq<u8>, shx: Option<Seq<u8>>) -> Result<
    (Seq<Seq<char>>, Seq<Result<(), (bool, Seq<char>)>>),
    (bool, Seq<char>),
> {
    match shapefile_open_of(shp, dbf, shx) {
        Err(e) => Err(e),
        Ok(names) => Ok((names, shapefile_records_of(shp, dbf, shx))),
    }
}

pub open spec fn record_outcome_view(r: Result<(), (bool, String)>) -> Result<(), (bool, Seq<char>)> {
    match r {
        Ok(()) => Ok(()),
        Err((which, text)) => Err((which, text@)),
    }
}

pub open spec fn outcomes_view(v: Seq<Result<(), (bool, String)>>) -> Seq<Result<(), (bool, Seq<char>)>> {
    v.map_values(|r: Result<(), (bool, String)>| record_outcome_view(r))
}

pub open spec fn contents_view(c: Result<(Vec<String>, Vec<Result<(), (bool, String)>>), (bool, String)>) -> Result<
    (Seq<Seq<char>>, Seq<Result<(), (bool, Seq<char>)>>),
    (bool, Seq<char>),
> {
    match c {
        Ok((names, records)) => Ok((strings_view(names@), outcomes_view(records@))),
        Err((which, text)) => Err((which, text@)),
    }
}

/// Opens the bundle with `shapefile::ShapeReader::new` (or `with_shx`) and
/// `shapefile::dbase::Reader::new` over in-memory cursors and gives the
/// field names of `dbase::Reader::fields`, or the error text of the part
/// that would not open.
#[verifier::external_body]
fn shapefile_open(shp: &[u8], dbf: &[u8], shx: Option<&[u8]>) -> (r: Result<Vec<String>, (bool, String)>)
    ensures
        match r {
            Ok(names) => shapefile_open_of(shp@, dbf@, opt_bytes(shx)) == Ok::<Seq<Seq<char>>, (bool, Seq<char>)>(strings_view(names@)),
            Err((which, text)) => shapefile_open_of(shp@, dbf@, opt_bytes(shx)) == Err::<Seq<Seq<char>>, (bool, Seq<char>)>((which, text@)),
        },
{
    match shx {
        Some(x) => ShapeReader::with_shx(Cursor::new(shp), Cursor::new(x)),
        None => ShapeReader::new(Cursor::new(shp)),
    }.map_err(|e| (true, e.to_string()))?;
    let table = dbase::Reader::new(Cursor::new(dbf)).map_err(|e| (false, e.to_string()))?;
    Ok(table.fields().iter().map(|f| f.name().to_string()).collect())
}

pub open spec fn option_outcome_view(r: Option<Result<(), (bool, String)>>) -> Option<Result<(), (bool, Seq<char>)>> {
    match r {
        Some(o) => Some(record_outcome_view(o)),
        None => None,
    }
}

/// Opens the bundle as `shapefile_open` does and takes the `n`-th item of
/// `shapefile::Reader::iter_shapes_and_records` (`Iterator::nth`),
/// converting a shape other than a null one with
/// `geo_types::Geometry::try_from`; the geometry is not kept. The bundle
/// must open. The result is named, not described.
#[verifier::external_body]
fn shapefile_record_at(shp: &[u8], dbf: &[u8], shx: Option<&[u8]>, n: usize) -> (r: Option<Result<(), (bool, String)>>)
    requires
        shapefile_open_of(shp@, dbf@, opt_bytes(shx)) is Ok,
    ensures
        option_outcome_view(r) == shapefile_record_of(shp@, dbf@, opt_bytes(shx), n as nat),
{
    let shapes = match shx { Some(x) => ShapeReader::with_shx(Cursor::new(shp), Cursor::new(x)), None => ShapeReader::new(Cursor::new(shp)) }.unwrap();
    let table = dbase::Reader::new(Cursor::new(dbf)).unwrap();
    Reader::new(shapes, table).iter_shapes_and_records().nth(n).map(|item| match item {
        Err(e) => Err((true, e.to_string())),
        Ok((Shape::NullShape, _)) => Ok(()),
        Ok((shape, _)) => Geometry::try_from(shape).map(drop).map_err(|e| (false, e.to_string())),
    })
}

proof fn lemma_outcomes_settle(shp: Seq<u8>, dbf: Seq<u8>, shx: Option<Seq<u8>>, k: nat, m: nat)
    requires
        k <= m,
        record_outcomes(shp, dbf, shx, k).len() < k || (record_outcomes(shp, dbf, shx, k).len() > 0
            && record_outcomes(shp, dbf, shx, k).last() is Err),
    ensures
        record_outcomes(shp, dbf, shx, m) == record_outcomes(shp, dbf, shx, k),
    decreases m - k,
{
    if k < m {
        lemma_outcomes_settle(shp, dbf, shx, k, (m - 1) as nat);
        lemma_outcomes_len(shp, dbf, shx, k);
    }
}

proof fn lemma_outcomes_len(shp: Seq<u8>, dbf: Seq<u8>, shx: Option<Seq<u8>>, k: nat)
    ensures
        record_outcomes(shp, dbf, shx, k).len() <= k,
    decreases k,
{
    if k > 0 {
        lemma_outcomes_len(shp, dbf, shx, (k - 1) as nat);
    }
}

/// Each item's outcome of an opened bundle in turn, up to and including
/// the first failure.
fn shapefile_records(shp: &[u8], dbf: &[u8], shx: Option<&[u8]>) -> (r: Vec<Result<(), (bool, String)>>)
    requires
        shapefile_open_of(shp@, dbf@, opt_bytes(shx)) is Ok,
    ensures
        outcomes_view(r@) == shapefile_records_of(shp@, dbf@, opt_bytes(shx)),
{
    let ghost sx = opt_bytes(shx);
    let bound: usize = match shx {
        Some(x) => if x.len() > shp.len() { x.len() } else { shp.len() },
        None => shp.len(),
    };
    let mut outcomes: Vec<Result<(), (bool, String)>> = Vec::new();
    let mut i: usize = 0;
    assert(outcomes_view(outcomes@) =~= record_outcomes(shp@, dbf@, sx, 0));
    while i < bound
        invariant
            i <= bound,
            bound == record_bound(shp@, sx),
            sx == opt_bytes(shx),
            shapefile_open_of(shp@, dbf@, sx) is Ok,
            outcomes@.len() == i,
            outcomes_view(outcomes@) == record_outcomes(shp@, dbf@, sx, i as nat),
            i == 0 || outcomes@.last() is Ok,
        decreases bound - i,
    {
        let ghost before = outcomes@;
        match shapefile_record_at(shp, dbf, shx, i) {
            None => {
                proof {
                    assert(record_outcomes(shp@, dbf@, sx, (i + 1) as nat) == outcomes_view(before));
                    lemma_outcomes_settle(shp@, dbf@, sx, (i + 1) as nat, record_bound(shp@, sx));
                }
                return outcomes;
            },
            Some(o) => {
                let stop = o.is_err();
                outcomes.push(o);
                proof {
                    assert(outcomes_view(outcomes@) =~= outcomes_view(before).push(record_outcome_view(o)));
                    assert(record_outcomes(shp@, dbf@, sx, (i + 1) as nat) == outcomes_view(outcomes@));
                }
                if stop {
                    proof {
                        lemma_outcomes_settle(shp@, dbf@, sx, (i + 1) as nat, record_bound(shp@, sx));
                    }
                    return outcomes;
                }
            },
        }
        i += 1;
    }
    outcomes
}

/// What the `shapefile` crate reads of a bundle: the field names and each
/// record's outcome, or the failure to open it.
pub fn shapefile_contents(shp: &[u8], dbf: &[u8], shx: Option<&[u8]>) -> (r: Result<
    (Vec<String>, Vec<Result<(), (bool, String)>>),
    (bool, String),
>)
    ensures
        contents_view(r) == shapefile_contents_of(shp@, dbf@, opt_bytes(shx)),
{
    match shapefile_open(shp, dbf, shx) {
        Err(e) => Err(e),
        Ok(names) => Ok((names, shapefile_records(shp, dbf, shx))),
    }
}

/// The first failed record, where one failed.
pub open spec fn first_record_failure(records: Seq<Result<(), (bool, Seq<char>)>>) -> Option<(bool, Seq<char>)>
    decreases records.len(),
{
    if records.len() == 0 {
        None
    } else {
        match first_record_failure(records.drop_last()) {
            Some(e) => Some(e),
            None => match records.last() {
                Err(e) => Some(e),
                Ok(()) => None,
            },
        }
    }
}

/// An error opening a shapefile bundle.
pub open spec fn open_error_view(message: Seq<char>) -> DiagnosticView {
    DiagnosticView {
        severity: Severity::Error,
        code: code_text(0, 1820),
        message,
        span: Span { start: 0, end: 0 },
        related: Seq::empty(),
        help: None,
    }
}

/// The schema of a shapefile bundle from what the crate read: an opening
/// failure is `E1820`; a failed record or an unsupported geometry is the
/// geospatial error of the first one; otherwise the field names, each once
/// in file order (none where there is no record), then `geom`.
pub open spec fn shapefile_schema_spec(c: Result<(Seq<Seq<char>>, Seq<Result<(), (bool, Seq<char>)>>), (bool, Seq<char>)>) -> Result<
    Seq<Seq<char>>,
    DiagnosticView,
> {
    match c {
        Err((shp, e)) => if shp {
            Err(open_error_view("shapefile `.shp` could not be read: "@ + e))
        } else {
            Err(open_error_view("shapefile `.dbf` sidecar could not be read: "@ + e))
        },
        Ok((names, records)) => match first_record_failure(records) {
            Some((read, e)) => if read {
                Err(geo_error_view("shapefile record failed: "@ + e))
            } else {
                Err(geo_error_view("unsupported shapefile geometry: "@ + e))
            },
            None => Ok(
                (if records.len() > 0 {
                    key_union(Seq::empty(), names)
                } else {
                    Seq::empty()
                }).push(geom_column()),
            ),
        },
    }
}

pub open spec fn schema_view(r: Result<Vec<String>, Diagnostic>) -> Result<Seq<Seq<char>>, DiagnosticView> {
    match r {
        Ok(v) => Ok(strings_view(v@)),
        Err(e) => Err(e@),
    }
}

fn record_error(read: bool, text: &str) -> (d: Diagnostic)
    ensures
        d@ == geo_error_view(
            if read {
                "shapefile record failed: "@ + text@
            } else {
                "unsupported shapefile geometry: "@ + text@
            },
        ),
{
    let mut m = if read {
        copy_str("shapefile record failed: ")
    } else {
        copy_str("unsupported shapefile geometry: ")
    };
    push_str(&mut m, text);
    geo_error(m.as_str())
}

fn open_error(shp: bool, text: &str) -> (d: Diagnostic)
    ensures
        d@ == open_error_view(
            if shp {
                "shapefile `.shp` could not be read: "@ + text@
            } else {
                "shapefile `.dbf` sidecar could not be read: "@ + text@
            },
        ),
{
    let mut m = if shp {
        copy_str("shapefile `.shp` could not be read: ")
    } else {
        copy_str("shapefile `.dbf` sidecar could not be read: ")
    };
    push_str(&mut m, text);
    Diagnostic::error(codes::E1820(), m.as_str(), Span::zero())
}

/// The schema of a shapefile bundle from what the `shapefile` crate read.
pub fn shapefile_schema(c: Result<(Vec<String>, Vec<Result<(), (bool, String)>>), (bool, String)>) -> (r: Result<
    Vec<String>,
    Diagnostic,
>)
    ensures
        schema_view(r) == shapefile_schema_spec(contents_view(c)),
{
    let ghost cv = contents_view(c);
    match c {
        Err((shp, text)) => Err(open_error(shp, text.as_str())),
        Ok((names, records)) => {
            let ghost rv = outcomes_view(records@);
            let mut i: usize = 0;
            while i < records.len()
                invariant
                    i <= records.len(),
                    rv == outcomes_view(records@),
                    cv == contents_view(c),
                    cv == Ok::<(Seq<Seq<char>>, Seq<Result<(), (bool, Seq<char>)>>), (bool, Seq<char>)>((strings_view(names@), rv)),
                    first_record_failure(rv.take(i as int)) is None,
                decreases records.len() - i,
            {
                assert(rv.take(i + 1).drop_last() =~= rv.take(i as int));
                assert(rv.take(i + 1).last() == record_outcome_view(records@[i as int]));
                match &records[i] {
                    Err((which, text)) => {
                        proof {
                            assert(first_record_failure(rv.take(i + 1)) == Some((*which, text@)));
                            lemma_first_failure_stays(rv, i + 1);
                        }
                        return Err(record_error(*which, text.as_str()));
                    },
                    Ok(()) => {},
                }
                i += 1;
            }
            assert(rv.take(records.len() as int) =~= rv);
            let mut set = new_column_set();
            if records.len() > 0 {
                union_keys(&mut set, &names);
            }
            let mut columns = column_set_names(set);
            let ghost before = strings_view(columns@);
            columns.push(copy_str("geom"));
            assert(strings_view(columns@) =~= before.push(geom_column()));
            Ok(columns)
        },
    }
}

proof fn lemma_first_failure_stays(records: Seq<Result<(), (bool, Seq<char>)>>, m: int)
    requires
        0 < m <= records.len(),
        first_record_failure(records.take(m)) is Some,
    ensures
        first_record_failure(records) == first_record_failure(records.take(m)),
    decreases records.len() - m,
{
    if m < records.len() {
        assert(records.drop_last().take(m) =~= records.take(m));
        lemma_first_failure_stays(records.drop_last(), m);
    } else {
        assert(records.take(m) =~= records);
    }
}

/// Schema column names for a shapefile bundle: the `.dbf` field names in
/// file order followed by `geom`.
pub fn read_shapefile_schema_from_bundle(bundle: ShapefileBundle) -> (r: Result<Vec<String>, Diagnostic>)
    ensures
        schema_view(r) == shapefile_schema_spec(shapefile_contents_of(bundle.shp@, bundle.dbf@, opt_bytes(bundle.shx))),
{
    shapefile_schema(shapefile_contents(bundle.shp, bundle.dbf, bundle.shx))
}

} // verus!
