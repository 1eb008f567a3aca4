use shapefile::dbase;
use std::io::Cursor;
use pdl::format::DataFormat;
use pdl::geo::{geo_error, read_geojson_schema_from_bytes};
use pdl::readers::read_schema_from_bytes;
use pdl::json::JsonNode;
use pdl::topojson::{topojson_schema, topojson_schema_of_parse, topojson_text};
use serde_json::Value as JsonValue;

fn node(value: &JsonValue) -> JsonNode {
    match value {
        JsonValue::Null => JsonNode::Null,
        JsonValue::Bool(flag) => JsonNode::Bool(*flag),
        JsonValue::Number(number) => JsonNode::Number(number.as_i64()),
        JsonValue::String(text) => JsonNode::Text(text.clone()),
        JsonValue::Array(items) => JsonNode::Array(items.iter().map(node).collect()),
        JsonValue::Object(entries) => {
            JsonNode::Object(entries.iter().map(|(key, item)| (key.clone(), node(item))).collect())
        }
    }
}

fn topo(text: &str) -> Result<Vec<String>, pdl::diagnostic::Diagnostic> {
    let value: JsonValue = serde_json::from_str(text).expect("json");
    topojson_schema(&node(&value))
}

#[test]
fn bare_geometry_is_rejected() {
    let bytes = br#"{"type":"Point","coordinates":[0,0]}"#;
    let error = read_geojson_schema_from_bytes("memory.geojson", bytes).unwrap_err();
    assert_eq!(error.code.as_str(), "E1822");
}

#[test]
fn geojson_schema_lists_properties_in_first_appearance_order_then_geom() {
    let bytes = br#"{
      "type": "FeatureCollection",
      "features": [
        {"type":"Feature","properties":{"GEOID":1,"name":"A"},
         "geometry":{"type":"Point","coordinates":[1,2]}},
        {"type":"Feature","properties":{"GEOID":2},
         "geometry":null}
      ]
    }"#;
    assert_eq!(
        read_geojson_schema_from_bytes("memory.geojson", bytes).expect("schema"),
        vec!["GEOID".to_string(), "name".to_string(), "geom".to_string()]
    );
    let lone = br#"{"type":"Feature","properties":{"z":1,"a":2},"geometry":null}"#;
    assert_eq!(
        read_schema_from_bytes("lone.geojson", DataFormat::GeoJson, lone).expect("feature"),
        vec!["z".to_string(), "a".to_string(), "geom".to_string()]
    );
}

#[test]
fn geojson_errors_carry_the_geospatial_code() {
    let error = read_geojson_schema_from_bytes("bad.geojson", b"{nope").unwrap_err();
    assert_eq!(error.code.as_str(), "E1819");
    assert!(error.message.starts_with("GeoJSON parse failed: "), "{}", error.message);
    let error = read_geojson_schema_from_bytes("bad.geojson", &[0xff]).unwrap_err();
    assert!(error.message.starts_with("GeoJSON input for `bad.geojson` is not UTF-8: "));
    assert_eq!(geo_error("x").code.as_str(), "E1819");
}

#[test]
fn multi_object_topojson_is_rejected() {
    let bytes = r#"{"type":"Topology","arcs":[],
      "objects":{"a":{"type":"Point","coordinates":[0,0]},
                 "b":{"type":"Point","coordinates":[1,1]}}}"#;
    let error = topo(bytes).unwrap_err();
    assert_eq!(error.code.as_str(), "E1821");
    assert_eq!(
        error.message,
        "TopoJSON topology defines multiple objects (a, b); explicit object selection is not available in this release"
    );
}

#[test]
fn single_object_topojson_schema_is_its_properties_then_geom() {
    let point = r#"{
      "type":"Topology",
      "transform":{"scale":[2.0,2.0],"translate":[100.0,200.0]},
      "objects":{"pts":{"type":"Point","coordinates":[5,10]}},
      "arcs":[]
    }"#;
    assert_eq!(topo(point).expect("schema"), vec!["geom".to_string()]);
    let collection = r#"{
      "type":"Topology",
      "arcs":[[[0,0],[1,1]],[[1,1],[2,0]]],
      "objects":{"roads":{"type":"GeometryCollection","geometries":[
        {"type":"LineString","arcs":[0,-2],"properties":{"name":"A","lanes":2}},
        {"type":"MultiLineString","arcs":[[1]],"properties":{"kind":"x","name":"B"}},
        {"properties":{"z":1}}
      ]}}
    }"#;
    assert_eq!(
        topo(collection).expect("schema"),
        vec!["name", "lanes", "kind", "z", "geom"].into_iter().map(String::from).collect::<Vec<_>>()
    );
}

#[test]
fn topojson_faults_are_reported_in_document_order() {
    let error = topo(r#"{"type":"FeatureCollection"}"#).unwrap_err();
    assert_eq!(error.code.as_str(), "E1819");
    assert_eq!(error.message, "expected a TopoJSON document with \"type\": \"Topology\"");
    let error = topo(r#"{"type":"Topology","transform":{"scale":[1,1]},"arcs":[],"objects":{}}"#).unwrap_err();
    assert_eq!(error.message, "TopoJSON transform `translate` must be [x, y]");
    let error = topo(r#"{"type":"Topology","objects":{}}"#).unwrap_err();
    assert_eq!(error.message, "TopoJSON topology has no `arcs` array");
    let error = topo(r#"{"type":"Topology","arcs":[[[0,0],[1]]],"objects":{}}"#).unwrap_err();
    assert_eq!(error.message, "TopoJSON arc position must be [x, y]");
    let error = topo(r#"{"type":"Topology","arcs":[],"objects":{}}"#).unwrap_err();
    assert_eq!(error.message, "TopoJSON topology has no objects");
    let error = topo(r#"{"type":"Topology","arcs":[[[0,0],[1,1]]],
      "objects":{"o":{"type":"LineString","arcs":[0,-3]}}}"#)
        .unwrap_err();
    assert_eq!(error.message, "TopoJSON arc index -3 out of range");
    let error = topo(r#"{"type":"Topology","arcs":[],
      "objects":{"o":{"type":"Polygon","arcs":[[0.5]]}}}"#)
        .unwrap_err();
    assert_eq!(error.message, "TopoJSON arc index must be an integer");
    let error = topo(r#"{"type":"Topology","arcs":[],
      "objects":{"o":{"type":"Circle"}}}"#)
        .unwrap_err();
    assert_eq!(error.message, "unsupported TopoJSON geometry type `Circle`");
    let error = topo(r#"{"type":"Topology","arcs":[],
      "objects":{"o":{"type":"MultiPoint","coordinates":[[1,2],"x",[3]]}}}"#)
        .unwrap_err();
    assert_eq!(error.message, "TopoJSON point must have x and y");
    let error = topo(r#"{"type":"Topology","arcs":[],
      "objects":{"o":{"type":"MultiPolygon","arcs":[[[0]], 7]}}}"#)
        .unwrap_err();
    assert_eq!(error.message, "TopoJSON arc index 0 out of range");
}

fn shapefile_bytes(with_record: bool) -> (Vec<u8>, Vec<u8>, Vec<u8>) {
    let mut shp = Cursor::new(Vec::new());
    let mut shx = Cursor::new(Vec::new());
    let mut dbf = Cursor::new(Vec::new());
    {
        let table = dbase::TableWriterBuilder::new()
            .add_character_field(dbase::FieldName::try_from("NAME").expect("field name"), 20)
            .add_numeric_field(dbase::FieldName::try_from("COUNT").expect("field name"), 10, 0)
            .build_with_dest(&mut dbf);
        let shapes = shapefile::ShapeWriter::with_shx(&mut shp, &mut shx);
        let mut writer = shapefile::Writer::new(shapes, table);
        if with_record {
            let mut record = dbase::Record::default();
            record.insert("NAME".to_string(), dbase::FieldValue::Character(Some("a".to_string())));
            record.insert("COUNT".to_string(), dbase::FieldValue::Numeric(Some(1.0)));
            writer
                .write_shape_and_record(&shapefile::Point::new(1.0, 2.0), &record)
                .expect("record written");
        }
    }
    (shp.into_inner(), dbf.into_inner(), shx.into_inner())
}

#[test]
fn shapefile_schema_lists_dbf_fields_then_geom() {
    let (shp, dbf, shx) = shapefile_bytes(true);
    let bundle = pdl::geo::ShapefileBundle { shp: &shp, dbf: &dbf, shx: Some(&shx) };
    assert_eq!(
        pdl::geo::read_shapefile_schema_from_bundle(bundle).expect("schema"),
        vec!["NAME".to_string(), "COUNT".to_string(), "geom".to_string()]
    );
    let bundle = pdl::geo::ShapefileBundle { shp: &shp, dbf: &dbf, shx: None };
    assert_eq!(pdl::geo::read_shapefile_schema_from_bundle(bundle).expect("schema").len(), 3);
}

#[test]
fn shapefile_without_records_has_only_geom() {
    let (shp, dbf, shx) = shapefile_bytes(false);
    let bundle = pdl::geo::ShapefileBundle { shp: &shp, dbf: &dbf, shx: Some(&shx) };
    assert_eq!(pdl::geo::read_shapefile_schema_from_bundle(bundle).expect("schema"), vec!["geom".to_string()]);
}

#[test]
fn shapefile_with_unreadable_parts_is_e1820() {
    let (shp, _, _) = shapefile_bytes(true);
    let bundle = pdl::geo::ShapefileBundle { shp: &shp, dbf: b"not a dbf", shx: None };
    let error = pdl::geo::read_shapefile_schema_from_bundle(bundle).expect_err("bad dbf");
    assert_eq!(error.code.as_str(), "E1820");
    assert!(error.message.starts_with("shapefile `.dbf` sidecar could not be read: "));
    let bundle = pdl::geo::ShapefileBundle { shp: b"xx", dbf: b"", shx: None };
    let error = pdl::geo::read_shapefile_schema_from_bundle(bundle).expect_err("bad shp");
    assert!(error.message.starts_with("shapefile `.shp` could not be read: "));
}

#[test]
fn topojson_bytes_must_be_utf8_and_parse() {
    let error = topojson_text("t.topojson", &[0xff, 0x00]).unwrap_err();
    assert_eq!(error.code.as_str(), "E1819");
    assert!(error.message.starts_with("TopoJSON input for `t.topojson` is not UTF-8: "), "{}", error.message);
    assert_eq!(topojson_text("t.topojson", b"{}").expect("utf-8"), "{}");
    let error = topojson_schema_of_parse(Err("expected value at line 1 column 1".to_string())).unwrap_err();
    assert_eq!(error.message, "TopoJSON parse failed: expected value at line 1 column 1");
    let doc = node(&serde_json::from_str::<JsonValue>(
        r#"{"type":"Topology","arcs":[],"objects":{"p":{"type":"Point","coordinates":[0,0],"properties":{"n":1}}}}"#,
    ).unwrap());
    assert_eq!(topojson_schema_of_parse(Ok(doc)).expect("schema"), vec!["n".to_string(), "geom".to_string()]);
}
