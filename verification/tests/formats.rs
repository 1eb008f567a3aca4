use std::sync::Arc;

use arrow_array::{ArrayRef, Int64Array, RecordBatch, StringArray};
use arrow_schema::{DataType, Field, Schema};
use pdl::format::{sniff_format_from_bytes, str_from_utf8, DataFormat};
use pdl::readers::{
    read_arrow_file_schema_from_bytes, read_arrow_stream_schema_from_bytes,
    read_csv_schema_from_bytes, read_json_lines_schema_from_bytes, read_parquet_schema_from_bytes,
};

fn sample_batch() -> RecordBatch {
    let schema = Arc::new(Schema::new(vec![
        Field::new("region", DataType::Utf8, true),
        Field::new("amount", DataType::Int64, true),
    ]));
    let columns: Vec<ArrayRef> = vec![
        Arc::new(StringArray::from(vec![Some("West"), None])),
        Arc::new(Int64Array::from(vec![Some(10), Some(12)])),
    ];
    RecordBatch::try_new(schema, columns).expect("batch")
}

fn arrow_stream_bytes() -> Vec<u8> {
    let batch = sample_batch();
    let mut writer =
        arrow_ipc::writer::StreamWriter::try_new(Vec::new(), &batch.schema()).expect("writer");
    writer.write(&batch).expect("write");
    writer.finish().expect("finish");
    writer.into_inner().expect("bytes")
}

fn arrow_file_bytes() -> Vec<u8> {
    let batch = sample_batch();
    let mut writer =
        arrow_ipc::writer::FileWriter::try_new(Vec::new(), &batch.schema()).expect("writer");
    writer.write(&batch).expect("write");
    writer.finish().expect("finish");
    writer.into_inner().expect("bytes")
}

fn parquet_bytes() -> Vec<u8> {
    let batch = sample_batch();
    let mut writer =
        parquet::arrow::ArrowWriter::try_new(Vec::new(), batch.schema(), None).expect("writer");
    writer.write(&batch).expect("write");
    writer.into_inner().expect("bytes")
}

#[test]
fn format_names_round_trip_and_aliases_resolve() {
    for format in [
        DataFormat::Csv,
        DataFormat::Parquet,
        DataFormat::ArrowFile,
        DataFormat::ArrowStream,
        DataFormat::JsonLines,
        DataFormat::GeoJson,
        DataFormat::Shapefile,
        DataFormat::TopoJson,
    ] {
        assert_eq!(DataFormat::from_name(format.canonical_name()), Some(format));
    }
    assert_eq!(DataFormat::from_name("ipc"), Some(DataFormat::ArrowFile));
    assert_eq!(DataFormat::from_name("arrow"), Some(DataFormat::ArrowStream));
    assert_eq!(DataFormat::from_name("ndjson"), Some(DataFormat::JsonLines));
    assert_eq!(DataFormat::from_name("xlsx"), None);
}

#[test]
fn paths_infer_formats_from_extensions() {
    assert_eq!(DataFormat::infer_from_path("data/sales.csv"), Some(DataFormat::Csv));
    assert_eq!(DataFormat::infer_from_path("a.pq"), Some(DataFormat::Parquet));
    assert_eq!(DataFormat::infer_from_path("a.feather"), Some(DataFormat::ArrowFile));
    assert_eq!(DataFormat::infer_from_path("dir.d/a.ndjson"), Some(DataFormat::JsonLines));
    assert_eq!(DataFormat::infer_from_path("roads.shp"), Some(DataFormat::Shapefile));
    assert_eq!(DataFormat::infer_from_path("out.data"), None);
    assert_eq!(DataFormat::infer_from_path("noextension"), None);
}

#[test]
fn format_traits() {
    assert!(DataFormat::Parquet.is_binary());
    assert!(!DataFormat::Csv.is_binary());
    assert!(DataFormat::TopoJson.is_geospatial());
    assert!(!DataFormat::JsonLines.is_geospatial());
    assert!(DataFormat::Csv.is_supported_input());
    assert!(DataFormat::GeoJson.is_supported_output());
    assert!(!DataFormat::Shapefile.is_supported_output());
}

#[test]
fn sniffing_reads_magic_bytes_and_text_shape() {
    assert_eq!(sniff_format_from_bytes(&parquet_bytes()).ok(), Some(DataFormat::Parquet));
    assert_eq!(sniff_format_from_bytes(&arrow_file_bytes()).ok(), Some(DataFormat::ArrowFile));
    assert_eq!(sniff_format_from_bytes(&arrow_stream_bytes()).ok(), Some(DataFormat::ArrowStream));
    assert_eq!(sniff_format_from_bytes(b"  {\"a\":1}\n").ok(), Some(DataFormat::JsonLines));
    assert_eq!(sniff_format_from_bytes(b"a,b\n1,2\n").ok(), Some(DataFormat::Csv));
    let error = sniff_format_from_bytes(&[0xc3, 0x28]).expect_err("not utf-8");
    assert_eq!(error.code.as_str(), "E1216");
    assert_eq!(error.message, "could not infer supported format from stream bytes");
}

#[test]
fn utf8_decoding_reports_the_std_error_text() {
    assert_eq!(str_from_utf8(b"abc"), Ok("abc"));
    let error = str_from_utf8(&[0x61, 0xff]).expect_err("invalid");
    assert!(error.contains("invalid utf-8"), "{error}");
}

#[test]
fn csv_headers_are_read_from_bytes() {
    assert_eq!(
        read_csv_schema_from_bytes("memory.csv", b"region,amount\nWest,10\n").expect("csv"),
        vec!["region".to_string(), "amount".to_string()]
    );
    assert_eq!(read_csv_schema_from_bytes("empty.csv", b"").expect("empty"), Vec::<String>::new());
}

#[test]
fn arrow_and_parquet_schemas_are_read_from_bytes() {
    let expected = vec!["region".to_string(), "amount".to_string()];
    assert_eq!(read_arrow_stream_schema_from_bytes("s.arrow", &arrow_stream_bytes()).expect("stream"), expected);
    assert_eq!(read_arrow_file_schema_from_bytes("f.arrow", &arrow_file_bytes()).expect("file"), expected);
    assert_eq!(read_parquet_schema_from_bytes("p.parquet", &parquet_bytes()).expect("parquet"), expected);
}

#[test]
fn unreadable_binary_inputs_report_read_failures() {
    let error = read_parquet_schema_from_bytes("bad.parquet", b"not parquet").expect_err("bad");
    assert_eq!(error.code.as_str(), "E1804");
    assert!(error.message.starts_with("Parquet parse failed for `bad.parquet`: "), "{}", error.message);
    let error = read_arrow_stream_schema_from_bytes("bad.arrow", b"nope").expect_err("bad");
    assert!(error.message.starts_with("Arrow IPC stream parse failed for `bad.arrow`: "));
    let error = read_arrow_file_schema_from_bytes("bad.arrow", b"nope").expect_err("bad");
    assert!(error.message.starts_with("Arrow IPC file parse failed for `bad.arrow`: "));
}

#[test]
fn json_lines_schema_keeps_first_appearance_order() {
    let bytes = br#"{"region":"West","amount":10,"active":true}
{"amount":12.5,"extra":{"source":"manual"}}
"#;
    assert_eq!(
        read_json_lines_schema_from_bytes("memory.jsonl", bytes).expect("schema"),
        vec![
            "region".to_string(),
            "amount".to_string(),
            "active".to_string(),
            "extra".to_string(),
        ]
    );
    assert_eq!(
        read_json_lines_schema_from_bytes("blank.jsonl", b"\n  \n").expect("blank"),
        Vec::<String>::new()
    );
}

#[test]
fn json_lines_reject_non_objects_and_bad_json() {
    let error = read_json_lines_schema_from_bytes("m.jsonl", b"{\"a\":1}\n[1,2]\n").expect_err("array");
    assert_eq!(error.code.as_str(), "E1804");
    assert!(error.message.contains("line 2"), "{}", error.message);
    let error = read_json_lines_schema_from_bytes("m.jsonl", b"{oops}\n").expect_err("bad json");
    assert!(error.message.contains("line 1"), "{}", error.message);
    let error = read_json_lines_schema_from_bytes("m.jsonl", &[0xff]).expect_err("utf8");
    assert!(error.message.starts_with("JSON Lines input for `m.jsonl` is not UTF-8: "));
}
