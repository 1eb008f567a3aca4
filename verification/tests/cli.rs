use pdl::context::{parse_context_overrides, split_context_override};
use pdl::bench::{
    base_record, labelled_report_path, parse_optional_field_u128, parse_optional_field_u64,
    parse_optional_u128, parse_optional_u64, pdl_bin, BaseRecordFields, RecordContext,
    parse_peak_rss_bytes, parse_u64_text,
    extension_for_format, large_workloads, sanitize_label, shuffle_workloads, BenchmarkEngine,
    BuildProfile, Tier,
};
use pdl::cli::{
    agent_reference_update, extend_new_diagnostics, new_agent_file,
    reference_block, status_text, str_contains, PdlError,
};
use pdl::codes;
use pdl::diagnostic::Diagnostic;
use pdl::origin::SourceOrigin;
use pdl::path::relative;
use pdl::plan::{DriverPlan, LoadFrom, LoadStage, PipelineLabel, PipelineShape, SaveStage, SaveTo};
use pdl::render::{driver_plan_json, pipeline_label_text, render_schema_text, SchemaJson, SniffingJson};
use pdl::span::Span;

#[test]
fn schema_text_lists_columns() {
    assert_eq!(
        render_schema_text(&["region".to_string(), "amount".to_string()]),
        "columns:\n  - region\n  - amount\n"
    );
    assert_eq!(render_schema_text(&[]), "columns:\n");
}

#[test]
fn schema_json_columns_are_unknown_and_nullable() {
    let schema = SchemaJson::from_columns(vec!["a".to_string(), "b".to_string()]);
    assert_eq!(schema.columns.len(), 2);
    assert_eq!(schema.columns[1].name, "b");
    assert_eq!(schema.columns[1].logical_type, "unknown");
    assert!(schema.columns[0].nullable);
}

#[test]
fn plan_json_renders_labels_sources_and_sniffing() {
    assert_eq!(pipeline_label_text(&PipelineLabel::Main), "main");
    assert_eq!(pipeline_label_text(&PipelineLabel::Binding("x".to_string())), "binding:x");
    assert_eq!(pipeline_label_text(&PipelineLabel::Output("y".to_string())), "output:y");
    let pipelines = vec![PipelineShape {
        label: PipelineLabel::Output("daily".to_string()),
        load: Some(LoadStage { source: LoadFrom::Stdin(Span::new(1, 2)), format: None, span: Span::new(0, 2) }),
        saves: vec![SaveStage {
            sink: SaveTo::Path { value: "out.parquet".to_string(), span: Span::new(3, 4) },
            format: None,
            span: Span::new(3, 5),
        }],
    }];
    let plan = DriverPlan::build("main.pdl", SourceOrigin::path("main.pdl"), &pipelines);
    let json = driver_plan_json(&plan);
    assert_eq!(json.source_path, "main.pdl");
    assert_eq!(json.inputs[0].pipeline, "output:daily");
    assert_eq!(json.inputs[0].source, "stdin");
    assert_eq!(json.inputs[0].format.effective, "unresolved");
    assert_eq!(
        json.inputs[0].format.sniffing,
        SniffingJson::Deferred { reason: "stdin-without-explicit-format" }
    );
    assert_eq!(json.sinks[0].sink, "out.parquet");
    assert_eq!(json.sinks[0].format.inferred_from_path.as_deref(), Some("parquet"));
    assert_eq!(json.sinks[0].format.sniffing, SniffingJson::NotNeeded);
    assert_eq!(json.streams[0].stream, "stdin");
    assert_eq!(json.streams[0].direction, "read");
    assert!(json.dependencies.is_empty());
}

#[test]
fn new_diagnostics_are_appended_once() {
    let a = Diagnostic::error(codes::E1005(), "a", Span::new(0, 1));
    let b = Diagnostic::error(codes::E1005(), "b", Span::new(0, 1));
    let mut target = vec![a.clone()];
    extend_new_diagnostics(&mut target, vec![b.clone(), a.clone(), b.clone()]);
    assert_eq!(target, vec![a, b]);
}

#[test]
fn serve_status_texts() {
    assert_eq!(status_text(200), "OK");
    assert_eq!(status_text(204), "No Content");
    assert_eq!(status_text(404), "Not Found");
    assert_eq!(status_text(500), "OK");
}

#[test]
fn errors_render_their_messages() {
    assert_eq!(PdlError::Diagnostic("bad".to_string()).message(), "bad");
    assert_eq!(PdlError::Io("disk".to_string()).message(), "I/O failed: disk");
}

#[test]
fn agent_files_gain_the_reference_block_once() {
    assert!(reference_block().contains("<!-- pdl-init-language-reference -->"));
    assert_eq!(agent_reference_update("already points at PDL_LANG.md"), None);
    assert_eq!(
        agent_reference_update("# Notes"),
        Some(format!("# Notes\n{}", reference_block()))
    );
    assert_eq!(
        agent_reference_update("# Notes\n"),
        Some(format!("# Notes\n{}", reference_block()))
    );
    assert_eq!(new_agent_file("Project Notes"), format!("# Project Notes{}", reference_block()));
    assert!(str_contains("abcdef", "cde"));
    assert!(!str_contains("abc", "abcd"));
    assert!(str_contains("abc", ""));
}

#[test]
fn bench_enums_and_extensions() {
    assert_eq!(Tier::Smoke.as_str(), "smoke");
    assert_eq!(Tier::Stress.rows(), 1_000_000);
    assert_eq!(Tier::Local.rows(), 100_000);
    assert_eq!(BuildProfile::Release.dir(), "release");
    assert_eq!(BenchmarkEngine::Native.as_str(), "native");
    assert_eq!(extension_for_format("arrow-file"), "arrow");
    assert_eq!(extension_for_format("jsonl"), "jsonl");
    assert_eq!(extension_for_format("multi-csv"), "out");
}

#[test]
fn workload_table_is_complete() {
    let workloads = large_workloads();
    assert_eq!(workloads.len(), 30);
    assert_eq!(workloads[0].name, "million_row_segment_summary");
    assert_eq!(workloads[0].stdout_format(), Some("csv"));
    let fanout = workloads.iter().find(|w| w.name == "million_row_multi_output_fanout").expect("fanout");
    assert_eq!(fanout.stdout_format(), None);
    assert!(workloads.iter().any(|w| w.stdin_path.is_some()));
}

#[test]
fn labels_are_sanitized_for_directories() {
    assert_eq!(sanitize_label("run 1/é"), "run-1--");
    assert_eq!(sanitize_label("v0.49_a-b"), "v0.49_a-b");
    assert_eq!(sanitize_label(""), "run");
}

#[test]
fn shuffle_is_a_deterministic_permutation() {
    let original: Vec<u32> = (0..10).collect();
    let mut first = original.clone();
    shuffle_workloads(&mut first, b"label");
    let mut second = original.clone();
    shuffle_workloads(&mut second, b"label");
    assert_eq!(first, second);
    let mut sorted = first.clone();
    sorted.sort();
    assert_eq!(sorted, original);
    let mut empty: Vec<u32> = Vec::new();
    shuffle_workloads(&mut empty, b"x");
    assert!(empty.is_empty());
}

#[test]
fn peak_rss_reads_gnu_and_bsd_time_logs() {
    let gnu = "\tCommand being timed: \"pdl run x.pdl\"\n\tMaximum resident set size (kbytes): 2048\n\tExit status: 0\n";
    assert_eq!(parse_peak_rss_bytes(gnu, false), Some(2048 * 1024));
    let bsd = "        0.10 real         0.05 user         0.01 sys\r\n   1966080  maximum resident set size\r\n";
    assert_eq!(parse_peak_rss_bytes(bsd, true), Some(1966080));
    assert_eq!(parse_peak_rss_bytes(bsd, false), Some(1966080 * 1024));
    assert_eq!(parse_peak_rss_bytes("no memory line here", false), None);
    assert_eq!(parse_peak_rss_bytes("Maximum resident set size (kbytes): lots", false), None);
    assert_eq!(parse_peak_rss_bytes("x maximum resident set size", true), None);
    assert_eq!(
        parse_peak_rss_bytes("Maximum resident set size (kbytes): 18446744073709551615", false),
        Some(u64::MAX)
    );
    let digits = |t: &str| parse_u64_text(&t.chars().collect::<Vec<_>>());
    assert_eq!(digits("+42"), Some(42));
    assert_eq!(digits("18446744073709551616"), None);
    assert_eq!(digits("-1"), None);
    assert_eq!(digits("+"), None);
    assert_eq!(digits(""), None);
}

#[test]
fn report_rows_open_with_run_and_workload_columns() {
    let workloads = large_workloads();
    let context = RecordContext {
        run_label: "nightly".to_string(),
        tier: Tier::Smoke,
        engine: BenchmarkEngine::Row,
        input_rows: 1000,
        run_timestamp: "2025-01-01T00:00:00Z".to_string(),
        git_ref: "abc123".to_string(),
    };
    let fields = BaseRecordFields {
        status: "ok".to_string(),
        command: "pdl run".to_string(),
        output_path: "out.csv".to_string(),
        log_path: "run.log".to_string(),
        output_rows: "12".to_string(),
        output_bytes: 345,
        elapsed_ms: 6789,
        notes: String::new(),
    };
    let row = base_record(&context, &workloads[0], fields);
    assert_eq!(row.len(), 22);
    assert_eq!(&row[0..4], &["pdl", "pdl-bench", "nightly", "large"]);
    assert_eq!(row[4], "million_row_segment_summary");
    assert_eq!(row[6], "smoke");
    assert_eq!(row[9], "row");
    assert_eq!(row[14], "1000");
    assert_eq!(row[16], "");
    assert_eq!(row[17], "345");
    assert_eq!(row[18], "6789");
    assert_eq!(row[21], "");
}

#[test]
fn bench_paths_and_optional_fields() {
    assert_eq!(pdl_bin("/repo", BuildProfile::Debug), "/repo/target/debug/pdl");
    assert_eq!(labelled_report_path("/repo", "bench/runs", "a b"), "/repo/bench/runs/a-b/report.csv");
    assert_eq!(relative("/repo", "/repo/bench/x.log"), "bench/x.log");
    assert_eq!(relative("/repo", "/elsewhere/x.log"), "/elsewhere/x.log");
    assert_eq!(parse_optional_field_u64(Some("17")), Some(17));
    assert_eq!(parse_optional_field_u64(Some("")), None);
    assert_eq!(parse_optional_field_u64(None), None);
    assert_eq!(parse_optional_field_u128(Some("340282366920938463463374607431768211455")), Some(u128::MAX));
    let record = csv::StringRecord::from(vec!["5", "", "x"]);
    assert_eq!(parse_optional_u64(&record, Some(0)), Some(5));
    assert_eq!(parse_optional_u64(&record, Some(1)), None);
    assert_eq!(parse_optional_u128(&record, Some(2)), None);
    assert_eq!(parse_optional_u128(&record, Some(9)), None);
    assert_eq!(parse_optional_u128(&record, None), None);
}

#[test]
fn merging_the_same_diagnostics_twice_changes_nothing() {
    let a = Diagnostic::error(codes::E1005(), "a", Span::new(0, 1));
    let b = Diagnostic::error(codes::E1005(), "b", Span::new(0, 1));
    let mut target = vec![a.clone()];
    extend_new_diagnostics(&mut target, vec![b.clone(), b.clone(), a.clone()]);
    let once = target.clone();
    extend_new_diagnostics(&mut target, vec![b.clone(), b.clone(), a.clone()]);
    assert_eq!(target, once);
    assert_eq!(target, vec![a, b]);
}

#[test]
fn large_workloads_keep_to_their_naming_and_datasets() {
    let datasets = [
        "million-row.csv", "million-row.parquet", "million-row.arrow", "segment-dimension.csv",
        "million-row-part-a.csv", "million-row-part-b.csv", "million-row-narrow.csv",
        "million-row-events.csv", "million-row-events.jsonl",
    ];
    for w in large_workloads() {
        assert_eq!(w.program, format!("bench/workloads/large/{}.pdl", w.name));
        assert!(datasets.iter().any(|d| w.required_path == format!("bench/data/generated/{d}")));
        assert!(w.required_path.ends_with(&format!(".{}", extension_for_format(w.input_format))));
        assert_eq!(w.stdout_format().is_none(), w.output_format == "multi-csv");
    }
}

#[test]
fn init_targets_follow_the_chosen_agents() {
    assert_eq!(
        pdl::cli::init_targets(false, false, false).unwrap_err(),
        "choose at least one agent target flag"
    );
    assert!(pdl::cli::init_targets(false, true, false).is_err());
    assert_eq!(pdl::cli::init_targets(true, false, true).unwrap(), vec![("AGENTS.md", "Agent Instructions")]);
}

#[test]
fn context_overrides_read_names_and_values() {
    let items: Vec<String> = ["a=1", "b=\"x\"", "a=true", "c=null", "d=West=1"].iter().map(|s| s.to_string()).collect();
    let numbers = vec![Some((1f64.to_bits(), "1".to_string())), None, None, None, None];
    let out = parse_context_overrides(&items, numbers).expect("overrides");
    let find = |name: &str| out.iter().find(|(n, _)| n == name).map(|(_, v)| v.to_csv_cell());
    assert_eq!(out.len(), 4);
    assert_eq!(find("a").as_deref(), Some("true"));
    assert_eq!(find("b").as_deref(), Some("x"));
    assert_eq!(find("c").as_deref(), Some(""));
    assert_eq!(find("d").as_deref(), Some("West=1"));
    assert!(matches!(out.iter().find(|(n, _)| n == "c").unwrap().1, pdl::value::Value::Null));
    assert_eq!(split_context_override("plain").unwrap_err(), "context override `plain` must be `name=value`");
    assert_eq!(split_context_override("=3").unwrap_err(), "context override `=3` has an empty name");
    let bad = vec!["q=\"open".to_string()];
    let error = parse_context_overrides(&bad, vec![None]).unwrap_err();
    assert!(error.starts_with("invalid quoted context string `\"open`: "), "{error}");
}
