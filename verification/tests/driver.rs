use pdl::cache::{SchemaCacheKey, SourceIdentity};
use pdl::codes;
use pdl::diagnostic::Diagnostic;
use pdl::facts::{ExternalFacts, InMemoryFacts};
use pdl::format::DataFormat;
use pdl::io::{DriverIo, InMemoryDriverIo};
use pdl::origin::{SourceInput, SourceOrigin};
use pdl::path::{resolve_input_path, resolve_output_path};
use pdl::plan::{
    format_decision, DriverPlan, FormatName, LoadFrom, LoadStage, PipelineLabel, PipelineShape,
    SaveStage, SaveTo, SinkDescriptor, SniffingDecision, SniffingReason,
};
use pdl::prepare::{
    parse_errors_allow_semantic_followup, push_unique, resolve_input_format, span_key,
    stdin_pre_read_diagnostics, stdin_read_needed, PrepareOptions,
};
use pdl::report::{PreparationReport, ReportPhase};
use pdl::span::Span;

fn span_of(source: &str, needle: &str) -> Span {
    let start = source.find(needle).expect("needle");
    Span::new(start, start + needle.len())
}

const PLAN_SOURCE: &str = r#"let via_stdin =
  load stdin
  | save stdout format "arrow-stream"

load "sales.csv"
  | save "out.data""#;

fn plan_pipelines() -> Vec<PipelineShape> {
    let s = PLAN_SOURCE;
    vec![
        PipelineShape {
            label: PipelineLabel::Binding("via_stdin".to_string()),
            load: Some(LoadStage {
                source: LoadFrom::Stdin(span_of(s, "stdin")),
                format: None,
                span: span_of(s, "load stdin"),
            }),
            saves: vec![SaveStage {
                sink: SaveTo::Stdout(span_of(s, "stdout")),
                format: Some(FormatName {
                    value: "arrow-stream".to_string(),
                    span: span_of(s, "\"arrow-stream\""),
                }),
                span: span_of(s, "save stdout format \"arrow-stream\""),
            }],
        },
        PipelineShape {
            label: PipelineLabel::Main,
            load: Some(LoadStage {
                source: LoadFrom::Path {
                    value: "sales.csv".to_string(),
                    span: span_of(s, "\"sales.csv\""),
                },
                format: None,
                span: span_of(s, "load \"sales.csv\""),
            }),
            saves: vec![SaveStage {
                sink: SaveTo::Path {
                    value: "out.data".to_string(),
                    span: span_of(s, "\"out.data\""),
                },
                format: None,
                span: span_of(s, "save \"out.data\""),
            }],
        },
    ]
}

#[test]
fn plan_records_dependencies_streams_and_deferred_sniffing_without_io() {
    let plan = DriverPlan::build(
        "memory/main.pdl",
        SourceOrigin::path("memory/main.pdl"),
        &plan_pipelines(),
    );

    assert_eq!(plan.dependencies.len(), 1);
    assert_eq!(plan.dependencies[0].logical_path, "sales.csv");
    assert_eq!(plan.dependencies[0].inferred_format, Some(DataFormat::Csv));
    assert_eq!(plan.stdin_reads().len(), 1);
    assert_eq!(plan.stdout_writes().len(), 1);
    assert_eq!(
        plan.inputs[0].format.sniffing,
        SniffingDecision::Deferred {
            reason: SniffingReason::StdinWithoutExplicitFormat
        }
    );
    assert_eq!(
        plan.sinks
            .iter()
            .find(|sink| matches!(sink.sink, SinkDescriptor::Path { .. }))
            .expect("path sink")
            .format
            .sniffing,
        SniffingDecision::Deferred {
            reason: SniffingReason::PathWithoutKnownExtension
        }
    );
}

#[test]
fn plan_resolves_inputs_next_to_the_program_and_dedups_dependencies() {
    let load = |value: &str| LoadStage {
        source: LoadFrom::Path { value: value.to_string(), span: Span::new(0, 1) },
        format: None,
        span: Span::new(0, 1),
    };
    let pipelines = vec![
        PipelineShape { label: PipelineLabel::Binding("a".to_string()), load: Some(load("sales.csv")), saves: vec![] },
        PipelineShape { label: PipelineLabel::Output("b".to_string()), load: Some(load("sales.csv")), saves: vec![] },
        PipelineShape { label: PipelineLabel::Main, load: None, saves: vec![] },
    ];
    let plan = DriverPlan::build("proj/main.pdl", SourceOrigin::stdin(), &pipelines);
    assert_eq!(plan.base_dir, "proj");
    assert_eq!(plan.inputs.len(), 2);
    assert_eq!(plan.dependencies.len(), 1);
    assert_eq!(plan.dependencies[0].resolved_path, "proj/sales.csv");
    assert_eq!(plan.inputs[0].format.effective_name(), "csv");
    assert!(plan.input_for_stage_span(Span::new(0, 1)).is_some());
    assert!(plan.input_for_stage_span(Span::new(5, 6)).is_none());
    assert!(plan.sink_for_stage_span(Span::new(0, 1)).is_none());
    assert_eq!(plan.origin.input, SourceInput::Stdin);
}

#[test]
fn paths_resolve_against_the_program_directory() {
    assert_eq!(resolve_input_path("proj/main.pdl", "data/a.csv"), "proj/data/a.csv");
    assert_eq!(resolve_input_path("main.pdl", "a.csv"), "a.csv");
    assert_eq!(resolve_input_path("proj/main.pdl", "/abs/a.csv"), "/abs/a.csv");
    assert_eq!(resolve_output_path("out/x.csv"), "out/x.csv");
}

#[test]
fn format_decisions_defer_sniffing_only_when_nothing_is_known() {
    let explicit = format_decision(Some("csv".to_string()), None, SniffingReason::StdinWithoutExplicitFormat);
    assert_eq!(explicit.sniffing, SniffingDecision::NotNeeded);
    assert_eq!(explicit.effective_name(), "csv");
    let inferred = format_decision(None, Some(DataFormat::Parquet), SniffingReason::PathWithoutKnownExtension);
    assert_eq!(inferred.effective_name(), "parquet");
    let unknown = format_decision(None, None, SniffingReason::StdoutWithoutExplicitFormat);
    assert_eq!(unknown.effective_name(), "unresolved");
    assert_eq!(
        unknown.sniffing,
        SniffingDecision::Deferred { reason: SniffingReason::StdoutWithoutExplicitFormat }
    );
}

#[test]
fn schema_cache_key_uses_identity_and_fingerprint() {
    let left = SchemaCacheKey::new(
        SourceIdentity::Path {
            resolved_path: "/data/sales.csv".to_string(),
        },
        "len:10",
    );
    let right = SchemaCacheKey::new(
        SourceIdentity::Path {
            resolved_path: "/data/sales.csv".to_string(),
        },
        "len:11",
    );

    assert_ne!(left, right);
    assert!(!left.same_key(&right));
    assert!(left.same_key(&left.clone()));
}

#[test]
fn in_memory_io_reads_back_what_was_written() {
    let io = InMemoryDriverIo::default()
        .with_source("main.pdl", "load \"a.csv\"")
        .with_file_bytes("a.csv", b"x,y\n1,2\n".to_vec())
        .with_schema("b.csv", vec!["k".to_string()])
        .with_stdin_bytes(b"stdin".to_vec());
    assert_eq!(io.read_source("main.pdl").expect("source"), "load \"a.csv\"");
    assert_eq!(io.read_path_bytes("a.csv").expect("bytes"), b"x,y\n1,2\n".to_vec());
    assert_eq!(io.read_csv_schema("a.csv").expect("from bytes"), vec!["x".to_string(), "y".to_string()]);
    assert_eq!(io.read_csv_schema("b.csv").expect("declared"), vec!["k".to_string()]);
    assert_eq!(io.read_stdin_bytes().expect("stdin"), b"stdin".to_vec());
    let metadata = io.path_metadata("a.csv").expect("metadata");
    assert_eq!(metadata.len, Some(8));
    assert_eq!(metadata.fingerprint.as_deref(), Some("memory-len:8"));
}

#[test]
fn in_memory_io_reports_what_was_not_provided() {
    let io = InMemoryDriverIo::default();
    let e = io.read_source("x.pdl").expect_err("missing");
    assert_eq!(e.code.as_str(), "E1802");
    assert_eq!(e.message, "in-memory PDL source `x.pdl` was not provided");
    let e = io.read_csv_schema("x.csv").expect_err("missing");
    assert_eq!(e.code.as_str(), "E1818");
    assert_eq!(e.message, "in-memory schema for `x.csv` was not provided");
    let e = io.read_path_bytes("x.csv").expect_err("missing");
    assert_eq!(e.message, "in-memory bytes for `x.csv` were not provided");
    let e = io.read_stdin_bytes().expect_err("missing");
    assert_eq!(e.code.as_str(), "E1806");
    let e = io.path_metadata("x.csv").expect_err("missing");
    assert_eq!(e.message, "in-memory metadata for `x.csv` was not provided");
}

#[test]
fn in_memory_io_replaces_earlier_entries() {
    let io = InMemoryDriverIo::default()
        .with_source("m.pdl", "old")
        .with_source("m.pdl", "new");
    assert_eq!(io.read_source("m.pdl").expect("source"), "new");
}

#[test]
fn in_memory_facts_read_after_write() {
    let facts = InMemoryFacts::default()
        .with_schema("a.csv", vec!["x".to_string()])
        .with_schema("b.csv", vec!["y".to_string()])
        .with_schema("a.csv", vec!["z".to_string()]);
    assert_eq!(facts.schema_for_path("a.csv"), Some(vec!["z".to_string()]));
    assert_eq!(facts.clone().schema_for_path("b.csv"), Some(vec!["y".to_string()]));
    assert_eq!(facts.schema_for_path("c.csv"), None);
}

#[test]
fn report_keeps_phase_order() {
    let mut report = PreparationReport::default();
    let parse = Diagnostic::error(codes::E0001(), "expected `|` before stage", Span::new(0, 1));
    let schema = Diagnostic::error(codes::E1818(), "missing", Span::zero());
    report.extend(ReportPhase::Parse, vec![parse.clone()]);
    report.push(ReportPhase::SchemaFacts, schema.clone());
    report.extend(ReportPhase::Semantic, vec![]);
    assert_eq!(report.diagnostics[0].phase, ReportPhase::Parse);
    assert_eq!(report.diagnostics[1].phase, ReportPhase::SchemaFacts);
    assert_eq!(report.diagnostics(), vec![parse, schema]);
}

#[test]
fn origins_name_their_input() {
    assert_eq!(SourceOrigin::path("a.pdl").input, SourceInput::Path("a.pdl".to_string()));
    assert_eq!(SourceOrigin::inline("cell").input, SourceInput::Inline { label: "cell".to_string() });
    assert_eq!(SourceOrigin::stdin().input, SourceInput::Stdin);
}

#[test]
fn recoverable_parse_errors_allow_follow_up() {
    let recoverable = Diagnostic::error(codes::E0001(), "expected operator in filter expression", Span::zero());
    let aggregate = Diagnostic::error(codes::E1213(), "aggregate items require `as`", Span::zero());
    let fatal = Diagnostic::error(codes::E0001(), "unexpected token", Span::zero());
    assert!(parse_errors_allow_semantic_followup(&[recoverable.clone(), aggregate]));
    assert!(!parse_errors_allow_semantic_followup(&[recoverable, fatal]));
    assert!(parse_errors_allow_semantic_followup(&[]));
}

#[test]
fn input_formats_resolve_in_priority_order() {
    let span = Span::new(3, 4);
    assert_eq!(resolve_input_format(Some(("parquet", span)), Some("csv"), None, None, span).ok(), Some(DataFormat::Parquet));
    let e = resolve_input_format(Some(("xls", Span::new(9, 12))), None, None, None, span).expect_err("bad");
    assert_eq!(e.code.as_str(), "E1215");
    assert_eq!(e.message, "format `xls` is not supported in 0.23.0");
    assert_eq!(e.span, Span::new(9, 12));
    assert_eq!(resolve_input_format(None, Some("ndjson"), Some(DataFormat::Csv), None, span).ok(), Some(DataFormat::JsonLines));
    assert_eq!(resolve_input_format(None, None, Some(DataFormat::ArrowFile), Some(b"x"), span).ok(), Some(DataFormat::ArrowFile));
    assert_eq!(resolve_input_format(None, None, None, Some(b"[1]"), span).ok(), Some(DataFormat::JsonLines));
    assert_eq!(resolve_input_format(None, None, None, None, span).ok(), Some(DataFormat::Csv));
}

fn stdin_pipeline(format: Option<&str>, at: Span) -> PipelineShape {
    PipelineShape {
        label: PipelineLabel::Main,
        load: Some(LoadStage {
            source: LoadFrom::Stdin(Span::new(5, 10)),
            format: format.map(|value| FormatName { value: value.to_string(), span: at }),
            span: Span::new(0, 10),
        }),
        saves: vec![],
    }
}

#[test]
fn stdin_formats_are_checked_before_reading() {
    let at = Span::new(20, 27);
    let conflicts = stdin_pre_read_diagnostics(&[stdin_pipeline(Some("jsonl"), at)], &Some("csv".to_string()));
    assert_eq!(conflicts.len(), 1);
    assert_eq!(conflicts[0].code.as_str(), "E1217");
    assert_eq!(conflicts[0].message, "load stdin format `jsonl` conflicts with --stdin-format `csv`");
    assert_eq!(conflicts[0].span, at);

    let bad_cli = stdin_pre_read_diagnostics(&[stdin_pipeline(Some("xls"), at)], &Some("tsv".to_string()));
    assert_eq!(bad_cli.len(), 1);
    assert_eq!(bad_cli[0].message, "stdin format `tsv` is not supported in 0.23.0");

    let bad_load = stdin_pre_read_diagnostics(&[stdin_pipeline(Some("xls"), at)], &None);
    assert_eq!(bad_load[0].message, "format `xls` is not supported in 0.23.0");

    assert!(stdin_pre_read_diagnostics(&[stdin_pipeline(Some("ndjson"), at)], &Some("jsonl".to_string())).is_empty());
}

#[test]
fn stdin_is_read_only_when_asked_needed_and_unblocked() {
    let pipelines = vec![stdin_pipeline(None, Span::zero())];
    let plan = DriverPlan::build("m.pdl", SourceOrigin::path("m.pdl"), &pipelines);
    let mut options = PrepareOptions::default();
    assert!(!stdin_read_needed(&options, &plan, &[]));
    options.read_stdin = true;
    assert!(stdin_read_needed(&options, &plan, &[]));
    let blocked = Diagnostic::error(codes::E1217(), "conflict", Span::zero());
    assert!(!stdin_read_needed(&options, &plan, &[blocked]));
    let empty = DriverPlan::build("m.pdl", SourceOrigin::path("m.pdl"), &[]);
    assert!(!stdin_read_needed(&options, &empty, &[]));
}

#[test]
fn schema_hints_collect_unique_columns() {
    let mut columns = vec!["a".to_string()];
    push_unique(&mut columns, "b");
    push_unique(&mut columns, "a");
    push_unique(&mut columns, "b");
    assert_eq!(columns, vec!["a".to_string(), "b".to_string()]);
    assert_eq!(span_key(Span::new(3, 9)), (3, 9));
}
