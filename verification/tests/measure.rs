use pdl::bench::{large_workloads, BenchmarkEngine, BuildProfile, RecordContext, Tier};
use pdl::json::JsonNode;
use pdl::measure::{
    command_text, cpu_model_text, environment_text, failure_record, git_ref_text, measured_samples,
    plan_facts_from_json, run_paths, sample_outcome, text_lines,
    sample_stats, summarize_workload, PlanFacts, RunContext, SampleOutcome, SampleStats,
    SystemMetadata,
};

fn run_context() -> RunContext {
    RunContext {
        record: RecordContext {
            run_label: "nightly".to_string(),
            tier: Tier::Smoke,
            engine: BenchmarkEngine::Row,
            input_rows: 1000,
            run_timestamp: "2025-01-01T00:00:00Z".to_string(),
            git_ref: "abc123".to_string(),
        },
        root: "/repo".to_string(),
        run_dir: "/repo/bench/runs/nightly".to_string(),
        profile: BuildProfile::Release,
        samples: 3,
        warmups: 2,
        metadata: SystemMetadata {
            os: "Linux".to_string(),
            cpu_model: "cpu".to_string(),
            logical_cores: "8".to_string(),
            rustc: "rustc 1.0".to_string(),
            build_profile: "release".to_string(),
            git_dirty: "false".to_string(),
            feature_flags: "default".to_string(),
        },
    }
}

fn sample(elapsed_ms: u128, output_path: &str, peak: Option<u64>, unsupported: bool, failed: bool) -> SampleOutcome {
    SampleOutcome {
        elapsed_ms,
        output_bytes: elapsed_ms as u64 * 10,
        output_rows: format!("{}", elapsed_ms / 10),
        peak_rss_bytes: peak,
        unsupported,
        failed,
        output_path: output_path.to_string(),
        log_path: format!("{output_path}.log"),
    }
}

fn text(s: &str) -> JsonNode {
    JsonNode::Text(s.to_string())
}

fn object(entries: Vec<(&str, JsonNode)>) -> JsonNode {
    JsonNode::Object(entries.into_iter().map(|(key, value)| (key.to_string(), value)).collect())
}

#[test]
fn sample_stats_are_order_statistics_of_the_sorted_samples() {
    assert_eq!(
        sample_stats(&[5, 1, 9, 3]),
        SampleStats { min_ms: 1, median_ms: 5, p90_ms: 9, max_ms: 9, count: 4 }
    );
    let ten: Vec<u128> = (1..=10).rev().collect();
    assert_eq!(
        sample_stats(&ten),
        SampleStats { min_ms: 1, median_ms: 6, p90_ms: 10, max_ms: 10, count: 10 }
    );
    let eleven: Vec<u128> = (0..11).map(|v| v * 10).collect();
    assert_eq!(sample_stats(&eleven).p90_ms, 90);
    assert_eq!(
        sample_stats(&[7]),
        SampleStats { min_ms: 7, median_ms: 7, p90_ms: 7, max_ms: 7, count: 1 }
    );
}

#[test]
fn sample_stats_of_no_samples_are_zero() {
    assert_eq!(
        sample_stats(&[]),
        SampleStats { min_ms: 0, median_ms: 0, p90_ms: 0, max_ms: 0, count: 0 }
    );
}

#[test]
fn plan_facts_are_read_from_the_observability_object() {
    let plan = object(vec![(
        "execution",
        object(vec![(
            "observability",
            object(vec![
                ("selected_engine", text("native")),
                ("eligible_engine", text("native")),
                ("fallback_reason", JsonNode::Null),
                ("sink_strategy", text("stream")),
                ("row_materialization", JsonNode::Bool(true)),
                (
                    "required_source_columns",
                    JsonNode::Array(vec![text("a"), JsonNode::Number(Some(1)), text("b")]),
                ),
            ]),
        )]),
    )]);
    let facts = plan_facts_from_json(&plan);
    assert_eq!(facts.selected_engine, "native");
    assert_eq!(facts.eligible_engine, "native");
    assert_eq!(facts.fallback_reason, "");
    assert_eq!(facts.sink_strategy, "stream");
    assert_eq!(facts.source_boundary, "");
    assert_eq!(facts.row_materialization, "true");
    assert_eq!(facts.required_source_columns, "a|b");
}

#[test]
fn plan_without_observability_has_empty_facts() {
    let plan = object(vec![("execution", JsonNode::Array(Vec::new()))]);
    assert_eq!(plan_facts_from_json(&plan), PlanFacts::default());
    assert_eq!(plan_facts_from_json(&JsonNode::Null), PlanFacts::default());
}

#[test]
fn failure_record_fills_every_report_column() {
    let workloads = large_workloads();
    let row = failure_record(&run_context(), &workloads[0], "missing bench/data/generated/million-row.csv");
    assert_eq!(row.len(), 50);
    assert_eq!(row[10], "failed");
    assert_eq!(row[11], "");
    assert_eq!(row[13], "bench/runs/nightly/million_row_segment_summary-row-csv.log");
    assert_eq!(row[18], "0");
    assert_eq!(row[21], "missing bench/data/generated/million-row.csv");
    assert_eq!(&row[22..32], &["0", "2", "0", "0", "0", "0", "0.000", "1", "0", ""]);
    assert!(row[32..43].iter().all(String::is_empty));
    assert_eq!(&row[43..50], &["Linux", "cpu", "8", "rustc 1.0", "release", "false", "default"]);
}

#[test]
fn workload_summary_takes_outputs_from_the_first_measured_sample() {
    let workloads = large_workloads();
    let samples = vec![
        sample(50, "/repo/out/skipped.csv", Some(900), true, false),
        sample(20, "/repo/out/a.csv", Some(500), false, false),
        sample(10, "/repo/out/b.csv", Some(700), false, false),
    ];
    assert_eq!(measured_samples(&samples), vec![20, 10]);
    let facts = PlanFacts { selected_engine: "row".to_string(), ..PlanFacts::default() };
    let run = summarize_workload(&run_context(), &workloads[0], &samples, &facts, "5.000");
    assert!(!run.failed);
    let row = run.record;
    assert_eq!(row.len(), 50);
    assert_eq!(row[10], "ok");
    assert_eq!(
        row[11],
        "target/release/pdl run bench/workloads/large/million_row_segment_summary.pdl --stdout-format csv --engine row"
    );
    assert_eq!(row[12], "out/a.csv");
    assert_eq!(row[13], "out/a.csv.log");
    assert_eq!(row[15], "2");
    assert_eq!(row[17], "200");
    assert_eq!(row[18], "20");
    assert_eq!(row[21], "native unsupported");
    assert_eq!(&row[22..32], &["2", "2", "10", "20", "20", "20", "5.000", "0", "1", "900"]);
    assert_eq!(row[33], "row");
}

#[test]
fn workload_summary_status_follows_failed_and_unsupported_samples() {
    let workloads = large_workloads();
    let failed = vec![sample(20, "/repo/a", None, false, false), sample(30, "/repo/b", None, false, true)];
    let run = summarize_workload(&run_context(), &workloads[0], &failed, &PlanFacts::default(), "0.000");
    assert!(run.failed);
    assert_eq!(run.record[10], "failed");
    assert_eq!(run.record[21], "row");
    assert_eq!(run.record[31], "");
    let unsupported = vec![sample(20, "/repo/a", None, true, false), sample(30, "/repo/b", None, true, false)];
    let run = summarize_workload(&run_context(), &workloads[0], &unsupported, &PlanFacts::default(), "0.000");
    assert!(!run.failed);
    assert_eq!(run.record[10], "unsupported");
    assert_eq!(run.record[12], "a");
    assert_eq!(run.record[18], "0");
    assert_eq!(run.record[22], "0");
}

#[test]
fn command_text_names_stdin_and_stdout_format() {
    let workloads = large_workloads();
    let context = run_context();
    for workload in &workloads {
        let text = command_text(&context, workload);
        assert!(text.starts_with("target/release/pdl run "), "{text}");
        assert_eq!(text.contains(" --stdout-format "), workload.output_format != "multi-csv");
        assert_eq!(text.contains(" < "), workload.stdin_path.is_some());
    }
}

#[test]
fn run_paths_number_warmups_and_samples_from_one() {
    let workloads = large_workloads();
    let context = run_context();
    assert_eq!(
        run_paths(&context, &workloads[0], 0, true),
        (
            "/repo/bench/runs/nightly/million_row_segment_summary-row-csv-warmup01.csv".to_string(),
            "/repo/bench/runs/nightly/million_row_segment_summary-row-csv-warmup01.log".to_string()
        )
    );
    let (output, log) = run_paths(&context, &workloads[0], 11, false);
    assert!(output.ends_with("-sample12.csv"), "{output}");
    assert!(log.ends_with("-sample12.log"), "{log}");
    let once = RunContext { samples: 1, warmups: 0, ..run_context() };
    let (output, _) = run_paths(&once, &workloads[0], 0, false);
    assert_eq!(output, "/repo/bench/runs/nightly/million_row_segment_summary-row-csv.csv");
}

#[test]
fn sample_outcome_tells_unsupported_from_failed_runs() {
    let workloads = large_workloads();
    let row_engine = run_context();
    let log = "Maximum resident set size (kbytes): 2048\n";
    let ok = sample_outcome(
        &row_engine,
        &workloads[0],
        "/repo/bench/runs/nightly/a.csv",
        "/repo/bench/runs/nightly/a.log",
        42,
        true,
        1234,
        Some(17),
        log,
        false,
    );
    assert_eq!(ok.output_rows, "17");
    assert_eq!(ok.peak_rss_bytes, Some(2048 * 1024));
    assert!(!ok.failed && !ok.unsupported);
    assert_eq!(ok.output_path, "bench/runs/nightly/a.csv");
    assert_eq!(ok.log_path, "bench/runs/nightly/a.log");
    let failed = sample_outcome(&row_engine, &workloads[0], "a", "b", 1, false, 0, Some(3), "error[E1211]", false);
    assert!(failed.failed && !failed.unsupported);
    assert_eq!(failed.output_rows, "");
    let mut native = run_context();
    native.record.engine = BenchmarkEngine::Native;
    let refused = sample_outcome(&native, &workloads[0], "a", "b", 1, false, 0, None, "error[E1211]: no", false);
    assert!(refused.unsupported && !refused.failed);
}

#[test]
fn text_lines_split_like_str_lines() {
    for text in ["", "a", "a\n", "a\r\nb", "\n\n", "a\rb\r", "x\r\n\r\ny\n"] {
        let expected: Vec<String> = text.lines().map(String::from).collect();
        assert_eq!(text_lines(text), expected, "{text:?}");
    }
}

#[test]
fn git_ref_is_trimmed_or_unknown() {
    assert_eq!(git_ref_text(Some("v0.3.0-12-gabc\n")), "v0.3.0-12-gabc");
    assert_eq!(git_ref_text(Some("  \n")), "unknown");
    assert_eq!(git_ref_text(None), "unknown");
}

#[test]
fn cpu_model_prefers_sysctl_then_cpuinfo() {
    assert_eq!(cpu_model_text(Some("Apple M2\n"), None), "Apple M2");
    assert_eq!(cpu_model_text(Some("unknown"), None), "unknown");
    let cpuinfo = "processor\t: 0\nvendor_id\t: GenuineIntel\nmodel name\t: Intel(R) Xeon(R) CPU @ 2.20GHz\r\nmodel name\t: other\n";
    assert_eq!(cpu_model_text(None, Some(cpuinfo)), "Intel(R) Xeon(R) CPU @ 2.20GHz");
    assert_eq!(cpu_model_text(Some(" "), Some(cpuinfo)), "Intel(R) Xeon(R) CPU @ 2.20GHz");
    assert_eq!(cpu_model_text(None, Some("model name without colon\n")), "unknown");
    assert_eq!(cpu_model_text(None, Some("")), "unknown");
    assert_eq!(cpu_model_text(None, None), "unknown");
}

#[test]
fn system_metadata_trims_command_outputs() {
    let metadata = SystemMetadata::from_outputs("Linux box 6.1\n", "cpu".to_string(), Some(8), "rustc 1.80.0\n", BuildProfile::Debug, " M src/lib.rs\n");
    assert_eq!(metadata.os, "Linux box 6.1");
    assert_eq!(metadata.logical_cores, "8");
    assert_eq!(metadata.rustc, "rustc 1.80.0");
    assert_eq!(metadata.build_profile, "debug");
    assert_eq!(metadata.git_dirty, "true");
    assert_eq!(metadata.feature_flags, "default");
    let clean = SystemMetadata::from_outputs("unknown", "cpu".to_string(), None, "unknown", BuildProfile::Release, "\n");
    assert_eq!(clean.logical_cores, "unknown");
    assert_eq!(clean.git_dirty, "false");
}

#[test]
fn environment_file_lists_the_snapshot_context() {
    let text = environment_text(
        "pdl",
        "nightly",
        "v1",
        "2025-01-01T00:00:00Z",
        "bench/runs/nightly/report.csv",
        "v0.3.0",
        " M a.rs\n?? b.rs\n",
        "Linux\n",
        "rustc 1.80.0\n",
        "cargo 1.80.0\n",
    );
    assert_eq!(
        text,
        "repo: pdl\nbaseline: v1\nrun_label: nightly\nsnapshot_timestamp_utc: 2025-01-01T00:00:00Z\n\
source_report: bench/runs/nightly/report.csv\ngit_ref: v0.3.0\ngit_status_short:\n   M a.rs\n  ?? b.rs\n\
system: Linux\nrustc: rustc 1.80.0\ncargo: cargo 1.80.0\n\
run_command: cargo run -p pdl-bench -- run --suite large --run-label nightly\n"
    );
    let clean = environment_text("pdl", "r", "b", "t", "s", "g", "  ", "u", "r", "c");
    assert!(clean.contains("git_status_short:\n  clean\nsystem: u\n"), "{clean}");
}

#[test]
fn csv_data_rows_leave_out_the_header() {
    assert_eq!(pdl::measure::csv_data_rows("a,b\n1,2\n3,4\n"), 2);
    assert_eq!(pdl::measure::csv_data_rows("a,b\r\n1,2"), 1);
    assert_eq!(pdl::measure::csv_data_rows("a,b\n"), 0);
    assert_eq!(pdl::measure::csv_data_rows(""), 0);
}
