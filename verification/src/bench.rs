//! The benchmark harness's fixed data and pure helpers: tiers, build
//! profiles, engines, the workload table, output extensions, run labels,
//! the deterministic workload shuffle and peak-memory parsing.
use vstd::prelude::*;

use crate::readers::trim_spec;
use crate::text::{chars_of, copy_str, decimal, push_char};

verus! {

/// How many rows a benchmark run generates.
#[derive(Clone, Copy, Debug, Eq, PartialEq, Structural)]
pub enum Tier {
    Smoke,
    Local,
    Stress,
}

impl Tier {
    pub fn as_str(self) -> (r: &'static str)
        ensures
            r@ == (match self {
                Tier::Smoke => "smoke"@,
                Tier::Local => "local"@,
                Tier::Stress => "stress"@,
            }),
    {
        match self {
            Tier::Smoke => "smoke",
            Tier::Local => "local",
            Tier::Stress => "stress",
        }
    }

    /// The number of generated rows.
    pub fn rows(self) -> (r: usize)
        ensures
            r == (match self {
                Tier::Smoke => 1_000usize,
                Tier::Local => 100_000usize,
                Tier::Stress => 1_000_000usize,
            }),
    {
        match self {
            Tier::Smoke => 1_000,
            Tier::Local => 100_000,
            Tier::Stress => 1_000_000,
        }
    }
}

/// The cargo profile the benchmarked binary is built with.
#[derive(Clone, Copy, Debug, Eq, PartialEq, Structural)]
pub enum BuildProfile {
    Debug,
    Release,
}

impl BuildProfile {
    /// The target directory of the profile.
    pub fn dir(self) -> (r: &'static str)
        ensures
            r@ == (match self {
                BuildProfile::Debug => "debug"@,
                BuildProfile::Release => "release"@,
            }),
    {
        match self {
            BuildProfile::Debug => "debug",
            BuildProfile::Release => "release",
        }
    }
}

/// The engine a benchmark run asks for.
#[derive(Clone, Copy, Debug, Eq, PartialEq, Structural)]
pub enum BenchmarkEngine {
    Auto,
    Row,
    Native,
}

impl BenchmarkEngine {
    pub fn as_str(self) -> (r: &'static str)
        ensures
            r@ == (match self {
                BenchmarkEngine::Auto => "auto"@,
                BenchmarkEngine::Row => "row"@,
                BenchmarkEngine::Native => "native"@,
            }),
    {
        match self {
            BenchmarkEngine::Auto => "auto",
            BenchmarkEngine::Row => "row",
            BenchmarkEngine::Native => "native",
        }
    }
}

/// One benchmark workload: a program, the data it needs and its formats.
#[derive(Clone, Copy, Debug, Eq, PartialEq)]
pub struct Workload {
    pub name: &'static str,
    pub program: &'static str,
    pub dataset: &'static str,
    pub input_format: &'static str,
    pub output_format: &'static str,
    pub required_path: &'static str,
    /// When set, this file is fed to the pdl process on stdin.
    pub stdin_path: Option<&'static str>,
}

pub type WorkloadV = (Seq<char>, Seq<char>, Seq<char>, Seq<char>, Seq<char>, Seq<char>, Option<Seq<char>>);

pub open spec fn workload_view(w: Workload) -> WorkloadV {
    (
        w.name@,
        w.program@,
        w.dataset@,
        w.input_format@,
        w.output_format@,
        w.required_path@,
        match w.stdin_path {
            Some(p) => Some(p@),
            None => None,
        },
    )
}

impl Workload {
    /// The format the workload writes to stdout: its output format, except
    /// for multi-output workloads, which write files only.
    pub fn stdout_format(&self) -> (r: Option<&'static str>)
        ensures
            match r {
                Some(f) => self.output_format@ != "multi-csv"@ && f@ == self.output_format@,
                None => self.output_format@ == "multi-csv"@,
            },
    {
        if crate::text::str_eq(self.output_format, "multi-csv") {
            None
        } else {
            Some(self.output_format)
        }
    }
}

/// The large-tier workloads, in table order.
pub open spec fn large_workload_table() -> Seq<WorkloadV> {
    seq![
        ("million_row_segment_summary"@, "bench/workloads/large/million_row_segment_summary.pdl"@, "million-row"@, "csv"@, "csv"@, "bench/data/generated/million-row.csv"@, None),
        ("million_row_segment_summary_parquet"@, "bench/workloads/large/million_row_segment_summary_parquet.pdl"@, "million-row"@, "parquet"@, "csv"@, "bench/data/generated/million-row.parquet"@, None),
        ("million_row_segment_summary_arrow_stream"@, "bench/workloads/large/million_row_segment_summary_arrow_stream.pdl"@, "million-row"@, "arrow-stream"@, "csv"@, "bench/data/generated/million-row.arrow"@, None),
        ("million_row_segment_summary"@, "bench/workloads/large/million_row_segment_summary.pdl"@, "million-row"@, "csv"@, "arrow-stream"@, "bench/data/generated/million-row.csv"@, None),
        ("million_row_mutate_csv"@, "bench/workloads/large/million_row_mutate_csv.pdl"@, "million-row"@, "csv"@, "csv"@, "bench/data/generated/million-row.csv"@, None),
        ("million_row_mutate_parquet"@, "bench/workloads/large/million_row_mutate_parquet.pdl"@, "million-row"@, "parquet"@, "csv"@, "bench/data/generated/million-row.parquet"@, None),
        ("million_row_mutate_arrow_stream"@, "bench/workloads/large/million_row_mutate_arrow_stream.pdl"@, "million-row"@, "arrow-stream"@, "csv"@, "bench/data/generated/million-row.arrow"@, None),
        ("million_row_mutate_csv"@, "bench/workloads/large/million_row_mutate_csv.pdl"@, "million-row"@, "csv"@, "arrow-stream"@, "bench/data/generated/million-row.csv"@, None),
        ("million_row_mutate_csv_stdin"@, "bench/workloads/large/million_row_mutate_csv_stdin.pdl"@, "million-row"@, "csv"@, "csv"@, "bench/data/generated/million-row.csv"@, Some("bench/data/generated/million-row.csv"@)),
        ("million_row_top_scores"@, "bench/workloads/large/million_row_top_scores.pdl"@, "million-row"@, "csv"@, "csv"@, "bench/data/generated/million-row.csv"@, None),
        ("million_row_projection_smoke"@, "bench/workloads/large/million_row_projection_smoke.pdl"@, "million-row"@, "csv"@, "csv"@, "bench/data/generated/million-row.csv"@, None),
        ("million_row_distinct_segments"@, "bench/workloads/large/million_row_distinct_segments.pdl"@, "million-row"@, "csv"@, "csv"@, "bench/data/generated/million-row.csv"@, None),
        ("million_row_join_dimension"@, "bench/workloads/large/million_row_join_dimension.pdl"@, "million-row"@, "csv"@, "csv"@, "bench/data/generated/segment-dimension.csv"@, None),
        ("million_row_composite_join_rollup"@, "bench/workloads/large/million_row_composite_join_rollup.pdl"@, "million-row"@, "csv"@, "csv"@, "bench/data/generated/million-row.csv"@, None),
        ("million_row_composite_join_lookup"@, "bench/workloads/large/million_row_composite_join_lookup.pdl"@, "million-row"@, "csv"@, "csv"@, "bench/data/generated/million-row.csv"@, None),
        ("million_row_union_partitions"@, "bench/workloads/large/million_row_union_partitions.pdl"@, "million-row"@, "csv"@, "csv"@, "bench/data/generated/million-row-part-a.csv"@, None),
        ("million_row_union_null_padding"@, "bench/workloads/large/million_row_union_null_padding.pdl"@, "million-row"@, "csv"@, "csv"@, "bench/data/generated/million-row-narrow.csv"@, None),
        ("windowed_sales_rank"@, "bench/workloads/large/windowed_sales_rank.pdl"@, "million-row"@, "csv"@, "csv"@, "bench/data/generated/million-row.csv"@, None),
        ("million_row_window_running"@, "bench/workloads/large/million_row_window_running.pdl"@, "million-row"@, "csv"@, "csv"@, "bench/data/generated/million-row.csv"@, None),
        ("million_row_window_offsets_values"@, "bench/workloads/large/million_row_window_offsets_values.pdl"@, "million-row"@, "csv"@, "csv"@, "bench/data/generated/million-row.csv"@, None),
        ("million_row_dynamic_window_offsets"@, "bench/workloads/large/million_row_dynamic_window_offsets.pdl"@, "million-row-events"@, "csv"@, "csv"@, "bench/data/generated/million-row-events.csv"@, None),
        ("pdl_to_algraf_arrow_handoff"@, "bench/workloads/large/pdl_to_algraf_arrow_handoff.pdl"@, "million-row"@, "csv"@, "arrow-stream"@, "bench/data/generated/million-row.csv"@, None),
        ("million_row_temporal_buckets"@, "bench/workloads/large/million_row_temporal_buckets.pdl"@, "million-row-events"@, "csv"@, "csv"@, "bench/data/generated/million-row-events.csv"@, None),
        ("million_row_jsonl_temporal_buckets"@, "bench/workloads/large/million_row_jsonl_temporal_buckets.pdl"@, "million-row-events"@, "jsonl"@, "csv"@, "bench/data/generated/million-row-events.jsonl"@, None),
        ("million_row_dynamic_text_and_col"@, "bench/workloads/large/million_row_dynamic_text_and_col.pdl"@, "million-row-events"@, "csv"@, "csv"@, "bench/data/generated/million-row-events.csv"@, None),
        ("million_row_text_emission"@, "bench/workloads/large/million_row_text_emission.pdl"@, "million-row"@, "csv"@, "csv"@, "bench/data/generated/million-row.csv"@, None),
        ("million_row_text_emission"@, "bench/workloads/large/million_row_text_emission.pdl"@, "million-row"@, "csv"@, "jsonl"@, "bench/data/generated/million-row.csv"@, None),
        ("million_row_pivot_longer"@, "bench/workloads/large/million_row_pivot_longer.pdl"@, "million-row"@, "csv"@, "csv"@, "bench/data/generated/million-row.csv"@, None),
        ("million_row_complete_buckets"@, "bench/workloads/large/million_row_complete_buckets.pdl"@, "million-row"@, "csv"@, "csv"@, "bench/data/generated/million-row.csv"@, None),
        ("million_row_multi_output_fanout"@, "bench/workloads/large/million_row_multi_output_fanout.pdl"@, "million-row"@, "csv"@, "multi-csv"@, "bench/data/generated/million-row.csv"@, None),
    ]
}

/// The large-tier workloads.
#[verifier::rlimit(60)]
pub fn large_workloads() -> (r: Vec<Workload>)
    ensures
        r@.map_values(|w: Workload| workload_view(w)) == large_workload_table(),
{
    let mut v: Vec<Workload> = Vec::new();
    v.push(
        Workload {
            name: "million_row_segment_summary",
            program: "bench/workloads/large/million_row_segment_summary.pdl",
            dataset: "million-row",
            input_format: "csv",
            output_format: "csv",
            required_path: "bench/data/generated/million-row.csv",
            stdin_path: None,
        },
    );
    v.push(
        Workload {
            name: "million_row_segment_summary_parquet",
            program: "bench/workloads/large/million_row_segment_summary_parquet.pdl",
            dataset: "million-row",
            input_format: "parquet",
            output_format: "csv",
            required_path: "bench/data/generated/million-row.parquet",
            stdin_path: None,
        },
    );
    v.push(
        Workload {
            name: "million_row_segment_summary_arrow_stream",
            program: "bench/workloads/large/million_row_segment_summary_arrow_stream.pdl",
            dataset: "million-row",
            input_format: "arrow-stream",
            output_format: "csv",
            required_path: "bench/data/generated/million-row.arrow",
            stdin_path: None,
        },
    );
    v.push(
        Workload {
            name: "million_row_segment_summary",
            program: "bench/workloads/large/million_row_segment_summary.pdl",
            dataset: "million-row",
            input_format: "csv",
            output_format: "arrow-stream",
            required_path: "bench/data/generated/million-row.csv",
            stdin_path: None,
        },
    );
    v.push(
        Workload {
            name: "million_row_mutate_csv",
            program: "bench/workloads/large/million_row_mutate_csv.pdl",
            dataset: "million-row",
            input_format: "csv",
            output_format: "csv",
            required_path: "bench/data/generated/million-row.csv",
            stdin_path: None,
        },
    );
    v.push(
        Workload {
            name: "million_row_mutate_parquet",
            program: "bench/workloads/large/million_row_mutate_parquet.pdl",
            dataset: "million-row",
            input_format: "parquet",
            output_format: "csv",
            required_path: "bench/data/generated/million-row.parquet",
            stdin_path: None,
        },
    );
    v.push(
        Workload {
            name: "million_row_mutate_arrow_stream",
            program: "bench/workloads/large/million_row_mutate_arrow_stream.pdl",
            dataset: "million-row",
            input_format: "arrow-stream",
            output_format: "csv",
            required_path: "bench/data/generated/million-row.arrow",
            stdin_path: None,
        },
    );
    v.push(
        Workload {
            name: "million_row_mutate_csv",
            program: "bench/workloads/large/million_row_mutate_csv.pdl",
            dataset: "million-row",
            input_format: "csv",
            output_format: "arrow-stream",
            required_path: "bench/data/generated/million-row.csv",
            stdin_path: None,
        },
    );
    v.push(
        Workload {
            name: "million_row_mutate_csv_stdin",
            program: "bench/workloads/large/million_row_mutate_csv_stdin.pdl",
            dataset: "million-row",
            input_format: "csv",
            output_format: "csv",
            required_path: "bench/data/generated/million-row.csv",
            stdin_path: Some("bench/data/generated/million-row.csv"),
        },
    );
    v.push(
        Workload {
            name: "million_row_top_scores",
            program: "bench/workloads/large/million_row_top_scores.pdl",
            dataset: "million-row",
            input_format: "csv",
            output_format: "csv",
            required_path: "bench/data/generated/million-row.csv",
            stdin_path: None,
        },
    );
    v.push(
        Workload {
            name: "million_row_projection_smoke",
            program: "bench/workloads/large/million_row_projection_smoke.pdl",
            dataset: "million-row",
            input_format: "csv",
            output_format: "csv",
            required_path: "bench/data/generated/million-row.csv",
            stdin_path: None,
        },
    );
    v.push(
        Workload {
            name: "million_row_distinct_segments",
            program: "bench/workloads/large/million_row_distinct_segments.pdl",
            dataset: "million-row",
            input_format: "csv",
            output_format: "csv",
            required_path: "bench/data/generated/million-row.csv",
            stdin_path: None,
        },
    );
    v.push(
        Workload {
            name: "million_row_join_dimension",
            program: "bench/workloads/large/million_row_join_dimension.pdl",
            dataset: "million-row",
            input_format: "csv",
            output_format: "csv",
            required_path: "bench/data/generated/segment-dimension.csv",
            stdin_path: None,
        },
    );
    v.push(
        Workload {
            name: "million_row_composite_join_rollup",
            program: "bench/workloads/large/million_row_composite_join_rollup.pdl",
            dataset: "million-row",
            input_format: "csv",
            output_format: "csv",
            required_path: "bench/data/generated/million-row.csv",
            stdin_path: None,
        },
    );
    v.push(
        Workload {
            name: "million_row_composite_join_lookup",
            program: "bench/workloads/large/million_row_composite_join_lookup.pdl",
            dataset: "million-row",
            input_format: "csv",
            output_format: "csv",
            required_path: "bench/data/generated/million-row.csv",
            stdin_path: None,
        },
    );
    v.push(
        Workload {
            name: "million_row_union_partitions",
            program: "bench/workloads/large/million_row_union_partitions.pdl",
            dataset: "million-row",
            input_format: "csv",
            output_format: "csv",
            required_path: "bench/data/generated/million-row-part-a.csv",
            stdin_path: None,
        },
    );
    v.push(
        Workload {
            name: "million_row_union_null_padding",
            program: "bench/workloads/large/million_row_union_null_padding.pdl",
            dataset: "million-row",
            input_format: "csv",
            output_format: "csv",
            required_path: "bench/data/generated/million-row-narrow.csv",
            stdin_path: None,
        },
    );
    v.push(
        Workload {
            name: "windowed_sales_rank",
            program: "bench/workloads/large/windowed_sales_rank.pdl",
            dataset: "million-row",
            input_format: "csv",
            output_format: "csv",
            required_path: "bench/data/generated/million-row.csv",
            stdin_path: None,
        },
    );
    v.push(
        Workload {
            name: "million_row_window_running",
            program: "bench/workloads/large/million_row_window_running.pdl",
            dataset: "million-row",
            input_format: "csv",
            output_format: "csv",
            required_path: "bench/data/generated/million-row.csv",
            stdin_path: None,
        },
    );
    v.push(
        Workload {
            name: "million_row_window_offsets_values",
            program: "bench/workloads/large/million_row_window_offsets_values.pdl",
            dataset: "million-row",
            input_format: "csv",
            output_format: "csv",
            required_path: "bench/data/generated/million-row.csv",
            stdin_path: None,
        },
    );
    v.push(
        Workload {
            name: "million_row_dynamic_window_offsets",
            program: "bench/workloads/large/million_row_dynamic_window_offsets.pdl",
            dataset: "million-row-events",
            input_format: "csv",
            output_format: "csv",
            required_path: "bench/data/generated/million-row-events.csv",
            stdin_path: None,
        },
    );
    v.push(
        Workload {
            name: "pdl_to_algraf_arrow_handoff",
            program: "bench/workloads/large/pdl_to_algraf_arrow_handoff.pdl",
            dataset: "million-row",
            input_format: "csv",
            output_format: "arrow-stream",
            required_path: "bench/data/generated/million-row.csv",
            stdin_path: None,
        },
    );
    v.push(
        Workload {
            name: "million_row_temporal_buckets",
            program: "bench/workloads/large/million_row_temporal_buckets.pdl",
            dataset: "million-row-events",
            input_format: "csv",
            output_format: "csv",
            required_path: "bench/data/generated/million-row-events.csv",
            stdin_path: None,
        },
    );
    v.push(
        Workload {
            name: "million_row_jsonl_temporal_buckets",
            program: "bench/workloads/large/million_row_jsonl_temporal_buckets.pdl",
            dataset: "million-row-events",
            input_format: "jsonl",
            output_format: "csv",
            required_path: "bench/data/generated/million-row-events.jsonl",
            stdin_path: None,
        },
    );
    v.push(
        Workload {
            name: "million_row_dynamic_text_and_col",
            program: "bench/workloads/large/million_row_dynamic_text_and_col.pdl",
            dataset: "million-row-events",
            input_format: "csv",
            output_format: "csv",
            required_path: "bench/data/generated/million-row-events.csv",
            stdin_path: None,
        },
    );
    v.push(
        Workload {
            name: "million_row_text_emission",
            program: "bench/workloads/large/million_row_text_emission.pdl",
            dataset: "million-row",
            input_format: "csv",
            output_format: "csv",
            required_path: "bench/data/generated/million-row.csv",
            stdin_path: None,
        },
    );
    v.push(
        Workload {
            name: "million_row_text_emission",
            program: "bench/workloads/large/million_row_text_emission.pdl",
            dataset: "million-row",
            input_format: "csv",
            output_format: "jsonl",
            required_path: "bench/data/generated/million-row.csv",
            stdin_path: None,
        },
    );
    v.push(
        Workload {
            name: "million_row_pivot_longer",
            program: "bench/workloads/large/million_row_pivot_longer.pdl",
            dataset: "million-row",
            input_format: "csv",
            output_format: "csv",
            required_path: "bench/data/generated/million-row.csv",
            stdin_path: None,
        },
    );
    v.push(
        Workload {
            name: "million_row_complete_buckets",
            program: "bench/workloads/large/million_row_complete_buckets.pdl",
            dataset: "million-row",
            input_format: "csv",
            output_format: "csv",
            required_path: "bench/data/generated/million-row.csv",
            stdin_path: None,
        },
    );
    v.push(
        Workload {
            name: "million_row_multi_output_fanout",
            program: "bench/workloads/large/million_row_multi_output_fanout.pdl",
            dataset: "million-row",
            input_format: "csv",
            output_format: "multi-csv",
            required_path: "bench/data/generated/million-row.csv",
            stdin_path: None,
        },
    );
    assert(v@.map_values(|w: Workload| workload_view(w)) =~= large_workload_table());
    v
}

/// The file extension of a benchmark output in `format`.
pub open spec fn extension_spec(format: Seq<char>) -> Seq<char> {
    if format == "csv"@ {
        "csv"@
    } else if format == "jsonl"@ {
        "jsonl"@
    } else if format == "arrow-stream"@ || format == "arrow-file"@ {
        "arrow"@
    } else if format == "parquet"@ {
        "parquet"@
    } else {
        "out"@
    }
}

pub fn extension_for_format(format: &str) -> (r: &'static str)
    ensures
        r@ == extension_spec(format@),
{
    if crate::text::str_eq(format, "csv") {
        "csv"
    } else if crate::text::str_eq(format, "jsonl") {
        "jsonl"
    } else if crate::text::str_eq(format, "arrow-stream") || crate::text::str_eq(format, "arrow-file") {
        "arrow"
    } else if crate::text::str_eq(format, "parquet") {
        "parquet"
    } else {
        "out"
    }
}

/// Whether a run label keeps `c` as it is.
pub open spec fn label_char_kept(c: char) -> bool {
    ('a' <= c && c <= 'z') || ('A' <= c && c <= 'Z') || ('0' <= c && c <= '9') || c == '-' || c == '_'
        || c == '.'
}

/// A run label made safe for a directory name: every other character
/// becomes `-`, and an empty label becomes `run`.
pub open spec fn sanitize_spec(label: Seq<char>) -> Seq<char> {
    if label.len() == 0 {
        "run"@
    } else {
        label.map_values(|c: char| if label_char_kept(c) { c } else { '-' })
    }
}

pub fn sanitize_label(label: &str) -> (r: String)
    ensures
        r@ == sanitize_spec(label@),
{
    let cs = chars_of(label);
    if cs.len() == 0 {
        return copy_str("run");
    }
    let mut out = String::new();
    let mut i: usize = 0;
    while i < cs.len()
        invariant
            i <= cs.len(),
            cs@ == label@,
            out@ == cs@.take(i as int).map_values(|c: char| if label_char_kept(c) { c } else { '-' }),
        decreases cs.len() - i,
    {
        let c = cs[i];
        let kept = ('a' <= c && c <= 'z') || ('A' <= c && c <= 'Z') || ('0' <= c && c <= '9') || c == '-'
            || c == '_' || c == '.';
        if kept {
            push_char(&mut out, c);
        } else {
            push_char(&mut out, '-');
        }
        i += 1;
        assert(out@ =~= cs@.take(i as int).map_values(|c: char| if label_char_kept(c) { c } else { '-' }));
    }
    assert(cs@.take(cs.len() as int) =~= cs@);
    out
}


/// Sanitizing a label twice is sanitizing it once.
pub proof fn lemma_sanitize_idempotent(label: Seq<char>)
    ensures
        sanitize_spec(sanitize_spec(label)) == sanitize_spec(label),
{
    reveal_strlit("run");
    let once = sanitize_spec(label);
    assert(sanitize_spec(once) =~= once) by {
        assert forall|i: int| 0 <= i < once.len() implies label_char_kept(#[trigger] once[i]) by {
            if label.len() == 0 {
                assert(once == "run"@);
            }
        }
    }
}

// ---------------------------------------------------------------------------
// Deterministic shuffle
// ---------------------------------------------------------------------------

/// The FNV-1a-style seed of `bytes`: start from the offset basis, then for
/// each byte multiply by the prime and add the byte, wrapping.
pub open spec fn seed_of(bytes: Seq<u8>) -> u64
    decreases bytes.len(),
{
    if bytes.len() == 0 {
        0xcbf29ce484222325u64
    } else {
        seed_of(bytes.drop_last()).wrapping_mul(0x100000001b3u64).wrapping_add(bytes.last() as u64)
    }
}

/// The next state of the linear congruential generator.
pub open spec fn lcg_next(seed: u64) -> u64 {
    seed.wrapping_mul(6364136223846793005u64).wrapping_add(1u64)
}

/// Swaps the elements at `i` and `j`.
pub open spec fn swapped<T>(s: Seq<T>, i: int, j: int) -> Seq<T> {
    s.update(i, s[j]).update(j, s[i])
}

/// The Fisher-Yates passes from `index` down to 1: each draws the next
/// generator state and swaps position `index` with the state modulo
/// `index + 1`.
pub open spec fn shuffle_from<T>(s: Seq<T>, seed: u64, index: int) -> Seq<T>
    decreases index,
{
    if index <= 0 || index >= s.len() {
        s
    } else {
        let next = lcg_next(seed);
        let j = (next as usize) as int % (index + 1);
        shuffle_from(swapped(s, index, j), next, index - 1)
    }
}

/// The shuffle of `s` seeded by `seed_bytes`.
pub open spec fn shuffle_spec<T>(s: Seq<T>, seed_bytes: Seq<u8>) -> Seq<T> {
    shuffle_from(s, seed_of(seed_bytes), s.len() - 1)
}

/// Whether `p` lists each offset below `n` exactly once.
pub open spec fn is_permutation(p: Seq<int>, n: int) -> bool {
    &&& p.len() == n
    &&& forall|i: int| 0 <= i < n ==> 0 <= #[trigger] p[i] < n
    &&& forall|i: int, j: int| 0 <= i < j < n ==> p[i] != p[j]
}

proof fn lemma_swap_keeps_permutation(p: Seq<int>, n: int, i: int, j: int)
    requires
        is_permutation(p, n),
        0 <= i < n,
        0 <= j < n,
    ensures
        is_permutation(swapped(p, i, j), n),
{
    let q = swapped(p, i, j);
    assert forall|x: int, y: int| 0 <= x < y < n implies q[x] != q[y] by {
        if i == j {
        } else if x == i && y == j || x == j && y == i {
        } else if x == i || x == j {
            assert(q[y] == p[y]);
        } else if y == i || y == j {
            assert(q[x] == p[x]);
        } else {
            assert(q[x] == p[x] && q[y] == p[y]);
        }
    }
}

proof fn lemma_swap_tracks<T>(cur: Seq<T>, orig: Seq<T>, p: Seq<int>, i: int, j: int)
    requires
        cur.len() == p.len(),
        0 <= i < cur.len(),
        0 <= j < cur.len(),
        forall|x: int| 0 <= x < cur.len() ==> #[trigger] cur[x] == orig[p[x]],
    ensures
        forall|x: int| 0 <= x < cur.len() ==> #[trigger] swapped(cur, i, j)[x] == orig[swapped(p, i, j)[x]],
{
    assert forall|x: int| 0 <= x < cur.len() implies #[trigger] swapped(cur, i, j)[x] == orig[swapped(p, i, j)[x]] by {
        if x == j {
            assert(cur[i] == orig[p[i]]);
        } else if x == i {
            assert(cur[j] == orig[p[j]]);
        } else {
            assert(cur[x] == orig[p[x]]);
        }
    }
}

/// Reorders `workloads` deterministically from `seed_bytes`, so that the
/// same label always yields the same run order.
pub fn shuffle_workloads<T: Copy>(workloads: &mut Vec<T>, seed_bytes: &[u8])
    ensures
        final(workloads)@ == shuffle_spec(old(workloads)@, seed_bytes@),
        final(workloads)@.len() == old(workloads)@.len(),
        exists|p: Seq<int>|
            is_permutation(p, old(workloads)@.len() as int) && forall|i: int|
                0 <= i < old(workloads)@.len() ==> #[trigger] final(workloads)@[i] == old(workloads)@[p[i]],
{
    let ghost orig = workloads@;
    let mut seed: u64 = 0xcbf29ce484222325u64;
    let mut b: usize = 0;
    while b < seed_bytes.len()
        invariant
            b <= seed_bytes.len(),
            seed == seed_of(seed_bytes@.take(b as int)),
        decreases seed_bytes.len() - b,
    {
        assert(seed_bytes@.take(b + 1).drop_last() =~= seed_bytes@.take(b as int));
        seed = seed.wrapping_mul(0x100000001b3u64).wrapping_add(seed_bytes[b] as u64);
        b += 1;
    }
    assert(seed_bytes@.take(seed_bytes.len() as int) =~= seed_bytes@);
    let n = workloads.len();
    if n == 0 {
        proof {
            let p = Seq::<int>::empty();
            assert(is_permutation(p, 0));
        }
        return;
    }
    let mut index: usize = n - 1;
    let ghost mut perm: Seq<int> = Seq::new(n as nat, |i: int| i);
    while index >= 1
        invariant
            workloads@.len() == n,
            orig.len() == n,
            index < n,
            shuffle_from(workloads@, seed, index as int) == shuffle_spec(orig, seed_bytes@),
            is_permutation(perm, n as int),
            forall|i: int| 0 <= i < n ==> #[trigger] workloads@[i] == orig[perm[i]],
        decreases index,
    {
        seed = seed.wrapping_mul(6364136223846793005u64).wrapping_add(1);
        let j = (seed as usize) % (index + 1);
        let a = workloads[index];
        let c = workloads[j];
        let ghost before = workloads@;
        let ghost old_seed = seed;
        workloads.set(index, c);
        workloads.set(j, a);
        proof {
            assert(workloads@ =~= swapped(before, index as int, j as int));
            let old_perm = perm;
            perm = swapped(old_perm, index as int, j as int);
            lemma_swap_keeps_permutation(old_perm, n as int, index as int, j as int);
            lemma_swap_tracks(before, orig, old_perm, index as int, j as int);
        }
        index -= 1;
    }
    proof {
        assert(shuffle_from(workloads@, seed, 0) == workloads@);
    }
}

// ---------------------------------------------------------------------------
// Peak memory from `time` logs
// ---------------------------------------------------------------------------

pub open spec fn is_digit(c: char) -> bool {
    '0' <= c && c <= '9'
}

/// The value of a run of decimal digits.
pub open spec fn digits_value(ds: Seq<char>) -> nat
    decreases ds.len(),
{
    if ds.len() == 0 {
        0
    } else {
        digits_value(ds.drop_last()) * 10 + ((ds.last() as int - '0' as int) as nat)
    }
}

/// What `u64::from_str` reads: an optional `+`, then one or more decimal
/// digits whose value fits in 64 bits.
pub open spec fn parse_u64_spec(t: Seq<char>) -> Option<u64> {
    let ds = unsigned_digits(t);
    if ds.len() > 0 && all_digits(ds) && digits_value(ds) <= u64::MAX {
        Some(digits_value(ds) as u64)
    } else {
        None
    }
}

/// The text after an optional leading `+`.
pub open spec fn unsigned_digits(t: Seq<char>) -> Seq<char> {
    if t.len() > 0 && t[0] == '+' {
        t.drop_first()
    } else {
        t
    }
}

pub open spec fn all_digits(ds: Seq<char>) -> bool {
    forall|i: int| 0 <= i < ds.len() ==> is_digit(#[trigger] ds[i])
}

/// Parses a decimal `u64` as `str::parse::<u64>` does.
pub fn parse_u64_text(t: &[char]) -> (r: Option<u64>)
    ensures
        r == parse_u64_spec(t@),
{
    let start: usize = if t.len() > 0 && t[0] == '+' { 1 } else { 0 };
    let ghost ds = unsigned_digits(t@);
    assert(ds =~= t@.skip(start as int));
    if start == t.len() {
        return None;
    }
    let mut value: u64 = 0;
    let mut i: usize = start;
    while i < t.len()
        invariant
            start <= i <= t.len(),
            ds == t@.skip(start as int),
            ds == unsigned_digits(t@),
            forall|k: int| 0 <= k < i - start ==> is_digit(#[trigger] ds[k]),
            value as nat == digits_value(ds.take(i - start)),
        decreases t.len() - i,
    {
        let c = t[i];
        assert(ds[i - start] == c);
        if !('0' <= c && c <= '9') {
            assert(!is_digit(ds[(i - start) as int]));
            assert(!all_digits(ds));
            return None;
        }
        let d: u64 = (c as u32 - '0' as u32) as u64;
        assert(ds.take(i - start + 1).drop_last() =~= ds.take(i - start));
        assert(ds.take(i - start + 1).last() == c);
        assert(digits_value(ds.take(i - start + 1)) == value as nat * 10 + d as nat);
        match value.checked_mul(10) {
            None => {
                proof {
                    lemma_digits_value_prefix_bound(ds, i - start + 1);
                    if all_digits(ds) {
                        assert(digits_value(ds) > u64::MAX);
                    } else {
                        let k = choose|k: int| 0 <= k < ds.len() && !is_digit(ds[k]);
                        assert(!is_digit(ds[k]));
                    }
                }
                return None;
            },
            Some(m) => match m.checked_add(d) {
                None => {
                    proof {
                        lemma_digits_value_prefix_bound(ds, i - start + 1);
                        if all_digits(ds) {
                            assert(digits_value(ds) > u64::MAX);
                        } else {
                            let k = choose|k: int| 0 <= k < ds.len() && !is_digit(ds[k]);
                            assert(!is_digit(ds[k]));
                        }
                    }
                    return None;
                },
                Some(v) => {
                    value = v;
                },
            },
        }
        i += 1;
    }
    assert(ds.take(t.len() - start) =~= ds);
    Some(value)
}

/// What `u128::from_str` reads: an optional `+`, then one or more decimal
/// digits whose value fits in 128 bits.
pub open spec fn parse_u128_spec(t: Seq<char>) -> Option<u128> {
    let ds = unsigned_digits(t);
    if ds.len() > 0 && all_digits(ds) && digits_value(ds) <= u128::MAX {
        Some(digits_value(ds) as u128)
    } else {
        None
    }
}

/// Parses a decimal `u128` as `str::parse::<u128>` does.
pub fn parse_u128_text(t: &[char]) -> (r: Option<u128>)
    ensures
        r == parse_u128_spec(t@),
{
    let start: usize = if t.len() > 0 && t[0] == '+' { 1 } else { 0 };
    let ghost ds = unsigned_digits(t@);
    assert(ds =~= t@.skip(start as int));
    if start == t.len() {
        return None;
    }
    let mut value: u128 = 0;
    let mut i: usize = start;
    while i < t.len()
        invariant
            start <= i <= t.len(),
            ds == t@.skip(start as int),
            ds == unsigned_digits(t@),
            forall|k: int| 0 <= k < i - start ==> is_digit(#[trigger] ds[k]),
            value as nat == digits_value(ds.take(i - start)),
        decreases t.len() - i,
    {
        let c = t[i];
        assert(ds[i - start] == c);
        if !('0' <= c && c <= '9') {
            assert(!is_digit(ds[(i - start) as int]));
            assert(!all_digits(ds));
            return None;
        }
        let d: u128 = (c as u32 - '0' as u32) as u128;
        assert(ds.take(i - start + 1).drop_last() =~= ds.take(i - start));
        assert(ds.take(i - start + 1).last() == c);
        assert(digits_value(ds.take(i - start + 1)) == value as nat * 10 + d as nat);
        match value.checked_mul(10) {
            None => {
                proof {
                    lemma_digits_value_prefix_bound(ds, i - start + 1);
                    if all_digits(ds) {
                        assert(digits_value(ds) > u128::MAX);
                    } else {
                        let k = choose|k: int| 0 <= k < ds.len() && !is_digit(ds[k]);
                        assert(!is_digit(ds[k]));
                    }
                }
                return None;
            },
            Some(m) => match m.checked_add(d) {
                None => {
                    proof {
                        lemma_digits_value_prefix_bound(ds, i - start + 1);
                        if all_digits(ds) {
                            assert(digits_value(ds) > u128::MAX);
                        } else {
                            let k = choose|k: int| 0 <= k < ds.len() && !is_digit(ds[k]);
                            assert(!is_digit(ds[k]));
                        }
                    }
                    return None;
                },
                Some(v) => {
                    value = v;
                },
            },
        }
        i += 1;
    }
    assert(ds.take(t.len() - start) =~= ds);
    Some(value)
}

/// A numeric report field: nothing when the column is absent or the
/// field is empty, else the field parsed as a `u64` where it parses.
pub open spec fn optional_u64_spec(field: Option<Seq<char>>) -> Option<u64> {
    match field {
        Some(t) => if t.len() == 0 { None } else { parse_u64_spec(t) },
        None => None,
    }
}

pub open spec fn optional_u128_spec(field: Option<Seq<char>>) -> Option<u128> {
    match field {
        Some(t) => if t.len() == 0 { None } else { parse_u128_spec(t) },
        None => None,
    }
}

/// Parses an optional report field as a `u64`.
pub fn parse_optional_field_u64(field: Option<&str>) -> (r: Option<u64>)
    ensures
        r == optional_u64_spec(match field {
            Some(t) => Some(t@),
            None => None,
        }),
{
    match field {
        Some(t) => {
            let cs = chars_of(t);
            if cs.len() == 0 {
                None
            } else {
                parse_u64_text(cs.as_slice())
            }
        },
        None => None,
    }
}

/// Parses an optional report field as a `u128`.
pub fn parse_optional_field_u128(field: Option<&str>) -> (r: Option<u128>)
    ensures
        r == optional_u128_spec(match field {
            Some(t) => Some(t@),
            None => None,
        }),
{
    match field {
        Some(t) => {
            let cs = chars_of(t);
            if cs.len() == 0 {
                None
            } else {
                parse_u128_text(cs.as_slice())
            }
        },
        None => None,
    }
}

#[verifier::external_type_specification]
#[verifier::external_body]
pub struct ExStringRecord(csv::StringRecord);

/// The fields of a CSV record, in order.
pub uninterp spec fn string_record_fields(record: csv::StringRecord) -> Seq<Seq<char>>;

/// The field at `index` of a record, where it has one.
pub open spec fn record_field_spec(record: csv::StringRecord, index: int) -> Option<Seq<char>> {
    if 0 <= index < string_record_fields(record).len() {
        Some(string_record_fields(record)[index])
    } else {
        None
    }
}

/// Calls `csv::StringRecord::get` and copies the field: the field at
/// `index`, or nothing where the record has no such field.
#[verifier::external_body]
pub(crate) fn record_field(record: &csv::StringRecord, index: usize) -> (r: Option<String>)
    ensures
        match r {
            Some(text) => index < string_record_fields(*record).len() && text@ == string_record_fields(
                *record,
            )[index as int],
            None => index >= string_record_fields(*record).len(),
        },
{
    record.get(index).map(|field| field.to_string())
}

/// The `u64` in the report column at `index` of `record`, if the column
/// exists, is not empty and parses.
pub fn parse_optional_u64(record: &csv::StringRecord, index: Option<usize>) -> (r: Option<u64>)
    ensures
        r == match index {
            Some(i) => optional_u64_spec(record_field_spec(*record, i as int)),
            None => None,
        },
{
    match index {
        None => None,
        Some(i) => match record_field(record, i) {
            Some(text) => parse_optional_field_u64(Some(text.as_str())),
            None => parse_optional_field_u64(None),
        },
    }
}

/// The `u128` in the report column at `index` of `record`, if the column
/// exists, is not empty and parses.
pub fn parse_optional_u128(record: &csv::StringRecord, index: Option<usize>) -> (r: Option<u128>)
    ensures
        r == match index {
            Some(i) => optional_u128_spec(record_field_spec(*record, i as int)),
            None => None,
        },
{
    match index {
        None => None,
        Some(i) => match record_field(record, i) {
            Some(text) => parse_optional_field_u128(Some(text.as_str())),
            None => parse_optional_field_u128(None),
        },
    }
}

proof fn lemma_digits_value_prefix_bound(ds: Seq<char>, n: int)
    requires
        0 <= n <= ds.len(),
        forall|i: int| 0 <= i < n ==> is_digit(#[trigger] ds[i]),
    ensures
        digits_value(ds.take(n)) <= digits_value(ds) || exists|i: int| n <= i < ds.len() && !is_digit(ds[i]),
    decreases ds.len() - n,
{
    if n < ds.len() {
        if is_digit(ds[n]) {
            assert(ds.take(n + 1).drop_last() =~= ds.take(n));
            lemma_digits_value_prefix_bound(ds, n + 1);
        }
    } else {
        assert(ds.take(n) =~= ds);
    }
}

/// Leading characters of `cs` up to the first whitespace.
pub open spec fn token_len(cs: Seq<char>) -> nat
    decreases cs.len(),
{
    if cs.len() == 0 || crate::format::is_unicode_whitespace(cs[0]) {
        0
    } else {
        1 + token_len(cs.drop_first())
    }
}

pub proof fn lemma_token_len(cs: Seq<char>)
    ensures
        token_len(cs) <= cs.len(),
        cs.len() > 0 && !crate::format::is_unicode_whitespace(cs[0]) ==> token_len(cs) >= 1,
    decreases cs.len(),
{
    if cs.len() > 0 && !crate::format::is_unicode_whitespace(cs[0]) {
        lemma_token_len(cs.drop_first());
    }
}

/// The first whitespace-separated token of `cs` that parses as a `u64`.
pub open spec fn first_u64_token(cs: Seq<char>) -> Option<u64>
    decreases cs.len(),
{
    if cs.len() == 0 {
        None
    } else if crate::format::is_unicode_whitespace(cs[0]) {
        first_u64_token(cs.drop_first())
    } else {
        let k = token_len(cs);
        proof {
            lemma_token_len(cs);
        }
        match parse_u64_spec(cs.take(k as int)) {
            Some(v) => Some(v),
            None => first_u64_token(cs.skip(k as int)),
        }
    }
}

/// `v` kibibytes in bytes, saturating.
pub open spec fn kib_to_bytes(v: u64) -> u64 {
    if v * 1024 <= u64::MAX {
        (v * 1024) as u64
    } else {
        u64::MAX
    }
}

/// What one trimmed line of a `time` log says: nothing (read on), or the
/// peak resident size it reports, if any. BSD `time -l` prints bytes
/// (`bytes_units`); GNU `time -v` prints kibibytes.
pub open spec fn rss_line(t: Seq<char>, bytes_units: bool) -> Option<Option<u64>> {
    if crate::cli::occurs_in(t, "maximum resident set size"@) {
        Some(
            match first_u64_token(t) {
                Some(v) => Some(if bytes_units { v } else { kib_to_bytes(v) }),
                None => None,
            },
        )
    } else if t.len() >= "Maximum resident set size (kbytes):"@.len() && t.take(
        "Maximum resident set size (kbytes):"@.len() as int,
    ) == "Maximum resident set size (kbytes):"@ {
        Some(
            match parse_u64_spec(trim_spec(t.skip("Maximum resident set size (kbytes):"@.len() as int))) {
                Some(v) => Some(kib_to_bytes(v)),
                None => None,
            },
        )
    } else {
        None
    }
}

/// The peak resident size of the first line that reports one.
pub open spec fn peak_rss_spec(lines: Seq<Seq<char>>, bytes_units: bool) -> Option<u64>
    decreases lines.len(),
{
    if lines.len() == 0 {
        None
    } else {
        match rss_line(trim_spec(lines[0]), bytes_units) {
            Some(answer) => answer,
            None => peak_rss_spec(lines.drop_first(), bytes_units),
        }
    }
}

fn saturating_kib(v: u64) -> (r: u64)
    ensures
        r == kib_to_bytes(v),
{
    match v.checked_mul(1024) {
        Some(b) => b,
        None => u64::MAX,
    }
}

fn first_token_value(cs: &Vec<char>) -> (r: Option<u64>)
    ensures
        r == first_u64_token(cs@),
{
    let mut i: usize = 0;
    assert(cs@.skip(0) =~= cs@);
    while i < cs.len()
        invariant
            i <= cs.len(),
            first_u64_token(cs@) == first_u64_token(cs@.skip(i as int)),
        decreases cs.len() - i,
    {
        let ghost rest = cs@.skip(i as int);
        if crate::format::is_whitespace(cs[i]) {
            assert(rest.drop_first() =~= cs@.skip(i + 1));
            i += 1;
        } else {
            let mut j: usize = i;
            let mut token: Vec<char> = Vec::new();
            while j < cs.len() && !crate::format::is_whitespace(cs[j])
                invariant
                    i <= j <= cs.len(),
                    rest == cs@.skip(i as int),
                    token@ == cs@.subrange(i as int, j as int),
                    forall|k: int| i <= k < j ==> !crate::format::is_unicode_whitespace(#[trigger] cs@[k]),
                    token_len(rest) == (j - i) + token_len(cs@.skip(j as int)),
                decreases cs.len() - j,
            {
                assert(cs@.skip(j as int).drop_first() =~= cs@.skip(j + 1));
                token.push(cs[j]);
                j += 1;
            }
            assert(token_len(cs@.skip(j as int)) == 0);
            assert(rest.take((j - i) as int) =~= token@);
            assert(rest.skip((j - i) as int) =~= cs@.skip(j as int));
            match parse_u64_text(token.as_slice()) {
                Some(v) => {
                    return Some(v);
                },
                None => {
                    i = j;
                },
            }
        }
    }
    assert(cs@.skip(cs.len() as int) =~= Seq::<char>::empty());
    None
}

/// The peak resident set size a `time` log reports, in bytes.
pub fn parse_peak_rss_bytes(log_text: &str, bytes_units: bool) -> (r: Option<u64>)
    ensures
        r == peak_rss_spec(crate::readers::split_newlines(log_text@), bytes_units),
{
    let cs = chars_of(log_text);
    let lines = crate::readers::split_lines(&cs);
    let ghost lv = crate::readers::lines_view(lines@);
    let marker = chars_of("maximum resident set size");
    let prefix = chars_of("Maximum resident set size (kbytes):");
    let mut i: usize = 0;
    assert(lv.skip(0) =~= lv);
    while i < lines.len()
        invariant
            i <= lines.len(),
            lv == crate::readers::lines_view(lines@),
            lv == crate::readers::split_newlines(log_text@),
            marker@ == "maximum resident set size"@,
            prefix@ == "Maximum resident set size (kbytes):"@,
            peak_rss_spec(lv, bytes_units) == peak_rss_spec(lv.skip(i as int), bytes_units),
        decreases lines.len() - i,
    {
        let ghost rest = lv.skip(i as int);
        assert(rest[0] == lines@[i as int]@);
        let t = crate::readers::trimmed(&lines[i]);
        let tc = chars_of(t.as_str());
        if crate::cli::str_contains(t.as_str(), "maximum resident set size") {
            let v = first_token_value(&tc);
            return match v {
                Some(v) => Some(if bytes_units { v } else { saturating_kib(v) }),
                None => None,
            };
        }
        if tc.len() >= prefix.len() && crate::text::chars_eq(&tc.as_slice()[0..prefix.len()], prefix.as_slice()) {
            let mut tail: Vec<char> = Vec::new();
            let mut k: usize = prefix.len();
            while k < tc.len()
                invariant
                    prefix.len() <= k <= tc.len(),
                    tail@ == tc@.subrange(prefix.len() as int, k as int),
                decreases tc.len() - k,
            {
                tail.push(tc[k]);
                k += 1;
            }
            assert(tail@ =~= tc@.skip(prefix.len() as int));
            let value_text = crate::readers::trimmed(&tail);
            let vc = chars_of(value_text.as_str());
            return match parse_u64_text(vc.as_slice()) {
                Some(v) => Some(saturating_kib(v)),
                None => None,
            };
        }
        proof {
            assert(rest.drop_first() =~= lv.skip(i + 1));
        }
        i += 1;
    }
    assert(lv.skip(lines.len() as int) =~= Seq::<Seq<char>>::empty());
    None
}

// ---------------------------------------------------------------------------
// Report records and paths
// ---------------------------------------------------------------------------

/// The run-wide values that open every report row.
#[derive(Clone, Debug, Eq, PartialEq)]
pub struct RecordContext {
    pub run_label: String,
    pub tier: Tier,
    pub engine: BenchmarkEngine,
    pub input_rows: usize,
    pub run_timestamp: String,
    pub git_ref: String,
}

/// The per-sample values of a report row.
#[derive(Clone, Debug, Eq, PartialEq)]
pub struct BaseRecordFields {
    pub status: String,
    pub command: String,
    pub output_path: String,
    pub log_path: String,
    pub output_rows: String,
    pub output_bytes: u64,
    pub elapsed_ms: u128,
    pub notes: String,
}

pub open spec fn tier_label(t: Tier) -> Seq<char> {
    match t {
        Tier::Smoke => "smoke"@,
        Tier::Local => "local"@,
        Tier::Stress => "stress"@,
    }
}

pub open spec fn engine_label(e: BenchmarkEngine) -> Seq<char> {
    match e {
        BenchmarkEngine::Auto => "auto"@,
        BenchmarkEngine::Row => "row"@,
        BenchmarkEngine::Native => "native"@,
    }
}

/// The per-sample values of a report row, as text and numbers: status,
/// command, output path, log path, output rows, output bytes, elapsed
/// milliseconds and notes.
pub type BaseRecordV = (Seq<char>, Seq<char>, Seq<char>, Seq<char>, Seq<char>, u64, u128, Seq<char>);

pub open spec fn base_fields_view(f: BaseRecordFields) -> BaseRecordV {
    (f.status@, f.command@, f.output_path@, f.log_path@, f.output_rows@, f.output_bytes, f.elapsed_ms, f.notes@)
}

/// The leading report columns of one workload sample, in header order.
pub open spec fn base_record_spec(c: RecordContext, w: Workload, f: BaseRecordV) -> Seq<Seq<char>> {
    seq![
        "pdl"@,
        "pdl-bench"@,
        c.run_label@,
        "large"@,
        w.name@,
        w.dataset@,
        tier_label(c.tier),
        w.input_format@,
        w.output_format@,
        engine_label(c.engine),
        f.0,
        f.1,
        f.2,
        f.3,
        decimal(c.input_rows as nat),
        f.4,
        Seq::empty(),
        decimal(f.5 as nat),
        decimal(f.6 as nat),
        c.run_timestamp@,
        c.git_ref@,
        f.7,
    ]
}

/// The leading report columns of one workload sample.
pub fn base_record(context: &RecordContext, workload: &Workload, fields: BaseRecordFields) -> (r: Vec<String>)
    ensures
        crate::text::strings_view(r@) == base_record_spec(*context, *workload, base_fields_view(fields)),
{
    let ghost f = base_fields_view(fields);
    let mut out: Vec<String> = Vec::new();
    out.push(copy_str("pdl"));
    out.push(copy_str("pdl-bench"));
    out.push(crate::text::copy_string(&context.run_label));
    out.push(copy_str("large"));
    out.push(copy_str(workload.name));
    out.push(copy_str(workload.dataset));
    out.push(copy_str(context.tier.as_str()));
    out.push(copy_str(workload.input_format));
    out.push(copy_str(workload.output_format));
    out.push(copy_str(context.engine.as_str()));
    out.push(fields.status);
    out.push(fields.command);
    out.push(fields.output_path);
    out.push(fields.log_path);
    out.push(crate::text::decimal_string(context.input_rows));
    out.push(fields.output_rows);
    out.push(String::new());
    out.push(crate::text::decimal_string_u128(fields.output_bytes as u128));
    out.push(crate::text::decimal_string_u128(fields.elapsed_ms));
    out.push(crate::text::copy_string(&context.run_timestamp));
    out.push(crate::text::copy_string(&context.git_ref));
    out.push(fields.notes);
    assert(crate::text::strings_view(out@) =~= base_record_spec(*context, *workload, f));
    out
}

/// The `pdl` binary the harness runs: `target/<profile>/pdl` under the
/// repository root.
pub fn pdl_bin(root: &str, profile: BuildProfile) -> (r: String)
    ensures
        r@ == pdl_bin_spec(root@, profile),
{
    let target = crate::path::join_path(root, "target");
    let dir = crate::path::join_path(target.as_str(), profile.dir());
    crate::path::join_path(dir.as_str(), "pdl")
}

pub open spec fn pdl_bin_spec(root: Seq<char>, profile: BuildProfile) -> Seq<char> {
    crate::path::path_join_of(
        crate::path::path_join_of(crate::path::path_join_of(root, "target"@), profile_dir(profile)),
        "pdl"@,
    )
}

pub open spec fn profile_dir(p: BuildProfile) -> Seq<char> {
    match p {
        BuildProfile::Debug => "debug"@,
        BuildProfile::Release => "release"@,
    }
}

/// Where the report of a run label lives when the label is not itself a
/// path: `<root>/<parent>/<sanitized label>/report.csv`.
pub fn labelled_report_path(root: &str, parent: &str, label: &str) -> (r: String)
    ensures
        r@ == crate::path::path_join_of(
            crate::path::path_join_of(crate::path::path_join_of(root@, parent@), sanitize_spec(label@)),
            "report.csv"@,
        ),
{
    let base = crate::path::join_path(root, parent);
    let name = sanitize_label(label);
    let dir = crate::path::join_path(base.as_str(), name.as_str());
    crate::path::join_path(dir.as_str(), "report.csv")
}


// ---------------------------------------------------------------------------
// What every large workload keeps to
// ---------------------------------------------------------------------------

/// The generated datasets that a suite run requires to exist.
pub open spec fn required_datasets() -> Seq<Seq<char>> {
    seq![
        "bench/data/generated/million-row.csv"@,
        "bench/data/generated/million-row.parquet"@,
        "bench/data/generated/million-row.arrow"@,
        "bench/data/generated/segment-dimension.csv"@,
        "bench/data/generated/million-row-part-a.csv"@,
        "bench/data/generated/million-row-part-b.csv"@,
        "bench/data/generated/million-row-narrow.csv"@,
        "bench/data/generated/million-row-events.csv"@,
        "bench/data/generated/million-row-events.jsonl"@,
    ]
}

/// Whether `path` ends with a dot and `extension`.
pub open spec fn has_extension(path: Seq<char>, extension: Seq<char>) -> bool {
    extension.len() + 1 <= path.len() && path.subrange(path.len() - extension.len() - 1, path.len() as int) == "."@ + extension
}

/// What a workload keeps to: its program is named after it under
/// `bench/workloads/large/`, the data it requires is one of the generated
/// datasets, and that file's extension is the one of its input format.
pub open spec fn workload_consistent(w: WorkloadV) -> bool {
    &&& w.1 == "bench/workloads/large/"@ + w.0 + ".pdl"@
    &&& required_datasets().contains(w.5)
    &&& has_extension(w.5, extension_spec(w.3))
}
proof fn lemma_workload_row_consistent(i: int)
    requires
        0 <= i < large_workload_table().len(),
    ensures
        workload_consistent(large_workload_table()[i]),
{
    let t = large_workload_table();
    reveal_strlit("bench/workloads/large/");
    reveal_strlit(".pdl");
    reveal_strlit(".");
    reveal_strlit("csv");
    reveal_strlit("jsonl");
    reveal_strlit("arrow-stream");
    reveal_strlit("arrow-file");
    reveal_strlit("parquet");
    reveal_strlit("arrow");
    if i == 0 {
        reveal_strlit("million_row_segment_summary");
        reveal_strlit("bench/workloads/large/million_row_segment_summary.pdl");
        reveal_strlit("bench/data/generated/million-row.csv");
        assert(t[i].1 =~= "bench/workloads/large/"@ + t[i].0 + ".pdl"@);
        assert(required_datasets()[0] == t[i].5);
        assert(t[i].5.subrange(t[i].5.len() - extension_spec(t[i].3).len() - 1, t[i].5.len() as int) =~= "."@ + extension_spec(t[i].3));
    } else if i == 1 {
        reveal_strlit("million_row_segment_summary_parquet");
        reveal_strlit("bench/workloads/large/million_row_segment_summary_parquet.pdl");
        reveal_strlit("bench/data/generated/million-row.parquet");
        assert(t[i].3 == "parquet"@ && t[i].3 != "csv"@ && t[i].3 != "jsonl"@ && t[i].3 != "arrow-stream"@);
        assert(extension_spec(t[i].3) == "parquet"@);
        assert(t[i].1 =~= "bench/workloads/large/"@ + t[i].0 + ".pdl"@);
        assert(required_datasets()[1] == t[i].5);
        assert(t[i].5.subrange(t[i].5.len() - extension_spec(t[i].3).len() - 1, t[i].5.len() as int) =~= "."@ + extension_spec(t[i].3));
    } else if i == 2 {
        reveal_strlit("million_row_segment_summary_arrow_stream");
        reveal_strlit("bench/workloads/large/million_row_segment_summary_arrow_stream.pdl");
        reveal_strlit("bench/data/generated/million-row.arrow");
        assert(t[i].1 =~= "bench/workloads/large/"@ + t[i].0 + ".pdl"@);
        assert(required_datasets()[2] == t[i].5);
        assert(t[i].5.subrange(t[i].5.len() - extension_spec(t[i].3).len() - 1, t[i].5.len() as int) =~= "."@ + extension_spec(t[i].3));
    } else if i == 3 {
        reveal_strlit("million_row_segment_summary");
        reveal_strlit("bench/workloads/large/million_row_segment_summary.pdl");
        reveal_strlit("bench/data/generated/million-row.csv");
        assert(t[i].1 =~= "bench/workloads/large/"@ + t[i].0 + ".pdl"@);
        assert(required_datasets()[0] == t[i].5);
        assert(t[i].5.subrange(t[i].5.len() - extension_spec(t[i].3).len() - 1, t[i].5.len() as int) =~= "."@ + extension_spec(t[i].3));
    } else if i == 4 {
        reveal_strlit("million_row_mutate_csv");
        reveal_strlit("bench/workloads/large/million_row_mutate_csv.pdl");
        reveal_strlit("bench/data/generated/million-row.csv");
        assert(t[i].1 =~= "bench/workloads/large/"@ + t[i].0 + ".pdl"@);
        assert(required_datasets()[0] == t[i].5);
        assert(t[i].5.subrange(t[i].5.len() - extension_spec(t[i].3).len() - 1, t[i].5.len() as int) =~= "."@ + extension_spec(t[i].3));
    } else if i == 5 {
        reveal_strlit("million_row_mutate_parquet");
        reveal_strlit("bench/workloads/large/million_row_mutate_parquet.pdl");
        reveal_strlit("bench/data/generated/million-row.parquet");
        assert(t[i].3 == "parquet"@ && t[i].3 != "csv"@ && t[i].3 != "jsonl"@ && t[i].3 != "arrow-stream"@);
        assert(extension_spec(t[i].3) == "parquet"@);
        assert(t[i].1 =~= "bench/workloads/large/"@ + t[i].0 + ".pdl"@);
        assert(required_datasets()[1] == t[i].5);
        assert(t[i].5.subrange(t[i].5.len() - extension_spec(t[i].3).len() - 1, t[i].5.len() as int) =~= "."@ + extension_spec(t[i].3));
    } else if i == 6 {
        reveal_strlit("million_row_mutate_arrow_stream");
        reveal_strlit("bench/workloads/large/million_row_mutate_arrow_stream.pdl");
        reveal_strlit("bench/data/generated/million-row.arrow");
        assert(t[i].1 =~= "bench/workloads/large/"@ + t[i].0 + ".pdl"@);
        assert(required_datasets()[2] == t[i].5);
        assert(t[i].5.subrange(t[i].5.len() - extension_spec(t[i].3).len() - 1, t[i].5.len() as int) =~= "."@ + extension_spec(t[i].3));
    } else if i == 7 {
        reveal_strlit("million_row_mutate_csv");
        reveal_strlit("bench/workloads/large/million_row_mutate_csv.pdl");
        reveal_strlit("bench/data/generated/million-row.csv");
        assert(t[i].1 =~= "bench/workloads/large/"@ + t[i].0 + ".pdl"@);
        assert(required_datasets()[0] == t[i].5);
        assert(t[i].5.subrange(t[i].5.len() - extension_spec(t[i].3).len() - 1, t[i].5.len() as int) =~= "."@ + extension_spec(t[i].3));
    } else if i == 8 {
        reveal_strlit("million_row_mutate_csv_stdin");
        reveal_strlit("bench/workloads/large/million_row_mutate_csv_stdin.pdl");
        reveal_strlit("bench/data/generated/million-row.csv");
        assert(t[i].1 =~= "bench/workloads/large/"@ + t[i].0 + ".pdl"@);
        assert(required_datasets()[0] == t[i].5);
        assert(t[i].5.subrange(t[i].5.len() - extension_spec(t[i].3).len() - 1, t[i].5.len() as int) =~= "."@ + extension_spec(t[i].3));
    } else if i == 9 {
        reveal_strlit("million_row_top_scores");
        reveal_strlit("bench/workloads/large/million_row_top_scores.pdl");
        reveal_strlit("bench/data/generated/million-row.csv");
        assert(t[i].1 =~= "bench/workloads/large/"@ + t[i].0 + ".pdl"@);
        assert(required_datasets()[0] == t[i].5);
        assert(t[i].5.subrange(t[i].5.len() - extension_spec(t[i].3).len() - 1, t[i].5.len() as int) =~= "."@ + extension_spec(t[i].3));
    } else if i == 10 {
        reveal_strlit("million_row_projection_smoke");
        reveal_strlit("bench/workloads/large/million_row_projection_smoke.pdl");
        reveal_strlit("bench/data/generated/million-row.csv");
        assert(t[i].1 =~= "bench/workloads/large/"@ + t[i].0 + ".pdl"@);
        assert(required_datasets()[0] == t[i].5);
        assert(t[i].5.subrange(t[i].5.len() - extension_spec(t[i].3).len() - 1, t[i].5.len() as int) =~= "."@ + extension_spec(t[i].3));
    } else if i == 11 {
        reveal_strlit("million_row_distinct_segments");
        reveal_strlit("bench/workloads/large/million_row_distinct_segments.pdl");
        reveal_strlit("bench/data/generated/million-row.csv");
        assert(t[i].1 =~= "bench/workloads/large/"@ + t[i].0 + ".pdl"@);
        assert(required_datasets()[0] == t[i].5);
        assert(t[i].5.subrange(t[i].5.len() - extension_spec(t[i].3).len() - 1, t[i].5.len() as int) =~= "."@ + extension_spec(t[i].3));
    } else if i == 12 {
        reveal_strlit("million_row_join_dimension");
        reveal_strlit("bench/workloads/large/million_row_join_dimension.pdl");
        reveal_strlit("bench/data/generated/segment-dimension.csv");
        assert(t[i].1 =~= "bench/workloads/large/"@ + t[i].0 + ".pdl"@);
        assert(required_datasets()[3] == t[i].5);
        assert(t[i].5.subrange(t[i].5.len() - extension_spec(t[i].3).len() - 1, t[i].5.len() as int) =~= "."@ + extension_spec(t[i].3));
    } else if i == 13 {
        reveal_strlit("million_row_composite_join_rollup");
        reveal_strlit("bench/workloads/large/million_row_composite_join_rollup.pdl");
        reveal_strlit("bench/data/generated/million-row.csv");
        assert(t[i].1 =~= "bench/workloads/large/"@ + t[i].0 + ".pdl"@);
        assert(required_datasets()[0] == t[i].5);
        assert(t[i].5.subrange(t[i].5.len() - extension_spec(t[i].3).len() - 1, t[i].5.len() as int) =~= "."@ + extension_spec(t[i].3));
    } else if i == 14 {
        reveal_strlit("million_row_composite_join_lookup");
        reveal_strlit("bench/workloads/large/million_row_composite_join_lookup.pdl");
        reveal_strlit("bench/data/generated/million-row.csv");
        assert(t[i].1 =~= "bench/workloads/large/"@ + t[i].0 + ".pdl"@);
        assert(required_datasets()[0] == t[i].5);
        assert(t[i].5.subrange(t[i].5.len() - extension_spec(t[i].3).len() - 1, t[i].5.len() as int) =~= "."@ + extension_spec(t[i].3));
    } else if i == 15 {
        reveal_strlit("million_row_union_partitions");
        reveal_strlit("bench/workloads/large/million_row_union_partitions.pdl");
        reveal_strlit("bench/data/generated/million-row-part-a.csv");
        assert(t[i].1 =~= "bench/workloads/large/"@ + t[i].0 + ".pdl"@);
        assert(required_datasets()[4] == t[i].5);
        assert(t[i].5.subrange(t[i].5.len() - extension_spec(t[i].3).len() - 1, t[i].5.len() as int) =~= "."@ + extension_spec(t[i].3));
    } else if i == 16 {
        reveal_strlit("million_row_union_null_padding");
        reveal_strlit("bench/workloads/large/million_row_union_null_padding.pdl");
        reveal_strlit("bench/data/generated/million-row-narrow.csv");
        assert(t[i].1 =~= "bench/workloads/large/"@ + t[i].0 + ".pdl"@);
        assert(required_datasets()[6] == t[i].5);
        assert(t[i].5.subrange(t[i].5.len() - extension_spec(t[i].3).len() - 1, t[i].5.len() as int) =~= "."@ + extension_spec(t[i].3));
    } else if i == 17 {
        reveal_strlit("windowed_sales_rank");
        reveal_strlit("bench/workloads/large/windowed_sales_rank.pdl");
        reveal_strlit("bench/data/generated/million-row.csv");
        assert(t[i].1 =~= "bench/workloads/large/"@ + t[i].0 + ".pdl"@);
        assert(required_datasets()[0] == t[i].5);
        assert(t[i].5.subrange(t[i].5.len() - extension_spec(t[i].3).len() - 1, t[i].5.len() as int) =~= "."@ + extension_spec(t[i].3));
    } else if i == 18 {
        reveal_strlit("million_row_window_running");
        reveal_strlit("bench/workloads/large/million_row_window_running.pdl");
        reveal_strlit("bench/data/generated/million-row.csv");
        assert(t[i].1 =~= "bench/workloads/large/"@ + t[i].0 + ".pdl"@);
        assert(required_datasets()[0] == t[i].5);
        assert(t[i].5.subrange(t[i].5.len() - extension_spec(t[i].3).len() - 1, t[i].5.len() as int) =~= "."@ + extension_spec(t[i].3));
    } else if i == 19 {
        reveal_strlit("million_row_window_offsets_values");
        reveal_strlit("bench/workloads/large/million_row_window_offsets_values.pdl");
        reveal_strlit("bench/data/generated/million-row.csv");
        assert(t[i].1 =~= "bench/workloads/large/"@ + t[i].0 + ".pdl"@);
        assert(required_datasets()[0] == t[i].5);
        assert(t[i].5.subrange(t[i].5.len() - extension_spec(t[i].3).len() - 1, t[i].5.len() as int) =~= "."@ + extension_spec(t[i].3));
    } else if i == 20 {
        reveal_strlit("million_row_dynamic_window_offsets");
        reveal_strlit("bench/workloads/large/million_row_dynamic_window_offsets.pdl");
        reveal_strlit("bench/data/generated/million-row-events.csv");
        assert(t[i].1 =~= "bench/workloads/large/"@ + t[i].0 + ".pdl"@);
        assert(required_datasets()[7] == t[i].5);
        assert(t[i].5.subrange(t[i].5.len() - extension_spec(t[i].3).len() - 1, t[i].5.len() as int) =~= "."@ + extension_spec(t[i].3));
    } else if i == 21 {
        reveal_strlit("pdl_to_algraf_arrow_handoff");
        reveal_strlit("bench/workloads/large/pdl_to_algraf_arrow_handoff.pdl");
        reveal_strlit("bench/data/generated/million-row.csv");
        assert(t[i].1 =~= "bench/workloads/large/"@ + t[i].0 + ".pdl"@);
        assert(required_datasets()[0] == t[i].5);
        assert(t[i].5.subrange(t[i].5.len() - extension_spec(t[i].3).len() - 1, t[i].5.len() as int) =~= "."@ + extension_spec(t[i].3));
    } else if i == 22 {
        reveal_strlit("million_row_temporal_buckets");
        reveal_strlit("bench/workloads/large/million_row_temporal_buckets.pdl");
        reveal_strlit("bench/data/generated/million-row-events.csv");
        assert(t[i].1 =~= "bench/workloads/large/"@ + t[i].0 + ".pdl"@);
        assert(required_datasets()[7] == t[i].5);
        assert(t[i].5.subrange(t[i].5.len() - extension_spec(t[i].3).len() - 1, t[i].5.len() as int) =~= "."@ + extension_spec(t[i].3));
    } else if i == 23 {
        reveal_strlit("million_row_jsonl_temporal_buckets");
        reveal_strlit("bench/workloads/large/million_row_jsonl_temporal_buckets.pdl");
        reveal_strlit("bench/data/generated/million-row-events.jsonl");
        assert(t[i].1 =~= "bench/workloads/large/"@ + t[i].0 + ".pdl"@);
        assert(required_datasets()[8] == t[i].5);
        assert(t[i].5.subrange(t[i].5.len() - extension_spec(t[i].3).len() - 1, t[i].5.len() as int) =~= "."@ + extension_spec(t[i].3));
    } else if i == 24 {
        reveal_strlit("million_row_dynamic_text_and_col");
        reveal_strlit("bench/workloads/large/million_row_dynamic_text_and_col.pdl");
        reveal_strlit("bench/data/generated/million-row-events.csv");
        assert(t[i].1 =~= "bench/workloads/large/"@ + t[i].0 + ".pdl"@);
        assert(required_datasets()[7] == t[i].5);
        assert(t[i].5.subrange(t[i].5.len() - extension_spec(t[i].3).len() - 1, t[i].5.len() as int) =~= "."@ + extension_spec(t[i].3));
    } else if i == 25 {
        reveal_strlit("million_row_text_emission");
        reveal_strlit("bench/workloads/large/million_row_text_emission.pdl");
        reveal_strlit("bench/data/generated/million-row.csv");
        assert(t[i].1 =~= "bench/workloads/large/"@ + t[i].0 + ".pdl"@);
        assert(required_datasets()[0] == t[i].5);
        assert(t[i].5.subrange(t[i].5.len() - extension_spec(t[i].3).len() - 1, t[i].5.len() as int) =~= "."@ + extension_spec(t[i].3));
    } else if i == 26 {
        reveal_strlit("million_row_text_emission");
        reveal_strlit("bench/workloads/large/million_row_text_emission.pdl");
        reveal_strlit("bench/data/generated/million-row.csv");
        assert(t[i].1 =~= "bench/workloads/large/"@ + t[i].0 + ".pdl"@);
        assert(required_datasets()[0] == t[i].5);
        assert(t[i].5.subrange(t[i].5.len() - extension_spec(t[i].3).len() - 1, t[i].5.len() as int) =~= "."@ + extension_spec(t[i].3));
    } else if i == 27 {
        reveal_strlit("million_row_pivot_longer");
        reveal_strlit("bench/workloads/large/million_row_pivot_longer.pdl");
        reveal_strlit("bench/data/generated/million-row.csv");
        assert(t[i].1 =~= "bench/workloads/large/"@ + t[i].0 + ".pdl"@);
        assert(required_datasets()[0] == t[i].5);
        assert(t[i].5.subrange(t[i].5.len() - extension_spec(t[i].3).len() - 1, t[i].5.len() as int) =~= "."@ + extension_spec(t[i].3));
    } else if i == 28 {
        reveal_strlit("million_row_complete_buckets");
        reveal_strlit("bench/workloads/large/million_row_complete_buckets.pdl");
        reveal_strlit("bench/data/generated/million-row.csv");
        assert(t[i].1 =~= "bench/workloads/large/"@ + t[i].0 + ".pdl"@);
        assert(required_datasets()[0] == t[i].5);
        assert(t[i].5.subrange(t[i].5.len() - extension_spec(t[i].3).len() - 1, t[i].5.len() as int) =~= "."@ + extension_spec(t[i].3));
    } else if i == 29 {
        reveal_strlit("million_row_multi_output_fanout");
        reveal_strlit("bench/workloads/large/million_row_multi_output_fanout.pdl");
        reveal_strlit("bench/data/generated/million-row.csv");
        assert(t[i].1 =~= "bench/workloads/large/"@ + t[i].0 + ".pdl"@);
        assert(required_datasets()[0] == t[i].5);
        assert(t[i].5.subrange(t[i].5.len() - extension_spec(t[i].3).len() - 1, t[i].5.len() as int) =~= "."@ + extension_spec(t[i].3));
    }
}

/// Every large workload's program is named after it under
/// `bench/workloads/large/`, requires one of the generated datasets, and
/// reads a file whose extension is the one of its input format; a workload
/// writes to stdout exactly when its output format is not `multi-csv`
/// (`Workload::stdout_format`).
pub proof fn lemma_large_workloads_consistent()
    ensures
        forall|i: int| 0 <= i < large_workload_table().len() ==> #[trigger] workload_consistent(large_workload_table()[i]),
{
    assert forall|i: int| 0 <= i < large_workload_table().len() implies #[trigger] workload_consistent(large_workload_table()[i]) by {
        lemma_workload_row_consistent(i);
    }
}

} // verus!
