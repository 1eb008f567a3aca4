//! What a benchmark run records of a workload besides its raw timings: the
//! order statistics of its timing samples, and the engine facts that the
//! workload's `plan --json` output reports.
use vstd::prelude::*;
use vstd::relations::{sorted_by, total_ordering};
use vstd::slice::slice_to_vec;

use crate::bench::{
    base_record, base_record_spec, engine_label, extension_for_format, extension_spec,
    parse_peak_rss_bytes, pdl_bin, pdl_bin_spec, peak_rss_spec, profile_dir, BaseRecordFields,
    BenchmarkEngine, BuildProfile, RecordContext, Workload,
};
use crate::cli::{occurs_in, str_contains};
use crate::readers::{
    lemma_split_newlines_nonempty, lines_view, split_lines, split_newlines, trim_spec, trimmed,
};
use crate::json::{deref_node, get_member, items_in, items_of, member, text_of, JsonNode};
use crate::path::{join_path, path_join_of, relative, relative_spec};
use crate::text::{
    chars_of, copy_str, copy_string, decimal, decimal_string, decimal_string_u128, joined,
    push_char, push_decimal, push_joined, push_str, str_eq, string_from_chars, strings_view,
};

verus! {

/// The ascending order on timing samples.
pub open spec fn sample_leq() -> spec_fn(u128, u128) -> bool {
    |x: u128, y: u128| x <= y
}

/// The samples in ascending order.
pub open spec fn ascending(values: Seq<u128>) -> Seq<u128> {
    values.sort_by(sample_leq())
}

/// The position of the 90th percentile among `count` ascending samples:
/// nine tenths of the way from the first to the last, rounded up.
pub open spec fn p90_position(count: nat) -> int {
    ((count - 1) * 90 + 99) / 100
}

/// Order statistics of a workload's timing samples, in milliseconds. (The
/// standard deviation that the report prints beside them is computed in
/// floating point by the harness itself.)
#[derive(Clone, Copy, Debug, Eq, PartialEq)]
pub struct SampleStats {
    pub min_ms: u128,
    pub median_ms: u128,
    pub p90_ms: u128,
    pub max_ms: u128,
    pub count: usize,
}

proof fn lemma_sample_leq_total()
    ensures
        total_ordering(sample_leq()),
{
    let leq = sample_leq();
    assert(forall|x: u128| #[trigger] leq(x, x));
    assert(forall|x: u128, y: u128| #[trigger] leq(x, y) && #[trigger] leq(y, x) ==> x == y);
    assert(forall|x: u128, y: u128, z: u128| #[trigger] leq(x, y) && #[trigger] leq(y, z) ==> leq(x, z));
    assert(forall|x: u128, y: u128| #[trigger] leq(x, y) || #[trigger] leq(y, x));
}

/// Sorts samples in ascending order (`<[u128]>::sort_unstable`): afterwards
/// they are the same values, each as often as before, in ascending order.
#[verifier::external_body]
fn sort_ascending(values: &mut Vec<u128>)
    ensures
        final(values)@.to_multiset() == old(values)@.to_multiset(),
        sorted_by(final(values)@, sample_leq()),
{
    values.sort_unstable();
}

/// The smallest, median, 90th-percentile and largest of the samples, and
/// how many there are; all zero for no samples.
pub open spec fn sample_stats_spec(values: Seq<u128>) -> SampleStats {
    if values.len() == 0 {
        SampleStats { min_ms: 0, median_ms: 0, p90_ms: 0, max_ms: 0, count: 0 }
    } else {
        let s = ascending(values);
        let n = values.len();
        SampleStats {
            min_ms: s[0],
            median_ms: s[(n / 2) as int],
            p90_ms: s[p90_position(n)],
            max_ms: s[n - 1],
            count: n as usize,
        }
    }
}

/// The order statistics of the samples. Each statistic is one of the
/// samples, and they never decrease from the smallest to the largest.
pub fn sample_stats(values: &[u128]) -> (r: SampleStats)
    ensures
        r == sample_stats_spec(values@),
        values@.len() > 0 ==> r.min_ms <= r.median_ms <= r.p90_ms <= r.max_ms,
        values@.len() > 0 ==> values@.contains(r.min_ms) && values@.contains(r.median_ms)
            && values@.contains(r.p90_ms) && values@.contains(r.max_ms),
{
    if values.len() == 0 {
        return SampleStats { min_ms: 0, median_ms: 0, p90_ms: 0, max_ms: 0, count: 0 };
    }
    let mut sorted = slice_to_vec(values);
    sort_ascending(&mut sorted);
    let ghost s = ascending(values@);
    proof {
        lemma_sample_leq_total();
        values@.lemma_sort_by_ensures(sample_leq());
        vstd::seq_lib::lemma_sorted_unique(sorted@, s, sample_leq());
        values@.to_multiset_ensures();
        sorted@.to_multiset_ensures();
        assert(sorted@ == s);
        assert(sorted@.len() == values@.len());
    }
    let count = sorted.len();
    let p90_wide: u128 = ((count - 1) as u128 * 90 + 99) / 100;
    assert(p90_wide <= count - 1);
    assert(count / 2 <= p90_wide);
    let p90 = p90_wide as usize;
    let median = count / 2;
    proof {
        let leq = sample_leq();
        assert(sorted@ == s);
        if 0 < median {
            assert(leq(s[0], s[median as int]));
        }
        if median < p90 {
            assert(leq(s[median as int], s[p90 as int]));
        }
        if p90 < count - 1 {
            assert(leq(s[p90 as int], s[count - 1]));
        }
        assert(s.contains(s[0]));
        assert(s.contains(s[median as int]));
        assert(s.contains(s[p90 as int]));
        assert(s.contains(s[count - 1]));
    }
    SampleStats {
        min_ms: sorted[0],
        median_ms: sorted[median],
        p90_ms: sorted[p90],
        max_ms: sorted[count - 1],
        count,
    }
}

/// The engine facts of a workload's plan, as its report row records them.
#[derive(Clone, Debug, Eq, PartialEq)]
pub struct PlanFacts {
    pub selected_engine: String,
    pub eligible_engine: String,
    pub fallback_reason: String,
    pub sink_strategy: String,
    pub source_boundary: String,
    pub row_materialization: String,
    pub required_source_columns: String,
}

impl Default for PlanFacts {
    /// No facts: every field empty, as for a plan that could not be read.
    fn default() -> (r: Self)
        ensures
            r.selected_engine@ == Seq::<char>::empty(),
            r.eligible_engine@ == Seq::<char>::empty(),
            r.fallback_reason@ == Seq::<char>::empty(),
            r.sink_strategy@ == Seq::<char>::empty(),
            r.source_boundary@ == Seq::<char>::empty(),
            r.row_materialization@ == Seq::<char>::empty(),
            r.required_source_columns@ == Seq::<char>::empty(),
    {
        PlanFacts {
            selected_engine: String::new(),
            eligible_engine: String::new(),
            fallback_reason: String::new(),
            sink_strategy: String::new(),
            source_boundary: String::new(),
            row_materialization: String::new(),
            required_source_columns: String::new(),
        }
    }
}

/// `plan["execution"]["observability"]`, where it exists.
pub open spec fn observability_of(plan: JsonNode) -> Option<JsonNode> {
    match member(plan, "execution"@) {
        Some(execution) => member(execution, "observability"@),
        None => None,
    }
}

/// The text of the string member `key`, or nothing.
pub open spec fn field_text(node: Option<JsonNode>, key: Seq<char>) -> Seq<char> {
    match node {
        Some(n) => match text_of(member(n, key)) {
            Some(t) => t,
            None => Seq::empty(),
        },
        None => Seq::empty(),
    }
}

/// `true` or `false` for the boolean member `key`, or nothing.
pub open spec fn field_flag(node: Option<JsonNode>, key: Seq<char>) -> Seq<char> {
    match node {
        Some(n) => match member(n, key) {
            Some(JsonNode::Bool(b)) => if b {
                "true"@
            } else {
                "false"@
            },
            _ => Seq::empty(),
        },
        None => Seq::empty(),
    }
}

/// The texts of the string items, in order; other items are skipped.
pub open spec fn texts_among(items: Seq<JsonNode>) -> Seq<Seq<char>>
    decreases items.len(),
{
    if items.len() == 0 {
        Seq::empty()
    } else {
        let rest = texts_among(items.drop_last());
        match items.last() {
            JsonNode::Text(t) => rest.push(t@),
            _ => rest,
        }
    }
}

/// The string items of the array member `key`, joined by `|`, or nothing.
pub open spec fn field_list(node: Option<JsonNode>, key: Seq<char>) -> Seq<char> {
    match node {
        Some(n) => match items_of(member(n, key)) {
            Some(items) => joined(texts_among(items), "|"@),
            None => Seq::empty(),
        },
        None => Seq::empty(),
    }
}

fn text_field(node: Option<&JsonNode>, key: &str) -> (r: String)
    ensures
        r@ == field_text(deref_node(node), key@),
{
    match node {
        Some(n) => match get_member(n, key) {
            Some(value) => match value {
                JsonNode::Text(t) => copy_string(t),
                _ => String::new(),
            },
            None => String::new(),
        },
        None => String::new(),
    }
}

fn flag_field(node: Option<&JsonNode>, key: &str) -> (r: String)
    ensures
        r@ == field_flag(deref_node(node), key@),
{
    match node {
        Some(n) => match get_member(n, key) {
            Some(value) => match value {
                JsonNode::Bool(b) => if *b {
                    copy_str("true")
                } else {
                    copy_str("false")
                },
                _ => String::new(),
            },
            None => String::new(),
        },
        None => String::new(),
    }
}

fn list_field(node: Option<&JsonNode>, key: &str) -> (r: String)
    ensures
        r@ == field_list(deref_node(node), key@),
{
    let n = match node {
        Some(n) => n,
        None => return String::new(),
    };
    let items = match items_in(get_member(n, key)) {
        Some(items) => items,
        None => return String::new(),
    };
    let mut texts: Vec<String> = Vec::new();
    let mut i: usize = 0;
    while i < items.len()
        invariant
            i <= items.len(),
            strings_view(texts@) == texts_among(items@.take(i as int)),
        decreases items.len() - i,
    {
        let ghost before = strings_view(texts@);
        match &items[i] {
            JsonNode::Text(t) => {
                texts.push(copy_string(t));
                assert(strings_view(texts@) =~= before.push(t@));
            },
            _ => {},
        }
        assert(items@.take(i + 1).drop_last() =~= items@.take(i as int));
        i += 1;
    }
    assert(items@.take(items.len() as int) =~= items@);
    let mut out = String::new();
    push_joined(&mut out, texts.as_slice(), "|");
    assert(out@ =~= joined(texts_among(items@), "|"@));
    out
}

/// The engine facts of a parsed `plan --json` output, read from its
/// `execution.observability` object; a fact that is missing, or of
/// another kind, is recorded empty.
pub fn plan_facts_from_json(plan: &JsonNode) -> (r: PlanFacts)
    ensures
        r.selected_engine@ == field_text(observability_of(*plan), "selected_engine"@),
        r.eligible_engine@ == field_text(observability_of(*plan), "eligible_engine"@),
        r.fallback_reason@ == field_text(observability_of(*plan), "fallback_reason"@),
        r.sink_strategy@ == field_text(observability_of(*plan), "sink_strategy"@),
        r.source_boundary@ == field_text(observability_of(*plan), "source_boundary"@),
        r.row_materialization@ == field_flag(observability_of(*plan), "row_materialization"@),
        r.required_source_columns@ == field_list(
            observability_of(*plan),
            "required_source_columns"@,
        ),
{
    let observability = match get_member(plan, "execution") {
        Some(execution) => get_member(execution, "observability"),
        None => None,
    };
    PlanFacts {
        selected_engine: text_field(observability, "selected_engine"),
        eligible_engine: text_field(observability, "eligible_engine"),
        fallback_reason: text_field(observability, "fallback_reason"),
        sink_strategy: text_field(observability, "sink_strategy"),
        source_boundary: text_field(observability, "source_boundary"),
        row_materialization: flag_field(observability, "row_materialization"),
        required_source_columns: list_field(observability, "required_source_columns"),
    }
}

/// The texts of a plan's facts, in report column order.
pub open spec fn plan_facts_view(f: PlanFacts) -> Seq<Seq<char>> {
    seq![
        f.row_materialization@,
        f.selected_engine@,
        f.eligible_engine@,
        f.fallback_reason@,
        f.sink_strategy@,
        f.source_boundary@,
        f.required_source_columns@,
    ]
}

/// The machine and build a run happens on, as the report records them.
#[derive(Clone, Debug, Eq, PartialEq)]
pub struct SystemMetadata {
    pub os: String,
    pub cpu_model: String,
    pub logical_cores: String,
    pub rustc: String,
    pub build_profile: String,
    pub git_dirty: String,
    pub feature_flags: String,
}

/// Everything about a run that its report rows repeat.
#[derive(Clone, Debug, Eq, PartialEq)]
pub struct RunContext {
    pub record: RecordContext,
    /// The repository root; report paths are given relative to it.
    pub root: String,
    /// The directory the run writes outputs and logs into.
    pub run_dir: String,
    pub profile: BuildProfile,
    /// How many timed samples each workload gets.
    pub samples: usize,
    /// How many untimed warmup runs come before them.
    pub warmups: usize,
    pub metadata: SystemMetadata,
}

pub open spec fn optional_decimal(v: Option<u64>) -> Seq<char> {
    match v {
        Some(x) => decimal(x as nat),
        None => Seq::empty(),
    }
}

/// The trailing report columns of a workload: its sample statistics, the
/// plan's facts, four columns left blank, and the machine it ran on.
pub open spec fn run_fields_spec(
    c: RunContext,
    stats: SampleStats,
    stddev: Seq<char>,
    failed: nat,
    unsupported: nat,
    peak: Option<u64>,
    facts: Seq<Seq<char>>,
) -> Seq<Seq<char>> {
    seq![
        decimal(stats.count as nat),
        decimal(c.warmups as nat),
        decimal(stats.min_ms as nat),
        decimal(stats.median_ms as nat),
        decimal(stats.p90_ms as nat),
        decimal(stats.max_ms as nat),
        stddev,
        decimal(failed),
        decimal(unsupported),
        optional_decimal(peak),
    ] + facts + seq![
        Seq::empty(),
        Seq::empty(),
        Seq::empty(),
        Seq::empty(),
        c.metadata.os@,
        c.metadata.cpu_model@,
        c.metadata.logical_cores@,
        c.metadata.rustc@,
        c.metadata.build_profile@,
        c.metadata.git_dirty@,
        c.metadata.feature_flags@,
    ]
}

/// Appends the trailing report columns of a workload. `stddev_text` is the
/// samples' standard deviation as the report prints it.
pub fn append_v0_36_fields(
    record: &mut Vec<String>,
    context: &RunContext,
    stats: &SampleStats,
    stddev_text: &str,
    failed_samples: usize,
    unsupported_samples: usize,
    peak_rss_bytes: Option<u64>,
    plan_facts: &PlanFacts,
)
    ensures
        strings_view(final(record)@) == strings_view(old(record)@) + run_fields_spec(
            *context,
            *stats,
            stddev_text@,
            failed_samples as nat,
            unsupported_samples as nat,
            peak_rss_bytes,
            plan_facts_view(*plan_facts),
        ),
{
    let ghost start = strings_view(record@);
    record.push(decimal_string(stats.count));
    record.push(decimal_string(context.warmups));
    record.push(decimal_string_u128(stats.min_ms));
    record.push(decimal_string_u128(stats.median_ms));
    record.push(decimal_string_u128(stats.p90_ms));
    record.push(decimal_string_u128(stats.max_ms));
    record.push(copy_str(stddev_text));
    record.push(decimal_string(failed_samples));
    record.push(decimal_string(unsupported_samples));
    record.push(
        match peak_rss_bytes {
            Some(value) => decimal_string_u128(value as u128),
            None => String::new(),
        },
    );
    record.push(copy_string(&plan_facts.row_materialization));
    record.push(copy_string(&plan_facts.selected_engine));
    record.push(copy_string(&plan_facts.eligible_engine));
    record.push(copy_string(&plan_facts.fallback_reason));
    record.push(copy_string(&plan_facts.sink_strategy));
    record.push(copy_string(&plan_facts.source_boundary));
    record.push(copy_string(&plan_facts.required_source_columns));
    record.push(String::new());
    record.push(String::new());
    record.push(String::new());
    record.push(String::new());
    record.push(copy_string(&context.metadata.os));
    record.push(copy_string(&context.metadata.cpu_model));
    record.push(copy_string(&context.metadata.logical_cores));
    record.push(copy_string(&context.metadata.rustc));
    record.push(copy_string(&context.metadata.build_profile));
    record.push(copy_string(&context.metadata.git_dirty));
    record.push(copy_string(&context.metadata.feature_flags));
    assert(strings_view(record@) =~= start + run_fields_spec(
        *context,
        *stats,
        stddev_text@,
        failed_samples as nat,
        unsupported_samples as nat,
        peak_rss_bytes,
        plan_facts_view(*plan_facts),
    ));
}

/// Where a workload's log goes: `<name>-<engine>-<output format>.log` in
/// the run directory.
pub open spec fn log_path_spec(c: RunContext, w: Workload) -> Seq<char> {
    path_join_of(
        c.run_dir@,
        w.name@ + "-"@ + engine_label(c.record.engine) + "-"@ + w.output_format@ + ".log"@,
    )
}

/// The report row of a workload that could not be run at all: status
/// `failed`, the reason in its notes, one failed sample and no statistics.
pub open spec fn failure_record_spec(c: RunContext, w: Workload, notes: Seq<char>) -> Seq<Seq<char>> {
    base_record_spec(
        c.record,
        w,
        (
            "failed"@,
            Seq::empty(),
            Seq::empty(),
            relative_spec(c.root@, log_path_spec(c, w)),
            Seq::empty(),
            0,
            0,
            notes,
        ),
    ) + run_fields_spec(
        c,
        sample_stats_spec(Seq::empty()),
        "0.000"@,
        1,
        0,
        None,
        Seq::new(7, |i: int| Seq::<char>::empty()),
    )
}

/// The report row of a workload that could not be run at all.
pub fn failure_record(context: &RunContext, workload: &Workload, notes: &str) -> (r: Vec<String>)
    ensures
        strings_view(r@) == failure_record_spec(*context, *workload, notes@),
{
    let mut name = copy_str(workload.name);
    push_str(&mut name, "-");
    push_str(&mut name, context.record.engine.as_str());
    push_str(&mut name, "-");
    push_str(&mut name, workload.output_format);
    push_str(&mut name, ".log");
    let log_path = join_path(context.run_dir.as_str(), name.as_str());
    let fields = BaseRecordFields {
        status: copy_str("failed"),
        command: String::new(),
        output_path: String::new(),
        log_path: relative(context.root.as_str(), log_path.as_str()),
        output_rows: String::new(),
        output_bytes: 0,
        elapsed_ms: 0,
        notes: copy_str(notes),
    };
    let mut record = base_record(&context.record, workload, fields);
    let stats = sample_stats(&[]);
    let facts = PlanFacts::default();
    append_v0_36_fields(&mut record, context, &stats, "0.000", 1, 0, None, &facts);
    assert(plan_facts_view(facts) =~= Seq::new(7, |i: int| Seq::<char>::empty()));
    record
}

/// One timed run of a workload's command, as the harness observed it.
#[derive(Clone, Debug, Eq, PartialEq)]
pub struct SampleOutcome {
    pub elapsed_ms: u128,
    pub output_bytes: u64,
    pub output_rows: String,
    pub peak_rss_bytes: Option<u64>,
    pub unsupported: bool,
    pub failed: bool,
    pub output_path: String,
    pub log_path: String,
}

/// A workload's report row, and whether any of its samples failed.
#[derive(Clone, Debug, Eq, PartialEq)]
pub struct WorkloadRun {
    pub record: Vec<String>,
    pub failed: bool,
}

/// A sample that ran to completion on the requested engine.
pub open spec fn measured_sample(s: SampleOutcome) -> bool {
    !s.failed && !s.unsupported
}

/// The elapsed times of the measured samples, in order.
pub open spec fn measured_spec(samples: Seq<SampleOutcome>) -> Seq<u128>
    decreases samples.len(),
{
    if samples.len() == 0 {
        Seq::empty()
    } else {
        let rest = measured_spec(samples.drop_last());
        if measured_sample(samples.last()) {
            rest.push(samples.last().elapsed_ms)
        } else {
            rest
        }
    }
}

pub open spec fn failed_count(samples: Seq<SampleOutcome>) -> nat
    decreases samples.len(),
{
    if samples.len() == 0 {
        0
    } else {
        failed_count(samples.drop_last()) + if samples.last().failed {
            1nat
        } else {
            0nat
        }
    }
}

pub open spec fn unsupported_count(samples: Seq<SampleOutcome>) -> nat
    decreases samples.len(),
{
    if samples.len() == 0 {
        0
    } else {
        unsupported_count(samples.drop_last()) + if samples.last().unsupported {
            1nat
        } else {
            0nat
        }
    }
}

/// The largest peak memory any sample reported.
pub open spec fn peak_spec(samples: Seq<SampleOutcome>) -> Option<u64>
    decreases samples.len(),
{
    if samples.len() == 0 {
        None
    } else {
        let rest = peak_spec(samples.drop_last());
        match samples.last().peak_rss_bytes {
            None => rest,
            Some(v) => match rest {
                Some(m) => Some(if v > m {
                    v
                } else {
                    m
                }),
                None => Some(v),
            },
        }
    }
}

/// The position of the first measured sample.
pub open spec fn first_measured(samples: Seq<SampleOutcome>) -> Option<int>
    decreases samples.len(),
{
    if samples.len() == 0 {
        None
    } else {
        match first_measured(samples.drop_last()) {
            Some(i) => Some(i),
            None => if measured_sample(samples.last()) {
                Some(samples.len() - 1)
            } else {
                None
            },
        }
    }
}

/// The sample whose outputs the report row shows: the first measured
/// one, else the first.
pub open spec fn representative(samples: Seq<SampleOutcome>) -> SampleOutcome {
    match first_measured(samples) {
        Some(i) => samples[i],
        None => samples[0],
    }
}

pub open spec fn status_spec(samples: Seq<SampleOutcome>) -> Seq<char> {
    if failed_count(samples) > 0 {
        "failed"@
    } else if unsupported_count(samples) == samples.len() {
        "unsupported"@
    } else {
        "ok"@
    }
}

pub open spec fn notes_spec(c: RunContext, samples: Seq<SampleOutcome>) -> Seq<char> {
    if unsupported_count(samples) > 0 {
        "native unsupported"@
    } else {
        engine_label(c.record.engine)
    }
}

/// The command line a workload runs, as the report shows it.
pub open spec fn command_spec(c: RunContext, w: Workload) -> Seq<char> {
    relative_spec(c.root@, pdl_bin_spec(c.root@, c.profile)) + " run "@ + w.program@ + (if w.output_format@
        != "multi-csv"@ {
        " --stdout-format "@ + w.output_format@
    } else {
        Seq::empty()
    }) + " --engine "@ + engine_label(c.record.engine) + (match w.stdin_path {
        Some(p) => " < "@ + p@,
        None => Seq::empty(),
    })
}

/// The report row of a workload from its samples.
pub open spec fn workload_record_spec(
    c: RunContext,
    w: Workload,
    samples: Seq<SampleOutcome>,
    facts: PlanFacts,
    stddev: Seq<char>,
) -> Seq<Seq<char>> {
    let stats = sample_stats_spec(measured_spec(samples));
    let rep = representative(samples);
    base_record_spec(
        c.record,
        w,
        (
            status_spec(samples),
            command_spec(c, w),
            relative_spec(c.root@, rep.output_path@),
            relative_spec(c.root@, rep.log_path@),
            rep.output_rows@,
            rep.output_bytes,
            stats.median_ms,
            notes_spec(c, samples),
        ),
    ) + run_fields_spec(
        c,
        stats,
        stddev,
        failed_count(samples),
        unsupported_count(samples),
        peak_spec(samples),
        plan_facts_view(facts),
    )
}

/// The elapsed times of the samples that ran to completion on the
/// requested engine, in order: the values the statistics are taken of.
pub fn measured_samples(samples: &[SampleOutcome]) -> (r: Vec<u128>)
    ensures
        r@ == measured_spec(samples@),
{
    let mut out: Vec<u128> = Vec::new();
    let mut i: usize = 0;
    while i < samples.len()
        invariant
            i <= samples.len(),
            out@ == measured_spec(samples@.take(i as int)),
        decreases samples.len() - i,
    {
        if !samples[i].failed && !samples[i].unsupported {
            out.push(samples[i].elapsed_ms);
        }
        assert(samples@.take(i + 1).drop_last() =~= samples@.take(i as int));
        i += 1;
    }
    assert(samples@.take(samples.len() as int) =~= samples@);
    out
}

/// The command line a workload runs, as the report shows it.
pub fn command_text(context: &RunContext, workload: &Workload) -> (r: String)
    ensures
        r@ == command_spec(*context, *workload),
{
    let bin = pdl_bin(context.root.as_str(), context.profile);
    let mut out = relative(context.root.as_str(), bin.as_str());
    push_str(&mut out, " run ");
    push_str(&mut out, workload.program);
    match workload.stdout_format() {
        Some(format) => {
            push_str(&mut out, " --stdout-format ");
            push_str(&mut out, format);
        },
        None => {},
    }
    push_str(&mut out, " --engine ");
    push_str(&mut out, context.record.engine.as_str());
    match workload.stdin_path {
        Some(path) => {
            push_str(&mut out, " < ");
            push_str(&mut out, path);
        },
        None => {},
    }
    out
}

/// The report row of a workload from its timed samples (at least one) and
/// its plan's facts: the status says whether any sample failed or all were
/// unsupported; outputs come from the first measured sample, else the
/// first; the elapsed time is the median of the measured samples.
/// `stddev_text` is their standard deviation as the report prints it.
pub fn summarize_workload(
    context: &RunContext,
    workload: &Workload,
    samples: &[SampleOutcome],
    plan_facts: &PlanFacts,
    stddev_text: &str,
) -> (r: WorkloadRun)
    requires
        samples@.len() > 0,
    ensures
        strings_view(r.record@) == workload_record_spec(
            *context,
            *workload,
            samples@,
            *plan_facts,
            stddev_text@,
        ),
        r.failed == (failed_count(samples@) > 0),
{
    let mut failed_samples: usize = 0;
    let mut unsupported_samples: usize = 0;
    let mut peak: Option<u64> = None;
    let mut first: Option<usize> = None;
    let mut i: usize = 0;
    while i < samples.len()
        invariant
            i <= samples.len(),
            failed_samples == failed_count(samples@.take(i as int)),
            unsupported_samples == unsupported_count(samples@.take(i as int)),
            failed_samples <= i,
            unsupported_samples <= i,
            peak == peak_spec(samples@.take(i as int)),
            match first {
                Some(k) => first_measured(samples@.take(i as int)) == Some(k as int) && k < i,
                None => first_measured(samples@.take(i as int)) is None,
            },
        decreases samples.len() - i,
    {
        let sample = &samples[i];
        let ghost t = samples@.take(i + 1);
        assert(t.drop_last() =~= samples@.take(i as int));
        assert(t.last() == samples@[i as int]);
        if sample.failed {
            failed_samples += 1;
        }
        if sample.unsupported {
            unsupported_samples += 1;
        }
        match sample.peak_rss_bytes {
            Some(v) => {
                peak = match peak {
                    Some(m) => Some(if v > m { v } else { m }),
                    None => Some(v),
                };
            },
            None => {},
        }
        if first.is_none() && !sample.failed && !sample.unsupported {
            first = Some(i);
        }
        i += 1;
    }
    assert(samples@.take(samples.len() as int) =~= samples@);
    let measured = measured_samples(samples);
    let stats = sample_stats(measured.as_slice());
    let status = if failed_samples > 0 {
        "failed"
    } else if unsupported_samples == samples.len() {
        "unsupported"
    } else {
        "ok"
    };
    let rep = match first {
        Some(k) => &samples[k],
        None => &samples[0],
    };
    let notes = if unsupported_samples > 0 {
        "native unsupported"
    } else {
        context.record.engine.as_str()
    };
    let fields = BaseRecordFields {
        status: copy_str(status),
        command: command_text(context, workload),
        output_path: relative(context.root.as_str(), rep.output_path.as_str()),
        log_path: relative(context.root.as_str(), rep.log_path.as_str()),
        output_rows: copy_string(&rep.output_rows),
        output_bytes: rep.output_bytes,
        elapsed_ms: stats.median_ms,
        notes: copy_str(notes),
    };
    let mut record = base_record(&context.record, workload, fields);
    append_v0_36_fields(
        &mut record,
        context,
        &stats,
        stddev_text,
        failed_samples,
        unsupported_samples,
        peak,
        plan_facts,
    );
    WorkloadRun { record, failed: failed_samples > 0 }
}

/// `n` in decimal, with a leading zero below ten.
pub open spec fn two_digits(n: nat) -> Seq<char> {
    if n < 10 {
        seq!['0'] + decimal(n)
    } else {
        decimal(n)
    }
}

/// What tells the runs of a workload apart when each workload runs more
/// than once: `-warmupNN` or `-sampleNN`, numbered from `01`.
pub open spec fn run_suffix_spec(c: RunContext, index: nat, warmup: bool) -> Seq<char> {
    if c.samples + c.warmups > 1 {
        (if warmup {
            "-warmup"@
        } else {
            "-sample"@
        }) + two_digits(index + 1)
    } else {
        Seq::empty()
    }
}

/// The common stem of a run's output and log file names.
pub open spec fn run_stem_spec(c: RunContext, w: Workload, index: nat, warmup: bool) -> Seq<char> {
    w.name@ + "-"@ + engine_label(c.record.engine) + "-"@ + w.output_format@ + run_suffix_spec(
        c,
        index,
        warmup,
    )
}

/// Where one run of a workload writes its output and its log, in the run
/// directory.
pub open spec fn run_paths_spec(c: RunContext, w: Workload, index: nat, warmup: bool) -> (Seq<char>, Seq<char>) {
    let stem = run_stem_spec(c, w, index, warmup);
    (
        path_join_of(c.run_dir@, stem + "."@ + extension_spec(w.output_format@)),
        path_join_of(c.run_dir@, stem + ".log"@),
    )
}

/// The output and log paths of the `index`th warmup or sample run of a
/// workload.
pub fn run_paths(context: &RunContext, workload: &Workload, index: usize, warmup: bool) -> (r: (String, String))
    requires
        index < usize::MAX,
    ensures
        (r.0@, r.1@) == run_paths_spec(*context, *workload, index as nat, warmup),
{
    let mut stem = copy_str(workload.name);
    push_str(&mut stem, "-");
    push_str(&mut stem, context.record.engine.as_str());
    push_str(&mut stem, "-");
    push_str(&mut stem, workload.output_format);
    let ghost head = stem@;
    if (context.samples as u128) + (context.warmups as u128) > 1 {
        push_str(&mut stem, if warmup { "-warmup" } else { "-sample" });
        let number = index + 1;
        let ghost before = stem@;
        if number < 10 {
            push_char(&mut stem, '0');
        }
        push_decimal(&mut stem, number);
        assert(stem@ =~= before + two_digits(number as nat));
        assert(stem@ =~= head + run_suffix_spec(*context, index as nat, warmup));
    } else {
        assert(stem@ =~= head + run_suffix_spec(*context, index as nat, warmup));
    }
    assert(stem@ == run_stem_spec(*context, *workload, index as nat, warmup));
    let mut output_name = copy_string(&stem);
    push_str(&mut output_name, ".");
    push_str(&mut output_name, extension_for_format(workload.output_format));
    let mut log_name = copy_string(&stem);
    push_str(&mut log_name, ".log");
    (
        join_path(context.run_dir.as_str(), output_name.as_str()),
        join_path(context.run_dir.as_str(), log_name.as_str()),
    )
}

/// A native-engine run that reported the engine's refusal code in its log.
pub open spec fn unsupported_run(c: RunContext, log_text: Seq<char>) -> bool {
    c.record.engine == BenchmarkEngine::Native && occurs_in(log_text, "E1211"@)
}

/// What one timed run of a workload came to, from what the harness saw of
/// it: its output and log paths (given relative to the root), its elapsed
/// time, whether the command succeeded, the size of its output, the data
/// rows of its output where that is CSV, and its log. A native run whose
/// log reports the engine's refusal is unsupported rather than failed.
/// `bytes_units` says how the platform's `time` reports peak memory (see
/// `parse_peak_rss_bytes`).
pub open spec fn sample_outcome_spec(
    c: RunContext,
    w: Workload,
    output_path: Seq<char>,
    log_path: Seq<char>,
    elapsed_ms: u128,
    succeeded: bool,
    output_bytes: u64,
    csv_rows: Option<usize>,
    log_text: Seq<char>,
    bytes_units: bool,
    r: SampleOutcome,
) -> bool {
    let unsupported = unsupported_run(c, log_text);
    &&& r.elapsed_ms == elapsed_ms
    &&& r.output_bytes == output_bytes
    &&& r.output_rows@ == (if w.output_format@ == "csv"@ && succeeded {
        match csv_rows {
            Some(n) => decimal(n as nat),
            None => Seq::empty(),
        }
    } else {
        Seq::empty()
    })
    &&& r.peak_rss_bytes == peak_rss_spec(split_newlines(log_text), bytes_units)
    &&& r.unsupported == unsupported
    &&& r.failed == (!succeeded && !unsupported)
    &&& r.output_path@ == relative_spec(c.root@, output_path)
    &&& r.log_path@ == relative_spec(c.root@, log_path)
}

/// What one timed run of a workload came to (see `sample_outcome_spec`).
pub fn sample_outcome(
    context: &RunContext,
    workload: &Workload,
    output_path: &str,
    log_path: &str,
    elapsed_ms: u128,
    succeeded: bool,
    output_bytes: u64,
    csv_rows: Option<usize>,
    log_text: &str,
    bytes_units: bool,
) -> (r: SampleOutcome)
    ensures
        sample_outcome_spec(
            *context,
            *workload,
            output_path@,
            log_path@,
            elapsed_ms,
            succeeded,
            output_bytes,
            csv_rows,
            log_text@,
            bytes_units,
            r,
        ),
{
    let output_rows = if str_eq(workload.output_format, "csv") && succeeded {
        match csv_rows {
            Some(n) => decimal_string(n),
            None => String::new(),
        }
    } else {
        String::new()
    };
    let native = match context.record.engine {
        BenchmarkEngine::Native => true,
        _ => false,
    };
    let unsupported = native && str_contains(log_text, "E1211");
    SampleOutcome {
        elapsed_ms,
        output_bytes,
        output_rows,
        peak_rss_bytes: parse_peak_rss_bytes(log_text, bytes_units),
        unsupported,
        failed: !succeeded && !unsupported,
        output_path: relative(context.root.as_str(), output_path),
        log_path: relative(context.root.as_str(), log_path),
    }
}

/// A line without the `\r` of a `\r\n` ending.
pub open spec fn without_cr(line: Seq<char>) -> Seq<char> {
    if line.len() > 0 && line.last() == '\r' {
        line.drop_last()
    } else {
        line
    }
}

/// The lines of `cs` as `str::lines` gives them: split at each `\n`, with
/// a `\r` just before it dropped, and no empty last line after a final
/// newline.
pub open spec fn text_lines_spec(cs: Seq<char>) -> Seq<Seq<char>> {
    let pieces = split_newlines(cs);
    let ended = Seq::new((pieces.len() - 1) as nat, |i: int| without_cr(pieces[i]));
    if pieces.last().len() == 0 {
        ended
    } else {
        ended.push(pieces.last())
    }
}

/// The lines of `text` (`str::lines`).
pub fn text_lines(text: &str) -> (r: Vec<String>)
    ensures
        strings_view(r@) == text_lines_spec(text@),
{
    let cs = chars_of(text);
    let pieces = split_lines(&cs);
    proof {
        lemma_split_newlines_nonempty(cs@);
    }
    let ghost ps = split_newlines(text@);
    let last = pieces.len() - 1;
    let mut out: Vec<String> = Vec::new();
    let mut i: usize = 0;
    while i < last
        invariant
            i <= last,
            last == pieces.len() - 1,
            ps == lines_view(pieces@),
            strings_view(out@) == Seq::new(i as nat, |k: int| without_cr(ps[k])),
        decreases last - i,
    {
        let piece = &pieces[i];
        let n = piece.len();
        let line = if n > 0 && piece[n - 1] == '\r' {
            string_from_chars(vstd::slice::slice_subrange(piece.as_slice(), 0, n - 1))
        } else {
            string_from_chars(piece.as_slice())
        };
        proof {
            assert(ps[i as int] == piece@);
            if n > 0 && piece@[n - 1] == '\r' {
                assert(piece@.subrange(0, n - 1) =~= piece@.drop_last());
            }
            assert(line@ == without_cr(ps[i as int]));
        }
        let ghost before = strings_view(out@);
        out.push(line);
        assert(strings_view(out@) =~= before.push(without_cr(ps[i as int])));
        assert(strings_view(out@) =~= Seq::new((i + 1) as nat, |k: int| without_cr(ps[k])));
        i += 1;
    }
    if pieces[last].len() > 0 {
        out.push(string_from_chars(pieces[last].as_slice()));
    }
    assert(strings_view(out@) =~= text_lines_spec(text@));
    out
}

fn is_empty_text(text: &str) -> (r: bool)
    ensures
        r == (text@.len() == 0),
{
    chars_of(text).len() == 0
}

/// `text` without leading and trailing whitespace (`str::trim`).
fn trim_text(text: &str) -> (r: String)
    ensures
        r@ == trim_spec(text@),
{
    let cs = chars_of(text);
    trimmed(&cs)
}

/// What a `git describe` of the checkout printed, trimmed; `unknown` where
/// it printed nothing or could not be run (`None`).
pub open spec fn git_ref_spec(output: Option<Seq<char>>) -> Seq<char> {
    match output {
        Some(text) => if trim_spec(text).len() > 0 {
            trim_spec(text)
        } else {
            "unknown"@
        },
        None => "unknown"@,
    }
}

/// The checkout's revision from the output of `git describe --tags
/// --always --dirty` (`None` where it failed).
pub fn git_ref_text(output: Option<&str>) -> (r: String)
    ensures
        r@ == git_ref_spec(match output {
            Some(text) => Some(text@),
            None => None,
        }),
{
    match output {
        Some(text) => {
            let value = trim_text(text);
            if !is_empty_text(value.as_str()) {
                value
            } else {
                copy_str("unknown")
            }
        },
        None => copy_str("unknown"),
    }
}

/// The text after the first `:` of `s`, if it has one.
pub open spec fn after_colon(s: Seq<char>) -> Option<Seq<char>>
    decreases s.len(),
{
    if s.len() == 0 {
        None
    } else if s[0] == ':' {
        Some(s.drop_first())
    } else {
        after_colon(s.drop_first())
    }
}

/// The model that a `/proc/cpuinfo` line names, if it is a `model name`
/// line with a colon: the text after the colon, trimmed.
pub open spec fn model_name_value(line: Seq<char>) -> Option<Seq<char>> {
    if "model name"@.is_prefix_of(line) {
        match after_colon(line.skip("model name"@.len() as int)) {
            Some(value) => Some(trim_spec(value)),
            None => None,
        }
    } else {
        None
    }
}

/// The model named by the first `model name` line.
pub open spec fn first_model_name(lines: Seq<Seq<char>>) -> Option<Seq<char>>
    decreases lines.len(),
{
    if lines.len() == 0 {
        None
    } else {
        match first_model_name(lines.drop_last()) {
            Some(m) => Some(m),
            None => model_name_value(lines.last()),
        }
    }
}

/// The processor's model, from the output of `sysctl -n
/// machdep.cpu.brand_string` on systems that have it, or else from the
/// text of `/proc/cpuinfo` on systems that have it (`None` where a source
/// does not apply); `unknown` where neither names one.
pub open spec fn cpu_model_spec(sysctl: Option<Seq<char>>, cpuinfo: Option<Seq<char>>) -> Seq<char> {
    let from_sysctl = match sysctl {
        Some(out) => if trim_spec(out).len() > 0 && trim_spec(out) != "unknown"@ {
            Some(trim_spec(out))
        } else {
            None
        },
        None => None,
    };
    match from_sysctl {
        Some(m) => m,
        None => match cpuinfo {
            Some(text) => match first_model_name(text_lines_spec(text)) {
                Some(m) => m,
                None => "unknown"@,
            },
            None => "unknown"@,
        },
    }
}

pub open spec fn opt_text(t: Option<&str>) -> Option<Seq<char>> {
    match t {
        Some(s) => Some(s@),
        None => None,
    }
}

fn model_name_of(line: &String) -> (r: Option<String>)
    ensures
        match r {
            Some(m) => model_name_value(line@) == Some(m@),
            None => model_name_value(line@) is None,
        },
{
    let cs = chars_of(line.as_str());
    let prefix = chars_of("model name");
    if cs.len() < prefix.len() {
        return None;
    }
    let mut i: usize = 0;
    while i < prefix.len()
        invariant
            i <= prefix.len() <= cs.len(),
            cs@ == line@,
            prefix@ == "model name"@,
            forall|k: int| 0 <= k < i ==> cs@[k] == prefix@[k],
        decreases prefix.len() - i,
    {
        if cs[i] != prefix[i] {
            assert(!"model name"@.is_prefix_of(line@)) by {
                if "model name"@.is_prefix_of(line@) {
                    assert(line@.subrange(0, prefix@.len() as int)[i as int] == line@[i as int]);
                }
            }
            return None;
        }
        i += 1;
    }
    assert("model name"@.is_prefix_of(line@)) by {
        assert(line@.subrange(0, prefix@.len() as int) =~= prefix@);
    }
    let ghost rest = line@.skip(prefix@.len() as int);
    let mut j: usize = prefix.len();
    while j < cs.len()
        invariant
            prefix.len() <= j <= cs.len(),
            cs@ == line@,
            prefix@ == "model name"@,
            "model name"@.is_prefix_of(line@),
            rest == line@.skip(prefix@.len() as int),
            after_colon(rest) == after_colon(cs@.skip(j as int)),
        decreases cs.len() - j,
    {
        if cs[j] == ':' {
            let value = string_from_chars(vstd::slice::slice_subrange(cs.as_slice(), j + 1, cs.len()));
            proof {
                assert(cs@.skip(j as int)[0] == ':');
                assert(cs@.skip(j as int).drop_first() =~= cs@.subrange(j + 1, cs@.len() as int));
            }
            let trimmed_value = trim_text(value.as_str());
            assert(after_colon(rest) == Some(value@));
            return Some(trimmed_value);
        }
        assert(cs@.skip(j as int).drop_first() =~= cs@.skip(j + 1));
        j += 1;
    }
    None
}

/// The processor's model (see `cpu_model_spec`).
pub fn cpu_model_text(sysctl: Option<&str>, cpuinfo: Option<&str>) -> (r: String)
    ensures
        r@ == cpu_model_spec(opt_text(sysctl), opt_text(cpuinfo)),
{
    match sysctl {
        Some(out) => {
            let model = trim_text(out);
            if !is_empty_text(model.as_str()) && !str_eq(model.as_str(), "unknown") {
                return model;
            }
        },
        None => {},
    }
    match cpuinfo {
        Some(text) => {
            let lines = text_lines(text);
            let ghost ls = text_lines_spec(text@);
            assert(cpu_model_spec(opt_text(sysctl), opt_text(cpuinfo)) == match first_model_name(ls) {
                Some(m) => m,
                None => "unknown"@,
            });
            let mut i: usize = 0;
            while i < lines.len()
                invariant
                    i <= lines.len(),
                    strings_view(lines@) == ls,
                    cpu_model_spec(opt_text(sysctl), opt_text(cpuinfo)) == match first_model_name(ls) {
                        Some(m) => m,
                        None => "unknown"@,
                    },
                    first_model_name(ls.take(i as int)) is None,
                decreases lines.len() - i,
            {
                let found = model_name_of(&lines[i]);
                assert(ls.take(i + 1).drop_last() =~= ls.take(i as int));
                assert(ls[i as int] == lines@[i as int]@);
                match found {
                    Some(model) => {
                        proof {
                            lemma_first_model_name_prefix(ls, i + 1);
                        }
                        return model;
                    },
                    None => {},
                }
                i += 1;
            }
            assert(ls.take(lines.len() as int) =~= ls);
            copy_str("unknown")
        },
        None => copy_str("unknown"),
    }
}

proof fn lemma_first_model_name_prefix(lines: Seq<Seq<char>>, i: int)
    requires
        0 <= i <= lines.len(),
        first_model_name(lines.take(i)) is Some,
    ensures
        first_model_name(lines) == first_model_name(lines.take(i)),
    decreases lines.len(),
{
    if i == lines.len() {
        assert(lines.take(i) =~= lines);
    } else {
        let shorter = lines.drop_last();
        assert(shorter.take(i) =~= lines.take(i));
        lemma_first_model_name_prefix(shorter, i);
    }
}

impl SystemMetadata {
    /// The machine and build of a run from what the harness asked the
    /// system: the output of `uname -a`, the processor model, the number of
    /// logical cores (if known), the output of `rustc -V`, the build
    /// profile and the output of `git status --short`. The checkout is
    /// dirty when git lists anything.
    pub fn from_outputs(
        uname: &str,
        cpu_model: String,
        logical_cores: Option<usize>,
        rustc: &str,
        profile: BuildProfile,
        git_status: &str,
    ) -> (r: Self)
        ensures
            r.os@ == trim_spec(uname@),
            r.cpu_model@ == cpu_model@,
            r.logical_cores@ == (match logical_cores {
                Some(n) => decimal(n as nat),
                None => "unknown"@,
            }),
            r.rustc@ == trim_spec(rustc@),
            r.build_profile@ == profile_dir(profile),
            r.git_dirty@ == (if trim_spec(git_status@).len() > 0 {
                "true"@
            } else {
                "false"@
            }),
            r.feature_flags@ == "default"@,
    {
        let status = trim_text(git_status);
        SystemMetadata {
            os: trim_text(uname),
            cpu_model,
            logical_cores: match logical_cores {
                Some(n) => decimal_string(n),
                None => copy_str("unknown"),
            },
            rustc: trim_text(rustc),
            build_profile: copy_str(profile.dir()),
            git_dirty: if is_empty_text(status.as_str()) {
                copy_str("false")
            } else {
                copy_str("true")
            },
            feature_flags: copy_str("default"),
        }
    }
}

/// Lines, each indented by two spaces and ended by a newline.
pub open spec fn indented(lines: Seq<Seq<char>>) -> Seq<char>
    decreases lines.len(),
{
    if lines.len() == 0 {
        Seq::empty()
    } else {
        indented(lines.drop_last()) + "  "@ + lines.last() + "\n"@
    }
}

/// The short git status as the environment file lists it: `clean` where
/// there is nothing to list.
pub open spec fn status_block(git_status: Seq<char>) -> Seq<char> {
    if trim_spec(git_status).len() == 0 {
        "  clean\n"@
    } else {
        indented(text_lines_spec(git_status))
    }
}

/// The environment file written beside a baseline report.
pub open spec fn environment_spec(
    repo: Seq<char>,
    run_label: Seq<char>,
    baseline: Seq<char>,
    snapshot_timestamp: Seq<char>,
    source_report: Seq<char>,
    git_ref: Seq<char>,
    git_status: Seq<char>,
    uname: Seq<char>,
    rustc: Seq<char>,
    cargo: Seq<char>,
) -> Seq<char> {
    "repo: "@ + repo + "\n"@ + "baseline: "@ + baseline + "\n"@ + "run_label: "@ + run_label + "\n"@
        + "snapshot_timestamp_utc: "@ + snapshot_timestamp + "\n"@ + "source_report: "@
        + source_report + "\n"@ + "git_ref: "@ + git_ref + "\n"@ + "git_status_short:\n"@
        + status_block(git_status) + "system: "@ + trim_spec(uname) + "\n"@ + "rustc: "@
        + trim_spec(rustc) + "\n"@ + "cargo: "@ + trim_spec(cargo) + "\n"@
        + "run_command: cargo run -p pdl-bench -- run --suite large --run-label "@ + run_label
        + "\n"@
}

fn push_status_block(out: &mut String, git_status: &str)
    ensures
        final(out)@ == old(out)@ + status_block(git_status@),
{
    let status = trim_text(git_status);
    if is_empty_text(status.as_str()) {
        push_str(out, "  clean\n");
        return;
    }
    let lines = text_lines(git_status);
    let ghost ls = text_lines_spec(git_status@);
    let ghost start = out@;
    let mut i: usize = 0;
    while i < lines.len()
        invariant
            i <= lines.len(),
            strings_view(lines@) == ls,
            out@ == start + indented(ls.take(i as int)),
        decreases lines.len() - i,
    {
        push_str(out, "  ");
        push_str(out, lines[i].as_str());
        push_str(out, "\n");
        proof {
            assert(ls.take(i + 1).drop_last() =~= ls.take(i as int));
            assert(ls[i as int] == lines@[i as int]@);
            assert(out@ =~= start + indented(ls.take(i + 1)));
        }
        i += 1;
    }
    assert(ls.take(lines.len() as int) =~= ls);
}

/// The environment file written beside a baseline report: the repository,
/// baseline and run labels, when the snapshot was taken, the report it was
/// taken from, the checkout's revision and status, and the outputs of
/// `uname -a`, `rustc -V` and `cargo -V` (trimmed), then the command that
/// reproduces the run.
pub fn environment_text(
    repo: &str,
    run_label: &str,
    baseline: &str,
    snapshot_timestamp: &str,
    source_report: &str,
    git_ref: &str,
    git_status: &str,
    uname: &str,
    rustc: &str,
    cargo: &str,
) -> (r: String)
    ensures
        r@ == environment_spec(
            repo@,
            run_label@,
            baseline@,
            snapshot_timestamp@,
            source_report@,
            git_ref@,
            git_status@,
            uname@,
            rustc@,
            cargo@,
        ),
{
    let mut out = copy_str("repo: ");
    push_str(&mut out, repo);
    push_str(&mut out, "\n");
    push_str(&mut out, "baseline: ");
    push_str(&mut out, baseline);
    push_str(&mut out, "\n");
    push_str(&mut out, "run_label: ");
    push_str(&mut out, run_label);
    push_str(&mut out, "\n");
    push_str(&mut out, "snapshot_timestamp_utc: ");
    push_str(&mut out, snapshot_timestamp);
    push_str(&mut out, "\n");
    push_str(&mut out, "source_report: ");
    push_str(&mut out, source_report);
    push_str(&mut out, "\n");
    push_str(&mut out, "git_ref: ");
    push_str(&mut out, git_ref);
    push_str(&mut out, "\n");
    push_str(&mut out, "git_status_short:\n");
    push_status_block(&mut out, git_status);
    push_str(&mut out, "system: ");
    let system = trim_text(uname);
    push_str(&mut out, system.as_str());
    push_str(&mut out, "\n");
    push_str(&mut out, "rustc: ");
    let rustc_version = trim_text(rustc);
    push_str(&mut out, rustc_version.as_str());
    push_str(&mut out, "\n");
    push_str(&mut out, "cargo: ");
    let cargo_version = trim_text(cargo);
    push_str(&mut out, cargo_version.as_str());
    push_str(&mut out, "\n");
    push_str(&mut out, "run_command: cargo run -p pdl-bench -- run --suite large --run-label ");
    push_str(&mut out, run_label);
    push_str(&mut out, "\n");
    out
}

/// How many data rows a CSV output holds: its lines but the header.
pub open spec fn csv_data_rows_spec(text: Seq<char>) -> nat {
    if text_lines_spec(text).len() == 0 {
        0
    } else {
        (text_lines_spec(text).len() - 1) as nat
    }
}

/// How many data rows the text of a CSV output holds: its lines, less the
/// header line.
pub fn csv_data_rows(text: &str) -> (r: usize)
    ensures
        r == csv_data_rows_spec(text@),
{
    let lines = text_lines(text);
    proof {
        assert(strings_view(lines@).len() == lines@.len());
    }
    if lines.len() == 0 {
        0
    } else {
        lines.len() - 1
    }
}

} // verus!
