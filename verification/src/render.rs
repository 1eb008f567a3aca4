//! What the command-line tools print about schemas and driver plans: the
//! schema text and the plain records that are serialized as JSON.
use vstd::prelude::*;

use crate::format::canonical_name_spec;
use crate::plan::{
    dependency_view, effective_name_spec, format_view, label_view, opt_text_view, sink_view,
    source_view, DriverPlan, FormatDecision, PipelineLabel, SinkDescriptor, SniffingDecision,
    SniffingReason, SourceDescriptor, StreamDirection, StreamKind,
};
use crate::span::Span;
use crate::text::{copy_str, copy_string, push_char, push_str};

verus! {

// ---------------------------------------------------------------------------
// Schema text
// ---------------------------------------------------------------------------

/// The lines listing `columns` under the `columns:` heading.
pub open spec fn column_lines(columns: Seq<Seq<char>>) -> Seq<char>
    decreases columns.len(),
{
    if columns.len() == 0 {
        Seq::empty()
    } else {
        column_lines(columns.drop_last()) + "  - "@ + columns.last() + "\n"@
    }
}

/// The schema as text: `columns:` and one `  - name` line per column.
pub fn render_schema_text(columns: &[String]) -> (r: String)
    ensures
        r@ == "columns:\n"@ + column_lines(columns@.map_values(|c: String| c@)),
{
    let ghost names = columns@.map_values(|c: String| c@);
    let mut text = copy_str("columns:\n");
    let mut i: usize = 0;
    while i < columns.len()
        invariant
            i <= columns.len(),
            names == columns@.map_values(|c: String| c@),
            text@ == "columns:\n"@ + column_lines(names.take(i as int)),
        decreases columns.len() - i,
    {
        push_str(&mut text, "  - ");
        push_str(&mut text, columns[i].as_str());
        push_str(&mut text, "\n");
        i += 1;
        proof {
            assert(names.take(i as int).drop_last() =~= names.take(i - 1));
            assert(names.take(i as int).last() == columns@[i - 1]@);
        }
    }
    assert(names.take(columns.len() as int) =~= names);
    text
}

// ---------------------------------------------------------------------------
// Schema records
// ---------------------------------------------------------------------------

/// One column of a schema as it is serialized.
#[derive(Clone, Debug, Eq, PartialEq)]
pub struct ColumnJson {
    pub name: String,
    pub logical_type: &'static str,
    pub nullable: bool,
}

/// A schema as it is serialized.
#[derive(Clone, Debug, Eq, PartialEq)]
pub struct SchemaJson {
    pub columns: Vec<ColumnJson>,
}

impl SchemaJson {
    /// Columns of unknown type, all nullable, with the given names.
    pub fn from_columns(columns: Vec<String>) -> (r: Self)
        ensures
            r.columns.len() == columns.len(),
            forall|i: int|
                0 <= i < columns.len() ==> (#[trigger] r.columns@[i]).name@ == columns@[i]@
                    && r.columns@[i].logical_type@ == "unknown"@ && r.columns@[i].nullable,
    {
        let mut out: Vec<ColumnJson> = Vec::new();
        let mut i: usize = 0;
        while i < columns.len()
            invariant
                i <= columns.len(),
                out.len() == i,
                forall|k: int|
                    0 <= k < i ==> (#[trigger] out@[k]).name@ == columns@[k]@ && out@[k].logical_type@
                        == "unknown"@ && out@[k].nullable,
            decreases columns.len() - i,
        {
            out.push(ColumnJson { name: copy_string(&columns[i]), logical_type: "unknown", nullable: true });
            i += 1;
        }
        SchemaJson { columns: out }
    }
}

// ---------------------------------------------------------------------------
// Plan text
// ---------------------------------------------------------------------------

/// How a pipeline label reads: `main`, `binding:NAME` or `output:NAME`.
pub open spec fn label_text_spec(l: (int, Seq<char>)) -> Seq<char> {
    if l.0 == 0 {
        "main"@
    } else if l.0 == 1 {
        "binding:"@ + l.1
    } else {
        "output:"@ + l.1
    }
}

pub fn pipeline_label_text(label: &PipelineLabel) -> (r: String)
    ensures
        r@ == label_text_spec(label_view(*label)),
{
    match label {
        PipelineLabel::Main => copy_str("main"),
        PipelineLabel::Binding(name) => {
            let mut t = copy_str("binding:");
            push_str(&mut t, name.as_str());
            t
        },
        PipelineLabel::Output(name) => {
            let mut t = copy_str("output:");
            push_str(&mut t, name.as_str());
            t
        },
    }
}

pub fn source_text(source: &SourceDescriptor) -> (r: String)
    ensures
        r@ == (match source_view(*source) {
            Some((logical, _)) => logical,
            None => "stdin"@,
        }),
{
    source.display_name()
}

pub fn sink_text(sink: &SinkDescriptor) -> (r: String)
    ensures
        r@ == (match sink_view(*sink) {
            Some((logical, _)) => logical,
            None => "stdout"@,
        }),
{
    sink.display_name()
}

pub open spec fn sniffing_reason_spec(reason: SniffingReason) -> Seq<char> {
    match reason {
        SniffingReason::StdinWithoutExplicitFormat => "stdin-without-explicit-format"@,
        SniffingReason::StdoutWithoutExplicitFormat => "stdout-without-explicit-format"@,
        SniffingReason::PathWithoutKnownExtension => "path-without-known-extension"@,
    }
}

pub fn sniffing_reason_text(reason: &SniffingReason) -> (r: &'static str)
    ensures
        r@ == sniffing_reason_spec(*reason),
{
    match reason {
        SniffingReason::StdinWithoutExplicitFormat => "stdin-without-explicit-format",
        SniffingReason::StdoutWithoutExplicitFormat => "stdout-without-explicit-format",
        SniffingReason::PathWithoutKnownExtension => "path-without-known-extension",
    }
}

pub fn stream_kind_text(stream: StreamKind) -> (r: &'static str)
    ensures
        r@ == (match stream {
            StreamKind::Stdin => "stdin"@,
            StreamKind::Stdout => "stdout"@,
        }),
{
    match stream {
        StreamKind::Stdin => "stdin",
        StreamKind::Stdout => "stdout",
    }
}

pub fn stream_direction_text(direction: StreamDirection) -> (r: &'static str)
    ensures
        r@ == (match direction {
            StreamDirection::Read => "read"@,
            StreamDirection::Write => "write"@,
        }),
{
    match direction {
        StreamDirection::Read => "read",
        StreamDirection::Write => "write",
    }
}

// ---------------------------------------------------------------------------
// Plan records
// ---------------------------------------------------------------------------

/// The sniffing state as it is serialized.
#[derive(Clone, Copy, Debug, Eq, PartialEq)]
pub enum SniffingJson {
    NotNeeded,
    Deferred { reason: &'static str },
}

/// A format decision as it is serialized.
#[derive(Clone, Debug, Eq, PartialEq)]
pub struct FormatDecisionJson {
    pub explicit: Option<String>,
    pub inferred_from_path: Option<String>,
    pub effective: String,
    pub sniffing: SniffingJson,
}

/// An input as it is serialized.
#[derive(Clone, Debug, Eq, PartialEq)]
pub struct InputJson {
    pub pipeline: String,
    pub source: String,
    pub format: FormatDecisionJson,
    pub span: Span,
    pub stage_span: Span,
}

/// An output as it is serialized.
#[derive(Clone, Debug, Eq, PartialEq)]
pub struct SinkJson {
    pub pipeline: String,
    pub sink: String,
    pub format: FormatDecisionJson,
    pub span: Span,
    pub stage_span: Span,
}

/// A dependency as it is serialized.
#[derive(Clone, Debug, Eq, PartialEq)]
pub struct DependencyJson {
    pub logical_path: String,
    pub resolved_path: String,
    pub inferred_format: Option<String>,
    pub span: Span,
}

/// A stream use as it is serialized.
#[derive(Clone, Debug, Eq, PartialEq)]
pub struct StreamJson {
    pub pipeline: String,
    pub stream: &'static str,
    pub direction: &'static str,
    pub explicit_format: Option<String>,
    pub span: Span,
}

/// A driver plan as it is serialized.
#[derive(Clone, Debug, Eq, PartialEq)]
pub struct DriverPlanJson {
    pub source_path: String,
    pub base_dir: String,
    pub inputs: Vec<InputJson>,
    pub sinks: Vec<SinkJson>,
    pub dependencies: Vec<DependencyJson>,
    pub streams: Vec<StreamJson>,
}

/// The serialized form of a format decision, as plain values.
pub open spec fn format_json_spec(f: (Option<Seq<char>>, Option<crate::format::DataFormat>, SniffingDecision)) -> (
    Option<Seq<char>>,
    Option<Seq<char>>,
    Seq<char>,
    Option<Seq<char>>,
) {
    (
        f.0,
        match f.1 {
            Some(format) => Some(canonical_name_spec(format)),
            None => None,
        },
        effective_name_spec(f),
        match f.2 {
            SniffingDecision::NotNeeded => None,
            SniffingDecision::Deferred { reason } => Some(sniffing_reason_spec(reason)),
        },
    )
}

pub open spec fn format_json_view(j: FormatDecisionJson) -> (
    Option<Seq<char>>,
    Option<Seq<char>>,
    Seq<char>,
    Option<Seq<char>>,
) {
    (
        opt_text_view(j.explicit),
        opt_text_view(j.inferred_from_path),
        j.effective@,
        match j.sniffing {
            SniffingJson::NotNeeded => None,
            SniffingJson::Deferred { reason } => Some(reason@),
        },
    )
}

fn copy_opt(o: &Option<String>) -> (r: Option<String>)
    ensures
        opt_text_view(r) == opt_text_view(*o),
{
    match o {
        Some(s) => Some(copy_string(s)),
        None => None,
    }
}

/// The serialized form of a format decision.
pub fn format_decision_json(format: &FormatDecision) -> (r: FormatDecisionJson)
    ensures
        format_json_view(r) == format_json_spec(format_view(*format)),
{
    FormatDecisionJson {
        explicit: copy_opt(&format.explicit),
        inferred_from_path: match format.inferred_from_path {
            Some(f) => Some(copy_str(f.canonical_name())),
            None => None,
        },
        effective: format.effective_name(),
        sniffing: match &format.sniffing {
            SniffingDecision::NotNeeded => SniffingJson::NotNeeded,
            SniffingDecision::Deferred { reason } => SniffingJson::Deferred { reason: sniffing_reason_text(reason) },
        },
    }
}

/// The serialized form of a driver plan: every record of the plan, in plan
/// order, with labels, sources and sinks as text.
pub fn driver_plan_json(plan: &DriverPlan) -> (r: DriverPlanJson)
    ensures
        r.source_path@ == plan.source_path@,
        r.base_dir@ == plan.base_dir@,
        r.inputs.len() == plan.inputs.len(),
        forall|i: int|
            0 <= i < plan.inputs.len() ==> {
                let j = #[trigger] r.inputs@[i];
                let p = plan.inputs@[i];
                &&& j.pipeline@ == label_text_spec(label_view(p.pipeline))
                &&& j.source@ == (match source_view(p.source) {
                    Some((logical, _)) => logical,
                    None => "stdin"@,
                })
                &&& format_json_view(j.format) == format_json_spec(format_view(p.format))
                &&& j.span == p.span
                &&& j.stage_span == p.stage_span
            },
        r.sinks.len() == plan.sinks.len(),
        forall|i: int|
            0 <= i < plan.sinks.len() ==> {
                let j = #[trigger] r.sinks@[i];
                let p = plan.sinks@[i];
                &&& j.pipeline@ == label_text_spec(label_view(p.pipeline))
                &&& j.sink@ == (match sink_view(p.sink) {
                    Some((logical, _)) => logical,
                    None => "stdout"@,
                })
                &&& format_json_view(j.format) == format_json_spec(format_view(p.format))
                &&& j.span == p.span
                &&& j.stage_span == p.stage_span
            },
        r.dependencies.len() == plan.dependencies.len(),
        forall|i: int|
            0 <= i < plan.dependencies.len() ==> {
                let j = #[trigger] r.dependencies@[i];
                let d = dependency_view(plan.dependencies@[i]);
                &&& j.logical_path@ == d.0
                &&& j.resolved_path@ == d.1
                &&& opt_text_view(j.inferred_format) == (match d.2 {
                    Some(f) => Some(canonical_name_spec(f)),
                    None => None,
                })
                &&& j.span == d.3
            },
        r.streams.len() == plan.streams.len(),
        forall|i: int|
            0 <= i < plan.streams.len() ==> {
                let j = #[trigger] r.streams@[i];
                let s = plan.streams@[i];
                &&& j.pipeline@ == label_text_spec(label_view(s.pipeline))
                &&& j.stream@ == (match s.stream {
                    StreamKind::Stdin => "stdin"@,
                    StreamKind::Stdout => "stdout"@,
                })
                &&& j.direction@ == (match s.direction {
                    StreamDirection::Read => "read"@,
                    StreamDirection::Write => "write"@,
                })
                &&& opt_text_view(j.explicit_format) == opt_text_view(s.explicit_format)
                &&& j.span == s.span
            },
{
    let mut inputs: Vec<InputJson> = Vec::new();
    let mut i: usize = 0;
    while i < plan.inputs.len()
        invariant
            i <= plan.inputs.len(),
            inputs.len() == i,
            forall|k: int|
                0 <= k < i ==> {
                    let j = #[trigger] inputs@[k];
                    let p = plan.inputs@[k];
                    &&& j.pipeline@ == label_text_spec(label_view(p.pipeline))
                    &&& j.source@ == (match source_view(p.source) {
                        Some((logical, _)) => logical,
                        None => "stdin"@,
                    })
                    &&& format_json_view(j.format) == format_json_spec(format_view(p.format))
                    &&& j.span == p.span
                    &&& j.stage_span == p.stage_span
                },
        decreases plan.inputs.len() - i,
    {
        let p = &plan.inputs[i];
        inputs.push(
            InputJson {
                pipeline: pipeline_label_text(&p.pipeline),
                source: source_text(&p.source),
                format: format_decision_json(&p.format),
                span: p.span,
                stage_span: p.stage_span,
            },
        );
        i += 1;
    }
    let mut sinks: Vec<SinkJson> = Vec::new();
    let mut i: usize = 0;
    while i < plan.sinks.len()
        invariant
            i <= plan.sinks.len(),
            sinks.len() == i,
            forall|k: int|
                0 <= k < i ==> {
                    let j = #[trigger] sinks@[k];
                    let p = plan.sinks@[k];
                    &&& j.pipeline@ == label_text_spec(label_view(p.pipeline))
                    &&& j.sink@ == (match sink_view(p.sink) {
                        Some((logical, _)) => logical,
                        None => "stdout"@,
                    })
                    &&& format_json_view(j.format) == format_json_spec(format_view(p.format))
                    &&& j.span == p.span
                    &&& j.stage_span == p.stage_span
                },
        decreases plan.sinks.len() - i,
    {
        let p = &plan.sinks[i];
        sinks.push(
            SinkJson {
                pipeline: pipeline_label_text(&p.pipeline),
                sink: sink_text(&p.sink),
                format: format_decision_json(&p.format),
                span: p.span,
                stage_span: p.stage_span,
            },
        );
        i += 1;
    }
    let mut dependencies: Vec<DependencyJson> = Vec::new();
    let mut i: usize = 0;
    while i < plan.dependencies.len()
        invariant
            i <= plan.dependencies.len(),
            dependencies.len() == i,
            forall|k: int|
                0 <= k < i ==> {
                    let j = #[trigger] dependencies@[k];
                    let d = dependency_view(plan.dependencies@[k]);
                    &&& j.logical_path@ == d.0
                    &&& j.resolved_path@ == d.1
                    &&& opt_text_view(j.inferred_format) == (match d.2 {
                        Some(f) => Some(canonical_name_spec(f)),
                        None => None,
                    })
                    &&& j.span == d.3
                },
        decreases plan.dependencies.len() - i,
    {
        let d = &plan.dependencies[i];
        dependencies.push(
            DependencyJson {
                logical_path: copy_string(&d.logical_path),
                resolved_path: copy_string(&d.resolved_path),
                inferred_format: match d.inferred_format {
                    Some(f) => Some(copy_str(f.canonical_name())),
                    None => None,
                },
                span: d.span,
            },
        );
        i += 1;
    }
    let mut streams: Vec<StreamJson> = Vec::new();
    let mut i: usize = 0;
    while i < plan.streams.len()
        invariant
            i <= plan.streams.len(),
            streams.len() == i,
            forall|k: int|
                0 <= k < i ==> {
                    let j = #[trigger] streams@[k];
                    let s = plan.streams@[k];
                    &&& j.pipeline@ == label_text_spec(label_view(s.pipeline))
                    &&& j.stream@ == (match s.stream {
                        StreamKind::Stdin => "stdin"@,
                        StreamKind::Stdout => "stdout"@,
                    })
                    &&& j.direction@ == (match s.direction {
                        StreamDirection::Read => "read"@,
                        StreamDirection::Write => "write"@,
                    })
                    &&& opt_text_view(j.explicit_format) == opt_text_view(s.explicit_format)
                    &&& j.span == s.span
                },
        decreases plan.streams.len() - i,
    {
        let s = &plan.streams[i];
        streams.push(
            StreamJson {
                pipeline: pipeline_label_text(&s.pipeline),
                stream: stream_kind_text(s.stream),
                direction: stream_direction_text(s.direction),
                explicit_format: copy_opt(&s.explicit_format),
                span: s.span,
            },
        );
        i += 1;
    }
    DriverPlanJson {
        source_path: copy_string(&plan.source_path),
        base_dir: copy_string(&plan.base_dir),
        inputs,
        sinks,
        dependencies,
        streams,
    }
}

} // verus!
