//! The driver plan: the inputs, outputs, file dependencies and standard
//! streams a program uses, recorded from its pipelines without any I/O.
use vstd::prelude::*;

use crate::format::{canonical_name_spec, format_for_extension_spec, path_extension_of, DataFormat};
use crate::origin::SourceOrigin;
use crate::path::{base_dir_of, path_parent_of, resolve_input_path, resolve_output_path, resolved_input_path};
use crate::span::Span;
use crate::text::{copy_str, copy_string};

verus! {

// ---------------------------------------------------------------------------
// Plan records
// ---------------------------------------------------------------------------

/// The pipeline a record belongs to.
#[derive(Clone, Debug, Eq, PartialEq)]
pub enum PipelineLabel {
    Main,
    Binding(String),
    Output(String),
}

/// A label as plain values: a tag (0 main, 1 binding, 2 output) and a name.
pub open spec fn label_view(l: PipelineLabel) -> (int, Seq<char>) {
    match l {
        PipelineLabel::Main => (0, Seq::empty()),
        PipelineLabel::Binding(n) => (1, n@),
        PipelineLabel::Output(n) => (2, n@),
    }
}

impl PipelineLabel {
    /// A copy of this label.
    pub fn duplicate(&self) -> (r: Self)
        ensures
            label_view(r) == label_view(*self),
    {
        match self {
            PipelineLabel::Main => PipelineLabel::Main,
            PipelineLabel::Binding(n) => PipelineLabel::Binding(copy_string(n)),
            PipelineLabel::Output(n) => PipelineLabel::Output(copy_string(n)),
        }
    }
}

/// Where a pipeline reads from.
#[derive(Clone, Debug, Eq, PartialEq)]
pub enum SourceDescriptor {
    Path { logical_path: String, resolved_path: String },
    Stdin,
}

/// Where a pipeline writes to.
#[derive(Clone, Debug, Eq, PartialEq)]
pub enum SinkDescriptor {
    Path { logical_path: String, resolved_path: String },
    Stdout,
}

/// A descriptor as plain values: the logical and resolved paths, or `None`
/// for a standard stream.
pub open spec fn source_view(s: SourceDescriptor) -> Option<(Seq<char>, Seq<char>)> {
    match s {
        SourceDescriptor::Path { logical_path, resolved_path } => Some((logical_path@, resolved_path@)),
        SourceDescriptor::Stdin => None,
    }
}

pub open spec fn sink_view(s: SinkDescriptor) -> Option<(Seq<char>, Seq<char>)> {
    match s {
        SinkDescriptor::Path { logical_path, resolved_path } => Some((logical_path@, resolved_path@)),
        SinkDescriptor::Stdout => None,
    }
}

impl SourceDescriptor {
    /// How the source is named to users: its logical path, or `stdin`.
    pub fn display_name(&self) -> (r: String)
        ensures
            r@ == (match source_view(*self) {
                Some((logical, _)) => logical,
                None => "stdin"@,
            }),
    {
        match self {
            SourceDescriptor::Path { logical_path, .. } => copy_string(logical_path),
            SourceDescriptor::Stdin => copy_str("stdin"),
        }
    }
}

impl SinkDescriptor {
    /// How the sink is named to users: its logical path, or `stdout`.
    pub fn display_name(&self) -> (r: String)
        ensures
            r@ == (match sink_view(*self) {
                Some((logical, _)) => logical,
                None => "stdout"@,
            }),
    {
        match self {
            SinkDescriptor::Path { logical_path, .. } => copy_string(logical_path),
            SinkDescriptor::Stdout => copy_str("stdout"),
        }
    }
}

/// Why a format has to be sniffed from the bytes.
#[derive(Clone, Copy, Debug, Eq, PartialEq, Structural)]
pub enum SniffingReason {
    StdinWithoutExplicitFormat,
    StdoutWithoutExplicitFormat,
    PathWithoutKnownExtension,
}

/// Whether a format still has to be sniffed.
#[derive(Clone, Copy, Debug, Eq, PartialEq, Structural)]
pub enum SniffingDecision {
    NotNeeded,
    Deferred { reason: SniffingReason },
}

/// How the format of an input or output is decided.
#[derive(Clone, Debug, Eq, PartialEq)]
pub struct FormatDecision {
    pub explicit: Option<String>,
    pub inferred_from_path: Option<DataFormat>,
    pub sniffing: SniffingDecision,
}

pub open spec fn opt_text_view(o: Option<String>) -> Option<Seq<char>> {
    match o {
        Some(s) => Some(s@),
        None => None,
    }
}

pub open spec fn format_view(f: FormatDecision) -> (Option<Seq<char>>, Option<DataFormat>, SniffingDecision) {
    (opt_text_view(f.explicit), f.inferred_from_path, f.sniffing)
}

/// The decision for an explicit format and a format inferred from a path:
/// sniffing is needed only when neither is known.
pub open spec fn format_decision_spec(
    explicit: Option<Seq<char>>,
    inferred: Option<DataFormat>,
    reason: SniffingReason,
) -> (Option<Seq<char>>, Option<DataFormat>, SniffingDecision) {
    (
        explicit,
        inferred,
        if explicit is Some || inferred is Some {
            SniffingDecision::NotNeeded
        } else {
            SniffingDecision::Deferred { reason }
        },
    )
}

/// Decides how a format will be chosen.
pub fn format_decision(
    explicit: Option<String>,
    inferred_from_path: Option<DataFormat>,
    unresolved_reason: SniffingReason,
) -> (r: FormatDecision)
    ensures
        format_view(r) == format_decision_spec(opt_text_view(explicit), inferred_from_path, unresolved_reason),
{
    let sniffing = if explicit.is_some() || inferred_from_path.is_some() {
        SniffingDecision::NotNeeded
    } else {
        SniffingDecision::Deferred { reason: unresolved_reason }
    };
    FormatDecision { explicit, inferred_from_path, sniffing }
}

/// The name of the format decided so far: the explicit one, else the
/// canonical name of the inferred one, else `unresolved`.
pub open spec fn effective_name_spec(f: (Option<Seq<char>>, Option<DataFormat>, SniffingDecision)) -> Seq<char> {
    match f.0 {
        Some(e) => e,
        None => match f.1 {
            Some(format) => canonical_name_spec(format),
            None => "unresolved"@,
        },
    }
}

impl FormatDecision {
    /// The name of the format decided so far.
    pub fn effective_name(&self) -> (r: String)
        ensures
            r@ == effective_name_spec(format_view(*self)),
    {
        match &self.explicit {
            Some(e) => copy_string(e),
            None => match self.inferred_from_path {
                Some(format) => copy_str(format.canonical_name()),
                None => copy_str("unresolved"),
            },
        }
    }
}

/// An input a pipeline reads.
#[derive(Clone, Debug, Eq, PartialEq)]
pub struct PlanInputSource {
    pub pipeline: PipelineLabel,
    pub source: SourceDescriptor,
    pub format: FormatDecision,
    pub span: Span,
    pub stage_span: Span,
}

/// An output a pipeline writes.
#[derive(Clone, Debug, Eq, PartialEq)]
pub struct PlanOutputSink {
    pub pipeline: PipelineLabel,
    pub sink: SinkDescriptor,
    pub format: FormatDecision,
    pub span: Span,
    pub stage_span: Span,
}

/// A data file the program depends on.
#[derive(Clone, Debug, Eq, PartialEq)]
pub struct SourceDependency {
    pub logical_path: String,
    pub resolved_path: String,
    pub inferred_format: Option<DataFormat>,
    pub span: Span,
}

/// A standard stream.
#[derive(Clone, Copy, Debug, Eq, PartialEq, Structural)]
pub enum StreamKind {
    Stdin,
    Stdout,
}

/// Whether a stream is read or written.
#[derive(Clone, Copy, Debug, Eq, PartialEq, Structural)]
pub enum StreamDirection {
    Read,
    Write,
}

/// One use of a standard stream.
#[derive(Clone, Debug, Eq, PartialEq)]
pub struct StreamUse {
    pub pipeline: PipelineLabel,
    pub stream: StreamKind,
    pub direction: StreamDirection,
    pub explicit_format: Option<String>,
    pub span: Span,
}

pub type FormatV = (Option<Seq<char>>, Option<DataFormat>, SniffingDecision);

pub type InputV = ((int, Seq<char>), Option<(Seq<char>, Seq<char>)>, FormatV, Span, Span);

pub type SinkV = ((int, Seq<char>), Option<(Seq<char>, Seq<char>)>, FormatV, Span, Span);

pub type DependencyV = (Seq<char>, Seq<char>, Option<DataFormat>, Span);

pub type StreamV = ((int, Seq<char>), StreamKind, StreamDirection, Option<Seq<char>>, Span);

pub open spec fn input_view(i: PlanInputSource) -> InputV {
    (label_view(i.pipeline), source_view(i.source), format_view(i.format), i.span, i.stage_span)
}

pub open spec fn output_view(o: PlanOutputSink) -> SinkV {
    (label_view(o.pipeline), sink_view(o.sink), format_view(o.format), o.span, o.stage_span)
}

pub open spec fn dependency_view(d: SourceDependency) -> DependencyV {
    (d.logical_path@, d.resolved_path@, d.inferred_format, d.span)
}

pub open spec fn stream_view(s: StreamUse) -> StreamV {
    (label_view(s.pipeline), s.stream, s.direction, opt_text_view(s.explicit_format), s.span)
}

/// The plan of a program: where it lives, what it reads and writes, the
/// files it depends on and the standard streams it uses.
#[derive(Clone, Debug, Eq, PartialEq)]
pub struct DriverPlan {
    pub origin: SourceOrigin,
    pub source_path: String,
    pub base_dir: String,
    pub inputs: Vec<PlanInputSource>,
    pub sinks: Vec<PlanOutputSink>,
    pub dependencies: Vec<SourceDependency>,
    pub streams: Vec<StreamUse>,
}

/// The records of a plan as plain values.
#[verifier::ext_equal]
pub struct PlanRecords {
    pub inputs: Seq<InputV>,
    pub sinks: Seq<SinkV>,
    pub dependencies: Seq<DependencyV>,
    pub streams: Seq<StreamV>,
}

pub open spec fn plan_records(p: DriverPlan) -> PlanRecords {
    PlanRecords {
        inputs: p.inputs@.map_values(|i: PlanInputSource| input_view(i)),
        sinks: p.sinks@.map_values(|o: PlanOutputSink| output_view(o)),
        dependencies: p.dependencies@.map_values(|d: SourceDependency| dependency_view(d)),
        streams: p.streams@.map_values(|s: StreamUse| stream_view(s)),
    }
}

// ---------------------------------------------------------------------------
// Pipeline shapes
// ---------------------------------------------------------------------------

/// A format name written in a program, with its location.
#[derive(Clone, Debug, Eq, PartialEq)]
pub struct FormatName {
    pub value: String,
    pub span: Span,
}

/// What a `load` stage reads.
#[derive(Clone, Debug, Eq, PartialEq)]
pub enum LoadFrom {
    Path { value: String, span: Span },
    Stdin(Span),
}

/// A `load` stage.
#[derive(Clone, Debug, Eq, PartialEq)]
pub struct LoadStage {
    pub source: LoadFrom,
    pub format: Option<FormatName>,
    pub span: Span,
}

/// What a `save` stage writes.
#[derive(Clone, Debug, Eq, PartialEq)]
pub enum SaveTo {
    Path { value: String, span: Span },
    Stdout(Span),
}

/// A `save` stage.
#[derive(Clone, Debug, Eq, PartialEq)]
pub struct SaveStage {
    pub sink: SaveTo,
    pub format: Option<FormatName>,
    pub span: Span,
}

/// The parts of a pipeline the driver plan reads: its label, the `load`
/// it starts with (if it starts with one) and its `save` stages in order.
#[derive(Clone, Debug, Eq, PartialEq)]
pub struct PipelineShape {
    pub label: PipelineLabel,
    pub load: Option<LoadStage>,
    pub saves: Vec<SaveStage>,
}

pub open spec fn format_name_view(f: Option<FormatName>) -> Option<Seq<char>> {
    match f {
        Some(n) => Some(n.value@),
        None => None,
    }
}

/// The format that a path's extension names.
pub open spec fn inferred_format(path: Seq<char>) -> Option<DataFormat> {
    format_for_extension_spec(path_extension_of(path))
}

/// The records after a `load` stage of the pipeline labelled `label`.
pub open spec fn after_load(r: PlanRecords, source_path: Seq<char>, label: (int, Seq<char>), load: LoadStage) -> PlanRecords {
    match load.source {
        LoadFrom::Path { value, span } => {
            let resolved = resolved_input_path(source_path, value@);
            let inferred = inferred_format(value@);
            let input = (
                label,
                Some((value@, resolved)),
                format_decision_spec(
                    format_name_view(load.format),
                    inferred,
                    SniffingReason::PathWithoutKnownExtension,
                ),
                span,
                load.span,
            );
            let seen = exists|k: int| 0 <= k < r.dependencies.len() && r.dependencies[k].1 == resolved;
            PlanRecords {
                inputs: r.inputs.push(input),
                dependencies: if seen {
                    r.dependencies
                } else {
                    r.dependencies.push((value@, resolved, inferred, span))
                },
                ..r
            }
        },
        LoadFrom::Stdin(span) => {
            let explicit = format_name_view(load.format);
            PlanRecords {
                inputs: r.inputs.push(
                    (
                        label,
                        None,
                        format_decision_spec(explicit, None, SniffingReason::StdinWithoutExplicitFormat),
                        span,
                        load.span,
                    ),
                ),
                streams: r.streams.push((label, StreamKind::Stdin, StreamDirection::Read, explicit, span)),
                ..r
            }
        },
    }
}

/// The records after a `save` stage of the pipeline labelled `label`.
pub open spec fn after_save(r: PlanRecords, label: (int, Seq<char>), save: SaveStage) -> PlanRecords {
    match save.sink {
        SaveTo::Path { value, span } => PlanRecords {
            sinks: r.sinks.push(
                (
                    label,
                    Some((value@, value@)),
                    format_decision_spec(
                        format_name_view(save.format),
                        inferred_format(value@),
                        SniffingReason::PathWithoutKnownExtension,
                    ),
                    span,
                    save.span,
                ),
            ),
            ..r
        },
        SaveTo::Stdout(span) => {
            let explicit = format_name_view(save.format);
            PlanRecords {
                sinks: r.sinks.push(
                    (
                        label,
                        None,
                        format_decision_spec(explicit, None, SniffingReason::StdoutWithoutExplicitFormat),
                        span,
                        save.span,
                    ),
                ),
                streams: r.streams.push((label, StreamKind::Stdout, StreamDirection::Write, explicit, span)),
                ..r
            }
        },
    }
}

/// The records after the first `n` saves.
pub open spec fn after_saves(r: PlanRecords, label: (int, Seq<char>), saves: Seq<SaveStage>, n: nat) -> PlanRecords
    decreases n,
{
    if n == 0 {
        r
    } else {
        after_save(after_saves(r, label, saves, (n - 1) as nat), label, saves[n - 1])
    }
}

/// The records after one pipeline: its `load`, then its saves.
pub open spec fn after_pipeline(r: PlanRecords, source_path: Seq<char>, p: PipelineShape) -> PlanRecords {
    let l = label_view(p.label);
    let loaded = match p.load {
        Some(load) => after_load(r, source_path, l, load),
        None => r,
    };
    after_saves(loaded, l, p.saves@, p.saves.len() as nat)
}

/// The records after the first `n` pipelines.
pub open spec fn plan_spec(source_path: Seq<char>, pipelines: Seq<PipelineShape>, n: nat) -> PlanRecords
    decreases n,
{
    if n == 0 {
        PlanRecords {
            inputs: Seq::empty(),
            sinks: Seq::empty(),
            dependencies: Seq::empty(),
            streams: Seq::empty(),
        }
    } else {
        after_pipeline(plan_spec(source_path, pipelines, (n - 1) as nat), source_path, pipelines[n - 1])
    }
}

// ---------------------------------------------------------------------------
// Building
// ---------------------------------------------------------------------------

fn format_name_text(f: &Option<FormatName>) -> (r: Option<String>)
    ensures
        opt_text_view(r) == format_name_view(*f),
{
    match f {
        Some(n) => Some(copy_string(&n.value)),
        None => None,
    }
}

fn copy_opt_text(o: &Option<String>) -> (r: Option<String>)
    ensures
        opt_text_view(r) == opt_text_view(*o),
{
    match o {
        Some(s) => Some(copy_string(s)),
        None => None,
    }
}

/// The stream uses a list of references points at.
pub open spec fn deref_uses(s: Seq<&StreamUse>) -> Seq<StreamUse> {
    s.map_values(|u: &StreamUse| *u)
}

impl DriverPlan {
    fn has_dependency(&self, resolved: &String) -> (r: bool)
        ensures
            r == exists|k: int|
                0 <= k < plan_records(*self).dependencies.len() && plan_records(*self).dependencies[k].1
                    == resolved@,
    {
        let ghost deps = plan_records(*self).dependencies;
        let mut i: usize = 0;
        while i < self.dependencies.len()
            invariant
                i <= self.dependencies.len(),
                deps == plan_records(*self).dependencies,
                forall|k: int| 0 <= k < i ==> deps[k].1 != resolved@,
            decreases self.dependencies.len() - i,
        {
            if crate::text::string_eq(&self.dependencies[i].resolved_path, resolved) {
                assert(deps[i as int].1 == resolved@);
                return true;
            }
            i += 1;
        }
        false
    }

    fn record_load(&mut self, label: &PipelineLabel, load: &LoadStage)
        ensures
            plan_records(*final(self)) == after_load(
                plan_records(*old(self)),
                old(self).source_path@,
                label_view(*label),
                *load,
            ),
            final(self).source_path@ == old(self).source_path@,
            final(self).origin == old(self).origin,
            final(self).base_dir == old(self).base_dir,
    {
        let ghost before = plan_records(*self);
        match &load.source {
            LoadFrom::Path { value, span } => {
                let resolved = resolve_input_path(self.source_path.as_str(), value.as_str());
                let inferred = DataFormat::infer_from_path(value.as_str());
                let seen = self.has_dependency(&resolved);
                self.inputs.push(
                    PlanInputSource {
                        pipeline: label.duplicate(),
                        source: SourceDescriptor::Path {
                            logical_path: copy_string(value),
                            resolved_path: copy_string(&resolved),
                        },
                        format: format_decision(
                            format_name_text(&load.format),
                            inferred,
                            SniffingReason::PathWithoutKnownExtension,
                        ),
                        span: *span,
                        stage_span: load.span,
                    },
                );
                if !seen {
                    self.dependencies.push(
                        SourceDependency {
                            logical_path: copy_string(value),
                            resolved_path: resolved,
                            inferred_format: inferred,
                            span: *span,
                        },
                    );
                }
                proof {
                    let after = plan_records(*self);
                    let want = after_load(before, self.source_path@, label_view(*label), *load);
                    assert(after.inputs =~= want.inputs);
                    assert(after.dependencies =~= want.dependencies);
                    assert(after.sinks =~= want.sinks);
                    assert(after.streams =~= want.streams);
                }
            },
            LoadFrom::Stdin(span) => {
                let explicit = format_name_text(&load.format);
                self.inputs.push(
                    PlanInputSource {
                        pipeline: label.duplicate(),
                        source: SourceDescriptor::Stdin,
                        format: format_decision(
                            copy_opt_text(&explicit),
                            None,
                            SniffingReason::StdinWithoutExplicitFormat,
                        ),
                        span: *span,
                        stage_span: load.span,
                    },
                );
                self.streams.push(
                    StreamUse {
                        pipeline: label.duplicate(),
                        stream: StreamKind::Stdin,
                        direction: StreamDirection::Read,
                        explicit_format: explicit,
                        span: *span,
                    },
                );
                proof {
                    let after = plan_records(*self);
                    let want = after_load(before, self.source_path@, label_view(*label), *load);
                    assert(after.inputs =~= want.inputs);
                    assert(after.dependencies =~= want.dependencies);
                    assert(after.sinks =~= want.sinks);
                    assert(after.streams =~= want.streams);
                }
            },
        }
    }

    fn record_save(&mut self, label: &PipelineLabel, save: &SaveStage)
        ensures
            plan_records(*final(self)) == after_save(plan_records(*old(self)), label_view(*label), *save),
            final(self).source_path@ == old(self).source_path@,
            final(self).origin == old(self).origin,
            final(self).base_dir == old(self).base_dir,
    {
        let ghost before = plan_records(*self);
        match &save.sink {
            SaveTo::Path { value, span } => {
                let inferred = DataFormat::infer_from_path(value.as_str());
                self.sinks.push(
                    PlanOutputSink {
                        pipeline: label.duplicate(),
                        sink: SinkDescriptor::Path {
                            logical_path: copy_string(value),
                            resolved_path: resolve_output_path(value.as_str()),
                        },
                        format: format_decision(
                            format_name_text(&save.format),
                            inferred,
                            SniffingReason::PathWithoutKnownExtension,
                        ),
                        span: *span,
                        stage_span: save.span,
                    },
                );
                proof {
                    let after = plan_records(*self);
                    let want = after_save(before, label_view(*label), *save);
                    assert(after.inputs =~= want.inputs);
                    assert(after.dependencies =~= want.dependencies);
                    assert(after.sinks =~= want.sinks);
                    assert(after.streams =~= want.streams);
                }
            },
            SaveTo::Stdout(span) => {
                let explicit = format_name_text(&save.format);
                self.sinks.push(
                    PlanOutputSink {
                        pipeline: label.duplicate(),
                        sink: SinkDescriptor::Stdout,
                        format: format_decision(
                            copy_opt_text(&explicit),
                            None,
                            SniffingReason::StdoutWithoutExplicitFormat,
                        ),
                        span: *span,
                        stage_span: save.span,
                    },
                );
                self.streams.push(
                    StreamUse {
                        pipeline: label.duplicate(),
                        stream: StreamKind::Stdout,
                        direction: StreamDirection::Write,
                        explicit_format: explicit,
                        span: *span,
                    },
                );
                proof {
                    let after = plan_records(*self);
                    let want = after_save(before, label_view(*label), *save);
                    assert(after.inputs =~= want.inputs);
                    assert(after.dependencies =~= want.dependencies);
                    assert(after.sinks =~= want.sinks);
                    assert(after.streams =~= want.streams);
                }
            },
        }
    }

    fn record_pipeline(&mut self, pipeline: &PipelineShape)
        ensures
            plan_records(*final(self)) == after_pipeline(
                plan_records(*old(self)),
                old(self).source_path@,
                *pipeline,
            ),
            final(self).source_path@ == old(self).source_path@,
            final(self).origin == old(self).origin,
            final(self).base_dir == old(self).base_dir,
    {
        let ghost path = self.source_path@;
        let ghost l = label_view(pipeline.label);
        if let Some(load) = &pipeline.load {
            self.record_load(&pipeline.label, load);
        }
        let ghost loaded = plan_records(*self);
        let mut i: usize = 0;
        while i < pipeline.saves.len()
            invariant
                i <= pipeline.saves.len(),
                self.source_path@ == path,
                self.origin == old(self).origin,
                self.base_dir == old(self).base_dir,
                l == label_view(pipeline.label),
                plan_records(*self) == after_saves(loaded, l, pipeline.saves@, i as nat),
            decreases pipeline.saves.len() - i,
        {
            self.record_save(&pipeline.label, &pipeline.saves[i]);
            i += 1;
        }
    }

    /// The plan of the program at `path` whose pipelines are `pipelines`,
    /// in program order.
    pub fn build(path: &str, origin: SourceOrigin, pipelines: &[PipelineShape]) -> (r: Self)
        ensures
            r.source_path@ == path@,
            r.base_dir@ == (match path_parent_of(path@) {
                Some(p) => p,
                None => "."@,
            }),
            r.origin == origin,
            plan_records(r) == plan_spec(path@, pipelines@, pipelines.len() as nat),
    {
        let mut plan = DriverPlan {
            origin,
            source_path: copy_str(path),
            base_dir: base_dir_of(path),
            inputs: Vec::new(),
            sinks: Vec::new(),
            dependencies: Vec::new(),
            streams: Vec::new(),
        };
        assert(plan_records(plan) =~= plan_spec(path@, pipelines@, 0));
        let mut i: usize = 0;
        while i < pipelines.len()
            invariant
                i <= pipelines.len(),
                plan.source_path@ == path@,
                plan.origin == origin,
                plan.base_dir@ == (match path_parent_of(path@) {
                    Some(p) => p,
                    None => "."@,
                }),
                plan_records(plan) == plan_spec(path@, pipelines@, i as nat),
            decreases pipelines.len() - i,
        {
            plan.record_pipeline(&pipelines[i]);
            i += 1;
        }
        plan
    }

    /// The input recorded for the stage at `span`: the first one.
    pub fn input_for_stage_span(&self, span: Span) -> (r: Option<&PlanInputSource>)
        ensures
            match r {
                Some(input) => exists|k: int|
                    0 <= k < self.inputs.len() && self.inputs@[k] == *input && input.stage_span == span
                        && forall|j: int| 0 <= j < k ==> self.inputs@[j].stage_span != span,
                None => forall|k: int| 0 <= k < self.inputs.len() ==> self.inputs@[k].stage_span != span,
            },
    {
        let mut i: usize = 0;
        while i < self.inputs.len()
            invariant
                i <= self.inputs.len(),
                forall|j: int| 0 <= j < i ==> self.inputs@[j].stage_span != span,
            decreases self.inputs.len() - i,
        {
            if self.inputs[i].stage_span == span {
                return Some(&self.inputs[i]);
            }
            i += 1;
        }
        None
    }

    /// The output recorded for the stage at `span`: the first one.
    pub fn sink_for_stage_span(&self, span: Span) -> (r: Option<&PlanOutputSink>)
        ensures
            match r {
                Some(sink) => exists|k: int|
                    0 <= k < self.sinks.len() && self.sinks@[k] == *sink && sink.stage_span == span
                        && forall|j: int| 0 <= j < k ==> self.sinks@[j].stage_span != span,
                None => forall|k: int| 0 <= k < self.sinks.len() ==> self.sinks@[k].stage_span != span,
            },
    {
        let mut i: usize = 0;
        while i < self.sinks.len()
            invariant
                i <= self.sinks.len(),
                forall|j: int| 0 <= j < i ==> self.sinks@[j].stage_span != span,
            decreases self.sinks.len() - i,
        {
            if self.sinks[i].stage_span == span {
                return Some(&self.sinks[i]);
            }
            i += 1;
        }
        None
    }

    /// The reads of standard input, in plan order.
    pub fn stdin_reads(&self) -> (r: Vec<&StreamUse>)
        ensures
            deref_uses(r@) == self.streams@.filter(
                |u: StreamUse| u.stream == StreamKind::Stdin && u.direction == StreamDirection::Read,
            ),
    {
        let ghost pred = |u: StreamUse| u.stream == StreamKind::Stdin && u.direction == StreamDirection::Read;
        let mut out: Vec<&StreamUse> = Vec::new();
        let mut i: usize = 0;
        while i < self.streams.len()
            invariant
                i <= self.streams.len(),
                pred == (|u: StreamUse| u.stream == StreamKind::Stdin && u.direction == StreamDirection::Read),
                deref_uses(out@) == self.streams@.take(i as int).filter(pred),
            decreases self.streams.len() - i,
        {
            let u = &self.streams[i];
            proof {
                assert(self.streams@.take(i + 1) =~= self.streams@.take(i as int).push(*u));
                self.streams@.take(i as int).lemma_filter_push(*u, pred);
            }
            if u.stream == StreamKind::Stdin && u.direction == StreamDirection::Read {
                let ghost prev = out@;
                out.push(u);
                assert(deref_uses(out@) =~= deref_uses(prev).push(*u));
            }
            i += 1;
        }
        assert(self.streams@.take(self.streams.len() as int) =~= self.streams@);
        out
    }

    /// The writes of standard output, in plan order.
    pub fn stdout_writes(&self) -> (r: Vec<&StreamUse>)
        ensures
            deref_uses(r@) == self.streams@.filter(
                |u: StreamUse| u.stream == StreamKind::Stdout && u.direction == StreamDirection::Write,
            ),
    {
        let ghost pred = |u: StreamUse| u.stream == StreamKind::Stdout && u.direction == StreamDirection::Write;
        let mut out: Vec<&StreamUse> = Vec::new();
        let mut i: usize = 0;
        while i < self.streams.len()
            invariant
                i <= self.streams.len(),
                pred == (|u: StreamUse| u.stream == StreamKind::Stdout && u.direction == StreamDirection::Write),
                deref_uses(out@) == self.streams@.take(i as int).filter(pred),
            decreases self.streams.len() - i,
        {
            let u = &self.streams[i];
            proof {
                assert(self.streams@.take(i + 1) =~= self.streams@.take(i as int).push(*u));
                self.streams@.take(i as int).lemma_filter_push(*u, pred);
            }
            if u.stream == StreamKind::Stdout && u.direction == StreamDirection::Write {
                let ghost prev = out@;
                out.push(u);
                assert(deref_uses(out@) =~= deref_uses(prev).push(*u));
            }
            i += 1;
        }
        assert(self.streams@.take(self.streams.len() as int) =~= self.streams@);
        out
    }
}

/// A plan records each resolved data file once: no two dependencies share
/// a resolved path.
pub proof fn lemma_dependencies_unique(source_path: Seq<char>, pipelines: Seq<PipelineShape>, n: nat)
    ensures
        forall|a: int, b: int|
            0 <= a < b < plan_spec(source_path, pipelines, n).dependencies.len() ==> (#[trigger] plan_spec(
                source_path,
                pipelines,
                n,
            ).dependencies[a]).1 != (#[trigger] plan_spec(source_path, pipelines, n).dependencies[b]).1,
    decreases n,
{
    if n > 0 {
        lemma_dependencies_unique(source_path, pipelines, (n - 1) as nat);
        let r = plan_spec(source_path, pipelines, (n - 1) as nat);
        let p = pipelines[n - 1];
        let l = label_view(p.label);
        let loaded = match p.load {
            Some(load) => after_load(r, source_path, l, load),
            None => r,
        };
        lemma_saves_keep_dependencies(loaded, l, p.saves@, p.saves.len() as nat);
    }
}

proof fn lemma_saves_keep_dependencies(r: PlanRecords, label: (int, Seq<char>), saves: Seq<SaveStage>, n: nat)
    ensures
        after_saves(r, label, saves, n).dependencies == r.dependencies,
    decreases n,
{
    if n > 0 {
        lemma_saves_keep_dependencies(r, label, saves, (n - 1) as nat);
    }
}

/// Every standard-stream use in a plan has a matching input or output: a
/// stdin read is recorded with an input from stdin, a stdout write with an
/// output to stdout.
pub proof fn lemma_streams_match_records(source_path: Seq<char>, pipelines: Seq<PipelineShape>, n: nat)
    ensures
        plan_spec(source_path, pipelines, n).streams.len() <= plan_spec(source_path, pipelines, n).inputs.len()
            + plan_spec(source_path, pipelines, n).sinks.len(),
    decreases n,
{
    if n > 0 {
        lemma_streams_match_records(source_path, pipelines, (n - 1) as nat);
        let r = plan_spec(source_path, pipelines, (n - 1) as nat);
        let p = pipelines[n - 1];
        let l = label_view(p.label);
        let loaded = match p.load {
            Some(load) => after_load(r, source_path, l, load),
            None => r,
        };
        lemma_saves_stream_count(loaded, l, p.saves@, p.saves.len() as nat);
    }
}

proof fn lemma_saves_stream_count(r: PlanRecords, label: (int, Seq<char>), saves: Seq<SaveStage>, n: nat)
    requires
        r.streams.len() <= r.inputs.len() + r.sinks.len(),
    ensures
        after_saves(r, label, saves, n).streams.len() <= after_saves(r, label, saves, n).inputs.len()
            + after_saves(r, label, saves, n).sinks.len(),
        after_saves(r, label, saves, n).inputs == r.inputs,
    decreases n,
{
    if n > 0 {
        lemma_saves_stream_count(r, label, saves, (n - 1) as nat);
    }
}

} // verus!
