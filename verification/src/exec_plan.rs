//! The dry-run execution plan of a prepared program and its text rendering.
use vstd::prelude::*;

use crate::format::{canonical_name_spec, DataFormat};
use crate::plan::{
    effective_name_spec, format_view, label_view, sink_view, source_view, DriverPlan,
    PlanInputSource, PlanOutputSink,
};
use crate::render::{label_text_spec, pipeline_label_text, sink_text, source_text};
use crate::text::{copy_str, joined, push_joined, push_str, strings_view};

verus! {

/// One step of an execution plan, with its sources, sinks and formats by
/// name and a transform stage by its rendered text.
#[derive(Clone, Debug, Eq, PartialEq)]
pub enum ExecutionPlanStep {
    Output { name: String },
    Load { source: String, format: String },
    Binding { name: String },
    Transform { stage: String },
    Save { sink: String, format: String },
    Stdout { format: String },
}

/// What the planner decided about engines, sinks and materialization, with
/// engines, reasons and strategies by their names.
#[derive(Clone, Debug, Eq, PartialEq)]
pub struct PlanObservability {
    pub requested_engine: String,
    pub selected_engine: String,
    pub eligible_engine: String,
    pub native_eligible: bool,
    pub fallback_reason: Option<String>,
    pub source_boundary: Option<String>,
    pub input_format: Option<String>,
    pub output_format: Option<String>,
    pub sink_strategy: String,
    pub blocking_stages: Vec<String>,
    pub row_materialization: bool,
    pub required_source_columns: Option<Vec<String>>,
}

/// A dry-run execution plan.
#[derive(Clone, Debug, Eq, PartialEq)]
pub struct ExecutionPlan {
    pub dry_run: bool,
    pub stdout_format: Option<DataFormat>,
    pub observability: PlanObservability,
    pub steps: Vec<ExecutionPlanStep>,
}

/// The text of one step.
pub open spec fn step_text_spec(step: ExecutionPlanStep) -> Seq<char> {
    match step {
        ExecutionPlanStep::Output { name } => "output "@ + name@,
        ExecutionPlanStep::Load { source, format } => "load "@ + source@ + " format "@ + format@,
        ExecutionPlanStep::Binding { name } => "binding "@ + name@,
        ExecutionPlanStep::Transform { stage } => stage@,
        ExecutionPlanStep::Save { sink, format } => "save "@ + sink@ + " format "@ + format@,
        ExecutionPlanStep::Stdout { format } => "stdout format "@ + format@,
    }
}

/// Renders one step: `output <name>`, `load <source> format <format>`,
/// `binding <name>`, the stage text, `save <sink> format <format>` or
/// `stdout format <format>`.
pub fn execution_step_text(step: &ExecutionPlanStep) -> (r: String)
    ensures
        r@ == step_text_spec(*step),
{
    match step {
        ExecutionPlanStep::Output { name } => {
            let mut t = copy_str("output ");
            push_str(&mut t, name.as_str());
            t
        },
        ExecutionPlanStep::Load { source, format } => {
            let mut t = copy_str("load ");
            push_str(&mut t, source.as_str());
            push_str(&mut t, " format ");
            push_str(&mut t, format.as_str());
            t
        },
        ExecutionPlanStep::Binding { name } => {
            let mut t = copy_str("binding ");
            push_str(&mut t, name.as_str());
            t
        },
        ExecutionPlanStep::Transform { stage } => stage.clone(),
        ExecutionPlanStep::Save { sink, format } => {
            let mut t = copy_str("save ");
            push_str(&mut t, sink.as_str());
            push_str(&mut t, " format ");
            push_str(&mut t, format.as_str());
            t
        },
        ExecutionPlanStep::Stdout { format } => {
            let mut t = copy_str("stdout format ");
            push_str(&mut t, format.as_str());
            t
        },
    }
}

// ---------------------------------------------------------------------------
// The plan as text
// ---------------------------------------------------------------------------

pub open spec fn source_name(i: PlanInputSource) -> Seq<char> {
    match source_view(i.source) {
        Some((logical, _)) => logical,
        None => "stdin"@,
    }
}

pub open spec fn sink_name(o: PlanOutputSink) -> Seq<char> {
    match sink_view(o.sink) {
        Some((logical, _)) => logical,
        None => "stdout"@,
    }
}

pub open spec fn input_line(i: PlanInputSource) -> Seq<char> {
    "  - "@ + label_text_spec(label_view(i.pipeline)) + " load "@ + source_name(i) + " format "@
        + effective_name_spec(format_view(i.format)) + "\n"@
}

pub open spec fn sink_line(o: PlanOutputSink) -> Seq<char> {
    "  - "@ + label_text_spec(label_view(o.pipeline)) + " save "@ + sink_name(o) + " format "@
        + effective_name_spec(format_view(o.format)) + "\n"@
}

pub open spec fn step_line(s: ExecutionPlanStep) -> Seq<char> {
    "  - "@ + step_text_spec(s) + "\n"@
}

/// The lines of the inputs, in order.
pub open spec fn input_lines(items: Seq<PlanInputSource>) -> Seq<char>
    decreases items.len(),
{
    if items.len() == 0 {
        Seq::empty()
    } else {
        input_lines(items.drop_last()) + input_line(items.last())
    }
}

/// The lines of the sinks, in order.
pub open spec fn sink_lines(items: Seq<PlanOutputSink>) -> Seq<char>
    decreases items.len(),
{
    if items.len() == 0 {
        Seq::empty()
    } else {
        sink_lines(items.drop_last()) + sink_line(items.last())
    }
}

/// The lines of the steps, in order.
pub open spec fn step_lines(items: Seq<ExecutionPlanStep>) -> Seq<char>
    decreases items.len(),
{
    if items.len() == 0 {
        Seq::empty()
    } else {
        step_lines(items.drop_last()) + step_line(items.last())
    }
}

pub open spec fn bool_text(b: bool) -> Seq<char> {
    if b {
        "true"@
    } else {
        "false"@
    }
}

/// The `inputs:` section.
pub open spec fn inputs_section(d: DriverPlan) -> Seq<char> {
    "inputs:\n"@ + if d.inputs@.len() == 0 {
        "  none\n"@
    } else {
        input_lines(d.inputs@)
    }
}

/// The line for standard output where the plan writes to it.
pub open spec fn stdout_line(stdout_format: Option<DataFormat>) -> Seq<char> {
    match stdout_format {
        Some(f) => "  - stdout format "@ + canonical_name_spec(f) + "\n"@,
        None => Seq::empty(),
    }
}

/// The `sinks:` section: the saved outputs, then standard output where the
/// plan writes to it.
pub open spec fn sinks_section(d: DriverPlan, stdout_format: Option<DataFormat>) -> Seq<char> {
    "sinks:\n"@ + if d.sinks@.len() == 0 && stdout_format is None {
        "  none\n"@
    } else {
        sink_lines(d.sinks@) + stdout_line(stdout_format)
    }
}

pub open spec fn fallback_line(o: PlanObservability) -> Seq<char> {
    match o.fallback_reason {
        Some(r) => "  fallback reason: "@ + r@ + "\n"@,
        None => Seq::empty(),
    }
}

pub open spec fn required_columns_line(o: PlanObservability) -> Seq<char> {
    match o.required_source_columns {
        Some(cols) => "  required source columns: "@ + joined(strings_view(cols@), ", "@) + "\n"@,
        None => Seq::empty(),
    }
}

pub open spec fn blocking_stages_line(o: PlanObservability) -> Seq<char> {
    if o.blocking_stages@.len() > 0 {
        "  blocking stages: "@ + joined(strings_view(o.blocking_stages@), ", "@) + "\n"@
    } else {
        Seq::empty()
    }
}

/// The planner's decisions: engines, the fallback reason where there is
/// one, sink strategy, row materialization, and the required source
/// columns and blocking stages where there are any.
pub open spec fn observability_lines(o: PlanObservability) -> Seq<char> {
    "  requested engine: "@ + o.requested_engine@ + "\n  selected engine: "@ + o.selected_engine@
        + "\n  eligible engine: "@ + o.eligible_engine@ + "\n"@ + fallback_line(o) + "  sink strategy: "@
        + o.sink_strategy@ + "\n  row materialization: "@ + bool_text(o.row_materialization) + "\n"@
        + required_columns_line(o) + blocking_stages_line(o)
}

/// The whole plan text: the source path, the inputs, the sinks, then the
/// `execution:` section with the planner's decisions and the steps.
pub open spec fn plan_text_spec(source_path: Seq<char>, d: DriverPlan, p: ExecutionPlan) -> Seq<char> {
    "source: "@ + source_path + "\n"@ + inputs_section(d) + sinks_section(d, p.stdout_format)
        + "execution:\n"@ + observability_lines(p.observability) + step_lines(p.steps@)
}

fn push_input_lines(out: &mut String, inputs: &Vec<PlanInputSource>)
    ensures
        final(out)@ == old(out)@ + input_lines(inputs@),
{
    let ghost start = out@;
    let mut k: usize = 0;
    while k < inputs.len()
        invariant
            k <= inputs.len(),
            out@ == start + input_lines(inputs@.take(k as int)),
        decreases inputs.len() - k,
    {
        let i = &inputs[k];
        let mut line = copy_str("  - ");
        push_str(&mut line, pipeline_label_text(&i.pipeline).as_str());
        push_str(&mut line, " load ");
        push_str(&mut line, source_text(&i.source).as_str());
        push_str(&mut line, " format ");
        push_str(&mut line, i.format.effective_name().as_str());
        push_str(&mut line, "\n");
        proof {
            assert(line@ == input_line(*i));
            assert(inputs@.take(k + 1).drop_last() =~= inputs@.take(k as int));
            assert(inputs@.take(k + 1).last() == *i);
            assert(start + input_lines(inputs@.take(k + 1)) =~= start + input_lines(inputs@.take(k as int)) + line@);
        }
        push_str(out, line.as_str());
        k += 1;
    }
    assert(inputs@.take(k as int) =~= inputs@);
}

fn push_sink_lines(out: &mut String, sinks: &Vec<PlanOutputSink>)
    ensures
        final(out)@ == old(out)@ + sink_lines(sinks@),
{
    let ghost start = out@;
    let mut k: usize = 0;
    while k < sinks.len()
        invariant
            k <= sinks.len(),
            out@ == start + sink_lines(sinks@.take(k as int)),
        decreases sinks.len() - k,
    {
        let o = &sinks[k];
        let mut line = copy_str("  - ");
        push_str(&mut line, pipeline_label_text(&o.pipeline).as_str());
        push_str(&mut line, " save ");
        push_str(&mut line, sink_text(&o.sink).as_str());
        push_str(&mut line, " format ");
        push_str(&mut line, o.format.effective_name().as_str());
        push_str(&mut line, "\n");
        proof {
            assert(line@ == sink_line(*o));
            assert(sinks@.take(k + 1).drop_last() =~= sinks@.take(k as int));
            assert(sinks@.take(k + 1).last() == *o);
            assert(start + sink_lines(sinks@.take(k + 1)) =~= start + sink_lines(sinks@.take(k as int)) + line@);
        }
        push_str(out, line.as_str());
        k += 1;
    }
    assert(sinks@.take(k as int) =~= sinks@);
}

fn push_step_lines(out: &mut String, steps: &Vec<ExecutionPlanStep>)
    ensures
        final(out)@ == old(out)@ + step_lines(steps@),
{
    let ghost start = out@;
    let mut k: usize = 0;
    while k < steps.len()
        invariant
            k <= steps.len(),
            out@ == start + step_lines(steps@.take(k as int)),
        decreases steps.len() - k,
    {
        let mut line = copy_str("  - ");
        push_str(&mut line, execution_step_text(&steps[k]).as_str());
        push_str(&mut line, "\n");
        proof {
            assert(steps@.take(k + 1).drop_last() =~= steps@.take(k as int));
            assert(steps@.take(k + 1).last() == steps@[k as int]);
            assert(start + step_lines(steps@.take(k + 1)) =~= start + step_lines(steps@.take(k as int)) + line@);
        }
        push_str(out, line.as_str());
        k += 1;
    }
    assert(steps@.take(k as int) =~= steps@);
}

fn inputs_text(d: &DriverPlan) -> (r: String)
    ensures
        r@ == inputs_section(*d),
{
    let mut out = copy_str("inputs:\n");
    if d.inputs.len() == 0 {
        push_str(&mut out, "  none\n");
    } else {
        push_input_lines(&mut out, &d.inputs);
    }
    out
}

fn sinks_text(d: &DriverPlan, stdout_format: Option<DataFormat>) -> (r: String)
    ensures
        r@ == sinks_section(*d, stdout_format),
{
    let mut out = copy_str("sinks:\n");
    if d.sinks.len() == 0 && stdout_format.is_none() {
        push_str(&mut out, "  none\n");
    } else {
        let mut body = String::new();
        push_sink_lines(&mut body, &d.sinks);
        assert(body@ =~= sink_lines(d.sinks@));
        let mut stdout = String::new();
        if let Some(f) = stdout_format {
            push_str(&mut stdout, "  - stdout format ");
            push_str(&mut stdout, f.canonical_name());
            push_str(&mut stdout, "\n");
            assert(stdout@ =~= stdout_line(stdout_format));
        }
        push_str(&mut body, stdout.as_str());
        push_str(&mut out, body.as_str());
    }
    out
}

fn fallback_text(o: &PlanObservability) -> (r: String)
    ensures
        r@ == fallback_line(*o),
{
    let mut t = String::new();
    if let Some(r) = &o.fallback_reason {
        push_str(&mut t, "  fallback reason: ");
        push_str(&mut t, r.as_str());
        push_str(&mut t, "\n");
        assert(t@ =~= fallback_line(*o));
    }
    t
}

fn required_columns_text(o: &PlanObservability) -> (r: String)
    ensures
        r@ == required_columns_line(*o),
{
    let mut t = String::new();
    if let Some(cols) = &o.required_source_columns {
        push_str(&mut t, "  required source columns: ");
        push_joined(&mut t, cols.as_slice(), ", ");
        push_str(&mut t, "\n");
        assert(t@ =~= required_columns_line(*o));
    }
    t
}

fn blocking_stages_text(o: &PlanObservability) -> (r: String)
    ensures
        r@ == blocking_stages_line(*o),
{
    let mut t = String::new();
    if o.blocking_stages.len() > 0 {
        push_str(&mut t, "  blocking stages: ");
        push_joined(&mut t, o.blocking_stages.as_slice(), ", ");
        push_str(&mut t, "\n");
        assert(t@ =~= blocking_stages_line(*o));
    }
    t
}

fn observability_text(o: &PlanObservability) -> (r: String)
    ensures
        r@ == observability_lines(*o),
{
    let mut out = copy_str("  requested engine: ");
    push_str(&mut out, o.requested_engine.as_str());
    push_str(&mut out, "\n  selected engine: ");
    push_str(&mut out, o.selected_engine.as_str());
    push_str(&mut out, "\n  eligible engine: ");
    push_str(&mut out, o.eligible_engine.as_str());
    push_str(&mut out, "\n");
    push_str(&mut out, fallback_text(o).as_str());
    push_str(&mut out, "  sink strategy: ");
    push_str(&mut out, o.sink_strategy.as_str());
    push_str(&mut out, "\n  row materialization: ");
    push_str(&mut out, if o.row_materialization { "true" } else { "false" });
    push_str(&mut out, "\n");
    push_str(&mut out, required_columns_text(o).as_str());
    push_str(&mut out, blocking_stages_text(o).as_str());
    out
}

/// Renders a dry-run plan: the source path, the inputs, the sinks (with
/// standard output where the plan writes to it) and the execution section.
pub fn render_plan_text(source_path: &str, driver_plan: &DriverPlan, plan: &ExecutionPlan) -> (r: String)
    ensures
        r@ == plan_text_spec(source_path@, *driver_plan, *plan),
{
    let mut out = copy_str("source: ");
    push_str(&mut out, source_path);
    push_str(&mut out, "\n");
    push_str(&mut out, inputs_text(driver_plan).as_str());
    push_str(&mut out, sinks_text(driver_plan, plan.stdout_format).as_str());
    push_str(&mut out, "execution:\n");
    push_str(&mut out, observability_text(&plan.observability).as_str());
    push_step_lines(&mut out, &plan.steps);
    out
}

} // verus!
