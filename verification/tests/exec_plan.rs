use pdl::exec_plan::{
    execution_step_text, render_plan_text, ExecutionPlan, ExecutionPlanStep, PlanObservability,
};
use pdl::format::DataFormat;
use pdl::origin::SourceOrigin;
use pdl::plan::{DriverPlan, LoadFrom, LoadStage, PipelineLabel, PipelineShape, SaveStage, SaveTo};
use pdl::span::Span;

fn observability() -> PlanObservability {
    PlanObservability {
        requested_engine: "auto".to_string(),
        selected_engine: "row".to_string(),
        eligible_engine: "row".to_string(),
        native_eligible: false,
        fallback_reason: Some("N001".to_string()),
        source_boundary: None,
        input_format: Some("csv".to_string()),
        output_format: None,
        sink_strategy: "buffered".to_string(),
        blocking_stages: vec!["sort".to_string(), "distinct".to_string()],
        row_materialization: true,
        required_source_columns: Some(vec!["region".to_string(), "amount".to_string()]),
    }
}

#[test]
fn execution_steps_render_as_text() {
    let steps = [
        (ExecutionPlanStep::Output { name: "daily".to_string() }, "output daily"),
        (ExecutionPlanStep::Load { source: "sales.csv".to_string(), format: "csv".to_string() }, "load sales.csv format csv"),
        (ExecutionPlanStep::Binding { name: "customers".to_string() }, "binding customers"),
        (ExecutionPlanStep::Transform { stage: "filter amount > 10".to_string() }, "filter amount > 10"),
        (ExecutionPlanStep::Save { sink: "out.parquet".to_string(), format: "parquet".to_string() }, "save out.parquet format parquet"),
        (ExecutionPlanStep::Stdout { format: "csv".to_string() }, "stdout format csv"),
    ];
    for (step, text) in steps {
        assert_eq!(execution_step_text(&step), text);
    }
}

#[test]
fn plan_text_lists_inputs_sinks_and_execution() {
    let pipelines = vec![PipelineShape {
        label: PipelineLabel::Main,
        load: Some(LoadStage {
            source: LoadFrom::Path { value: "sales.csv".to_string(), span: Span::new(5, 16) },
            format: None,
            span: Span::new(0, 16),
        }),
        saves: vec![SaveStage {
            sink: SaveTo::Path { value: "out.parquet".to_string(), span: Span::new(20, 33) },
            format: None,
            span: Span::new(18, 33),
        }],
    }];
    let driver = DriverPlan::build("main.pdl", SourceOrigin::path("main.pdl"), &pipelines);
    let plan = ExecutionPlan {
        dry_run: true,
        stdout_format: Some(DataFormat::Csv),
        observability: observability(),
        steps: vec![
            ExecutionPlanStep::Load { source: "sales.csv".to_string(), format: "csv".to_string() },
            ExecutionPlanStep::Stdout { format: "csv".to_string() },
        ],
    };
    assert_eq!(
        render_plan_text("main.pdl", &driver, &plan),
        "source: main.pdl\n\
         inputs:\n  - main load sales.csv format csv\n\
         sinks:\n  - main save out.parquet format parquet\n  - stdout format csv\n\
         execution:\n  requested engine: auto\n  selected engine: row\n  eligible engine: row\n\
         \x20 fallback reason: N001\n  sink strategy: buffered\n  row materialization: true\n\
         \x20 required source columns: region, amount\n  blocking stages: sort, distinct\n\
         \x20 - load sales.csv format csv\n  - stdout format csv\n"
    );
}

#[test]
fn empty_plan_text_says_none() {
    let driver = DriverPlan::build("empty.pdl", SourceOrigin::path("empty.pdl"), &[]);
    let mut quiet = observability();
    quiet.fallback_reason = None;
    quiet.required_source_columns = None;
    quiet.blocking_stages = Vec::new();
    quiet.row_materialization = false;
    let plan = ExecutionPlan { dry_run: true, stdout_format: None, observability: quiet, steps: Vec::new() };
    assert_eq!(
        render_plan_text("empty.pdl", &driver, &plan),
        "source: empty.pdl\ninputs:\n  none\nsinks:\n  none\nexecution:\n  requested engine: auto\n  selected engine: row\n  eligible engine: row\n  sink strategy: buffered\n  row materialization: false\n"
    );
}
