//! The decisions of program preparation that do not depend on the parser or
//! the analyzer: which parse errors still allow semantic follow-up, how an
//! input's format is resolved, which stdin formats are refused before any
//! byte is read, and when standard input is read at all.
use vstd::prelude::*;

use crate::codes;
use crate::diagnostic::{code_text, has_errors, Diagnostic, DiagnosticView};
use crate::format::{format_from_name_spec, sniff_format_from_bytes, sniff_spec, unsniffable_diagnostic, DataFormat};
use crate::plan::{format_name_view, DriverPlan, LoadFrom, PipelineShape, StreamDirection, StreamKind};
use crate::severity::Severity;
use crate::span::Span;
use crate::text::{copy_str, push_str, str_eq, string_eq, strings_view};

verus! {

/// How a preparation run treats standard input and which binding it
/// analyzes.
#[derive(Clone, Debug)]
pub struct PrepareOptions {
    pub stdin_format: Option<String>,
    pub read_stdin: bool,
    pub analysis_binding: Option<String>,
}

impl Default for PrepareOptions {
    fn default() -> (r: Self)
        ensures
            r.stdin_format is None,
            !r.read_stdin,
            r.analysis_binding is None,
    {
        PrepareOptions { stdin_format: None, read_stdin: false, analysis_binding: None }
    }
}

// ---------------------------------------------------------------------------
// Recoverable parse errors
// ---------------------------------------------------------------------------

/// The parse errors after which the analyzer still runs, so that column
/// diagnostics are reported alongside them.
pub open spec fn recoverable_parse_error(d: DiagnosticView) -> bool {
    ||| d.code == code_text(0, 1) && d.message == "expected operator in filter expression"@
    ||| d.code == code_text(0, 1) && d.message == "expected `|` before stage"@
    ||| d.code == code_text(0, 1213) && d.message == "aggregate items require `as`"@
}

/// Whether `diagnostic` is a parse error after which analysis continues.
pub fn is_recoverable_parse_error_for_semantic_followup(diagnostic: &Diagnostic) -> (r: bool)
    ensures
        r == recoverable_parse_error(diagnostic@),
{
    let e0001 = codes::E0001();
    let e1213 = codes::E1213();
    let code = diagnostic.code.as_str();
    let message = diagnostic.message.as_str();
    if str_eq(code, e0001.as_str()) {
        str_eq(message, "expected operator in filter expression") || str_eq(message, "expected `|` before stage")
    } else if str_eq(code, e1213.as_str()) {
        str_eq(message, "aggregate items require `as`")
    } else {
        proof {
            reveal_strlit("E0001");
        }
        false
    }
}

/// Whether every error among parse diagnostics is recoverable.
pub fn parse_errors_allow_semantic_followup(diagnostics: &[Diagnostic]) -> (r: bool)
    ensures
        r == forall|i: int|
            0 <= i < diagnostics.len() && (#[trigger] diagnostics@[i]).severity == Severity::Error
                ==> recoverable_parse_error(diagnostics@[i]@),
{
    let mut i: usize = 0;
    while i < diagnostics.len()
        invariant
            i <= diagnostics.len(),
            forall|j: int|
                0 <= j < i && (#[trigger] diagnostics@[j]).severity == Severity::Error ==> recoverable_parse_error(
                    diagnostics@[j]@,
                ),
        decreases diagnostics.len() - i,
    {
        if diagnostics[i].severity.is_error() && !is_recoverable_parse_error_for_semantic_followup(
            &diagnostics[i],
        ) {
            return false;
        }
        i += 1;
    }
    true
}

// ---------------------------------------------------------------------------
// Input formats
// ---------------------------------------------------------------------------

/// The diagnostic for a format name that no format has.
pub open spec fn unsupported_format_view(prefix: Seq<char>, name: Seq<char>, span: Span) -> DiagnosticView {
    DiagnosticView {
        severity: Severity::Error,
        code: code_text(0, 1215),
        message: prefix + "format `"@ + name + "` is not supported in 0.23.0"@,
        span,
        related: Seq::empty(),
        help: None,
    }
}

fn unsupported_format(prefix: &str, name: &str, span: Span) -> (r: Diagnostic)
    ensures
        r@ == unsupported_format_view(prefix@, name@, span),
{
    let mut m = String::new();
    push_str(&mut m, prefix);
    push_str(&mut m, "format `");
    push_str(&mut m, name);
    push_str(&mut m, "` is not supported in 0.23.0");
    Diagnostic::error(codes::E1215(), m.as_str(), span)
}

/// How an input's format is resolved: the format written in the program,
/// else the command-line override, else the one a path's extension names,
/// else the one the bytes announce, else CSV. A name that no format has is
/// an error at its own location (the program's) or at `span` (the
/// override's).
pub open spec fn resolve_input_format_spec(
    explicit: Option<(Seq<char>, Span)>,
    cli_override: Option<Seq<char>>,
    inferred: Option<DataFormat>,
    bytes: Option<Seq<u8>>,
    span: Span,
) -> Result<DataFormat, DiagnosticView> {
    match explicit {
        Some((name, at)) => match format_from_name_spec(name) {
            Some(f) => Ok(f),
            None => Err(unsupported_format_view(Seq::empty(), name, at)),
        },
        None => match cli_override {
            Some(name) => match format_from_name_spec(name) {
                Some(f) => Ok(f),
                None => Err(unsupported_format_view(Seq::empty(), name, span)),
            },
            None => match inferred {
                Some(f) => Ok(f),
                None => match bytes {
                    Some(b) => match sniff_spec(b) {
                        Some(f) => Ok(f),
                        None => Err(unsniffable_diagnostic()),
                    },
                    None => Ok(DataFormat::Csv),
                },
            },
        },
    }
}

pub open spec fn format_result_view(r: Result<DataFormat, Diagnostic>) -> Result<DataFormat, DiagnosticView> {
    match r {
        Ok(f) => Ok(f),
        Err(d) => Err(d@),
    }
}

/// Resolves the format of an input.
pub fn resolve_input_format(
    explicit: Option<(&str, Span)>,
    cli_override: Option<&str>,
    inferred_from_path: Option<DataFormat>,
    bytes: Option<&[u8]>,
    span: Span,
) -> (r: Result<DataFormat, Diagnostic>)
    ensures
        format_result_view(r) == resolve_input_format_spec(
            match explicit {
                Some((n, s)) => Some((n@, s)),
                None => None,
            },
            match cli_override {
                Some(n) => Some(n@),
                None => None,
            },
            inferred_from_path,
            match bytes {
                Some(b) => Some(b@),
                None => None,
            },
            span,
        ),
{
    if let Some((name, at)) = explicit {
        return match DataFormat::from_name(name) {
            Some(f) => Ok(f),
            None => {
                let d = unsupported_format("", name, at);
                proof {
                    reveal_strlit("");
                    assert(Seq::<char>::empty() + "format `"@ == "format `"@);
                }
                Err(d)
            },
        };
    }
    if let Some(name) = cli_override {
        return match DataFormat::from_name(name) {
            Some(f) => Ok(f),
            None => {
                let d = unsupported_format("", name, span);
                proof {
                    reveal_strlit("");
                    assert(Seq::<char>::empty() + "format `"@ == "format `"@);
                }
                Err(d)
            },
        };
    }
    if let Some(f) = inferred_from_path {
        return Ok(f);
    }
    if let Some(b) = bytes {
        return sniff_format_from_bytes(b);
    }
    Ok(DataFormat::Csv)
}

// ---------------------------------------------------------------------------
// Standard input checks before reading
// ---------------------------------------------------------------------------

/// The diagnostic for a `load stdin` format that conflicts with the
/// command-line stdin format.
pub open spec fn stdin_conflict_view(explicit: Seq<char>, cli: Seq<char>, span: Span) -> DiagnosticView {
    DiagnosticView {
        severity: Severity::Error,
        code: code_text(0, 1217),
        message: "load stdin format `"@ + explicit + "` conflicts with --stdin-format `"@ + cli + "`"@,
        span,
        related: Seq::empty(),
        help: None,
    }
}

/// The diagnostics one pipeline adds before stdin is read, given the
/// command-line stdin format (its name and format) where there is one.
pub open spec fn stdin_check_step(p: PipelineShape, cli: Option<(Seq<char>, DataFormat)>) -> Seq<DiagnosticView> {
    match p.load {
        Some(load) => match load.source {
            LoadFrom::Stdin(_) => match load.format {
                Some(explicit) => match format_from_name_spec(explicit.value@) {
                    None => seq![unsupported_format_view(Seq::empty(), explicit.value@, explicit.span)],
                    Some(f) => match cli {
                        Some((cli_name, cli_format)) => if f != cli_format {
                            seq![stdin_conflict_view(explicit.value@, cli_name, explicit.span)]
                        } else {
                            Seq::empty()
                        },
                        None => Seq::empty(),
                    },
                },
                None => Seq::empty(),
            },
            LoadFrom::Path { .. } => Seq::empty(),
        },
        None => Seq::empty(),
    }
}

/// The diagnostics of the first `n` pipelines.
pub open spec fn stdin_checks(pipelines: Seq<PipelineShape>, cli: Option<(Seq<char>, DataFormat)>, n: nat) -> Seq<
    DiagnosticView,
>
    decreases n,
{
    if n == 0 {
        Seq::empty()
    } else {
        stdin_checks(pipelines, cli, (n - 1) as nat) + stdin_check_step(pipelines[n - 1], cli)
    }
}

/// What is refused before stdin is read: a command-line stdin format that
/// no format has (alone), else each `load stdin` format that no format has
/// or that conflicts with the command-line one, in pipeline order.
pub open spec fn stdin_pre_read_spec(pipelines: Seq<PipelineShape>, stdin_format: Option<Seq<char>>) -> Seq<
    DiagnosticView,
> {
    match stdin_format {
        Some(name) => match format_from_name_spec(name) {
            None => seq![unsupported_format_view("stdin "@, name, Span { start: 0, end: 0 })],
            Some(f) => stdin_checks(pipelines, Some((name, f)), pipelines.len() as nat),
        },
        None => stdin_checks(pipelines, None, pipelines.len() as nat),
    }
}

pub open spec fn diagnostics_view(v: Seq<Diagnostic>) -> Seq<DiagnosticView> {
    v.map_values(|d: Diagnostic| d@)
}

/// The stdin format diagnostics of a program whose pipelines are
/// `pipelines` (bindings, outputs, then the main pipeline).
pub fn stdin_pre_read_diagnostics(pipelines: &[PipelineShape], stdin_format: &Option<String>) -> (r: Vec<
    Diagnostic,
>)
    ensures
        diagnostics_view(r@) == stdin_pre_read_spec(
            pipelines@,
            match stdin_format {
                Some(s) => Some(s@),
                None => None,
            },
        ),
{
    let cli: Option<(&str, DataFormat)> = match stdin_format {
        Some(format) => match DataFormat::from_name(format.as_str()) {
            Some(data_format) => Some((format.as_str(), data_format)),
            None => {
                let mut out: Vec<Diagnostic> = Vec::new();
                out.push(unsupported_format("stdin ", format.as_str(), Span::zero()));
                assert(diagnostics_view(out@) =~= seq![
                    unsupported_format_view("stdin "@, format@, Span { start: 0, end: 0 }),
                ]);
                return out;
            },
        },
        None => None,
    };
    let ghost cli_view: Option<(Seq<char>, DataFormat)> = match cli {
        Some((n, f)) => Some((n@, f)),
        None => None,
    };
    let mut out: Vec<Diagnostic> = Vec::new();
    let mut i: usize = 0;
    while i < pipelines.len()
        invariant
            i <= pipelines.len(),
            cli_view == (match cli {
                Some((n, f)) => Some((n@, f)),
                None => None::<(Seq<char>, DataFormat)>,
            }),
            diagnostics_view(out@) == stdin_checks(pipelines@, cli_view, i as nat),
        decreases pipelines.len() - i,
    {
        let ghost before = diagnostics_view(out@);
        let p = &pipelines[i];
        proof {
            reveal_strlit("");
            assert(Seq::<char>::empty() + "format `"@ == "format `"@);
        }
        if let Some(load) = &p.load {
            if let LoadFrom::Stdin(_) = &load.source {
                if let Some(explicit) = &load.format {
                    match DataFormat::from_name(explicit.value.as_str()) {
                        None => {
                            out.push(unsupported_format("", explicit.value.as_str(), explicit.span));
                        },
                        Some(explicit_format) => {
                            if let Some((cli_name, cli_format)) = cli {
                                if explicit_format != cli_format {
                                    let mut m = String::new();
                                    push_str(&mut m, "load stdin format `");
                                    push_str(&mut m, explicit.value.as_str());
                                    push_str(&mut m, "` conflicts with --stdin-format `");
                                    push_str(&mut m, cli_name);
                                    push_str(&mut m, "`");
                                    out.push(Diagnostic::error(codes::E1217(), m.as_str(), explicit.span));
                                }
                            }
                        },
                    }
                }
            }
        }
        i += 1;
        assert(diagnostics_view(out@) =~= before + stdin_check_step(pipelines@[i - 1], cli_view));
    }
    out
}

/// Whether preparation reads standard input: only when asked to, when the
/// plan reads stdin, and when nothing was refused before reading.
pub fn stdin_read_needed(options: &PrepareOptions, plan: &DriverPlan, pre_read: &[Diagnostic]) -> (r: bool)
    ensures
        r == (options.read_stdin && (exists|k: int|
            0 <= k < plan.streams.len() && plan.streams@[k].stream == StreamKind::Stdin
                && plan.streams@[k].direction == StreamDirection::Read) && !(exists|i: int|
            0 <= i < pre_read.len() && pre_read@[i].severity == Severity::Error)),
{
    if !options.read_stdin {
        return false;
    }
    let reads = plan.stdin_reads();
    proof {
        let pred = |u: crate::plan::StreamUse| u.stream == StreamKind::Stdin && u.direction == StreamDirection::Read;
        plan.streams@.filter_lemma(pred);
        if exists|k: int|
            0 <= k < plan.streams.len() && plan.streams@[k].stream == StreamKind::Stdin
                && plan.streams@[k].direction == StreamDirection::Read {
            let k = choose|k: int|
                0 <= k < plan.streams.len() && plan.streams@[k].stream == StreamKind::Stdin
                    && plan.streams@[k].direction == StreamDirection::Read;
            assert(pred(plan.streams@[k]));
            assert(plan.streams@.filter(pred).contains(plan.streams@[k]));
        }
        let f = plan.streams@.filter(pred);
        assert(crate::plan::deref_uses(reads@).len() == reads@.len());
        if reads.len() > 0 {
            assert(f.contains(f[0]));
            plan.streams@.lemma_filter_contains_rev(pred, f[0]);
            let k = choose|k: int| 0 <= k < plan.streams.len() && plan.streams@[k] == f[0];
            assert(pred(plan.streams@[k]));
        }
    }
    reads.len() > 0 && !has_errors(pre_read)
}

// ---------------------------------------------------------------------------
// Schema hints
// ---------------------------------------------------------------------------

/// Appends `column` unless it is already present.
pub fn push_unique(columns: &mut Vec<String>, column: &str)
    ensures
        strings_view(final(columns)@) == if strings_view(old(columns)@).contains(column@) {
            strings_view(old(columns)@)
        } else {
            strings_view(old(columns)@).push(column@)
        },
{
    let mut i: usize = 0;
    while i < columns.len()
        invariant
            i <= columns.len(),
            forall|j: int| 0 <= j < i ==> columns@[j]@ != column@,
        decreases columns.len() - i,
    {
        if str_eq(columns[i].as_str(), column) {
            assert(strings_view(columns@)[i as int] == column@);
            return;
        }
        i += 1;
    }
    let ghost before = strings_view(columns@);
    columns.push(copy_str(column));
    assert(strings_view(columns@) =~= before.push(column@));
}

/// The key a stage's span is known by: its start and end.
pub fn span_key(span: Span) -> (r: (usize, usize))
    ensures
        r == (span.start, span.end),
{
    (span.start, span.end)
}

/// After `push_unique`, no column name occurs twice if none did before.
pub proof fn lemma_push_unique_keeps_distinct(before: Seq<Seq<char>>, column: Seq<char>)
    requires
        forall|a: int, b: int| 0 <= a < b < before.len() ==> before[a] != before[b],
    ensures
        ({
            let after = if before.contains(column) {
                before
            } else {
                before.push(column)
            };
            &&& forall|a: int, b: int| 0 <= a < b < after.len() ==> after[a] != after[b]
            &&& after.contains(column)
        }),
{
    if !before.contains(column) {
        let after = before.push(column);
        assert(after[before.len() as int] == column);
    }
}

} // verus!
