//! Multi-line rendering of diagnostics against their source text: a
//! header with severity and code, the location, the source line, a caret
//! underline, and help and related notes.
use vstd::prelude::*;
use vstd::string::StringSliceAdditionalSpecFns;
use vstd::utf8::*;

use crate::diagnostic::{Diagnostic, DiagnosticView, related_view, RelatedSpan};
use crate::severity::Severity;
use crate::source::{char_count, count_chars, line_bounds, line_bounds_spec, line_col,
    line_col_spec, lemma_line_bounds_valid};
use crate::span::Span;
use crate::text::{chars_of, decimal, decimal_string, push_char, push_decimal, push_repeated,
    push_str, repeated};

verus! {

/// Whether rendered diagnostics use ANSI colors.
#[derive(Clone, Copy, Debug, Eq, PartialEq, Structural)]
pub enum DiagnosticStyle {
    Plain,
    Ansi,
}

/// The ANSI color code used for a severity.
pub open spec fn severity_color_spec(severity: Severity) -> Seq<char> {
    match severity {
        Severity::Error => "31"@,
        Severity::Warning => "33"@,
        Severity::Info => "36"@,
        Severity::Hint => "2"@,
    }
}

/// `text` wrapped in an ANSI color sequence, bold when asked, and a reset.
pub open spec fn paint_spec(text: Seq<char>, color: Seq<char>, bold: bool) -> Seq<char> {
    "\x1b["@ + (if bold { "1;"@ } else { ""@ }) + color + "m"@ + text + "\x1b[0m"@
}

/// `severity[code]`, painted in the severity's color for `Ansi`.
pub open spec fn severity_label_spec(style: DiagnosticStyle, severity: Severity, code: Seq<char>) -> Seq<char> {
    let label = severity.spec_label() + "["@ + code + "]"@;
    match style {
        DiagnosticStyle::Plain => label,
        DiagnosticStyle::Ansi => paint_spec(label, severity_color_spec(severity), true),
    }
}

/// The underline, painted in the severity's color for `Ansi`.
pub open spec fn underline_spec(style: DiagnosticStyle, underline: Seq<char>, severity: Severity) -> Seq<char> {
    match style {
        DiagnosticStyle::Plain => underline,
        DiagnosticStyle::Ansi => paint_spec(underline, severity_color_spec(severity), true),
    }
}

pub open spec fn clamp_spec(x: int, lo: int, hi: int) -> int {
    if x < lo {
        lo
    } else if x > hi {
        hi
    } else {
        x
    }
}

/// Byte bounds of the underlined text: the span clamped to the line that
/// holds its start.
pub open spec fn underline_bounds(bytes: Seq<u8>, span: Span) -> (int, int) {
    let (ls, le) = line_bounds_spec(bytes, span.start as int);
    let us = clamp_spec(span.start as int, ls, le);
    (us, clamp_spec(span.end as int, us, le))
}

/// The source slices the renderer takes fall on character boundaries.
pub open spec fn renderable(bytes: Seq<u8>, span: Span) -> bool {
    &&& bytes.len() < usize::MAX
    &&& is_char_boundary(bytes, underline_bounds(bytes, span).0)
    &&& is_char_boundary(bytes, underline_bounds(bytes, span).1)
}

/// The `= note:` lines of the related spans, in order.
pub open spec fn related_notes(
    related: Seq<(Span, Seq<char>)>,
    bytes: Seq<u8>,
    source_name: Seq<char>,
    pad: Seq<char>,
) -> Seq<char>
    decreases related.len(),
{
    if related.len() == 0 {
        Seq::empty()
    } else {
        let last = related.last();
        let (line, col) = line_col_spec(bytes, last.0.start as int);
        related_notes(related.drop_last(), bytes, source_name, pad) + "\n"@ + pad + "= note: "@
            + last.1 + " at "@ + source_name + ":"@ + decimal(line as nat) + ":"@ + decimal(
            col as nat,
        )
    }
}

/// The first five lines of a diagnostic's block: header, location,
/// gutter, source line and underline.
pub open spec fn block_head(
    source_name: Seq<char>,
    bytes: Seq<u8>,
    d: DiagnosticView,
    style: DiagnosticStyle,
) -> Seq<char> {
    let (line, col) = line_col_spec(bytes, d.span.start as int);
    let (ls, le) = line_bounds_spec(bytes, d.span.start as int);
    let (us, ue) = underline_bounds(bytes, d.span);
    let pad = char_count(bytes.subrange(ls, us));
    let count = char_count(bytes.subrange(us, ue));
    let width = if count >= 1 { count } else { 1 };
    let underline = underline_spec(style, repeated('^', width), d.severity);
    let line_text = decimal(line as nat);
    let gutter = repeated(' ', line_text.len());
    severity_label_spec(style, d.severity, d.code) + ": "@ + d.message + "\n"@ + gutter + "--> "@
        + source_name + ":"@ + line_text + ":"@ + decimal(col as nat) + "\n"@ + gutter + " |"@
        + "\n"@ + line_text + " | "@ + decode_utf8(bytes.subrange(ls, le)) + "\n"@ + gutter
        + " | "@ + repeated(' ', pad) + underline
}

/// The full multi-line block for one diagnostic.
pub open spec fn diagnostic_block(
    source_name: Seq<char>,
    bytes: Seq<u8>,
    d: DiagnosticView,
    style: DiagnosticStyle,
) -> Seq<char> {
    let line_text = decimal(line_col_spec(bytes, d.span.start as int).0 as nat);
    let gutter = repeated(' ', line_text.len());
    let detail = repeated(' ', line_text.len() + 1);
    let separator = if d.help is Some || d.related.len() > 0 {
        "\n"@ + gutter + " |"@
    } else {
        Seq::empty()
    };
    let help = match d.help {
        Some(h) => "\n"@ + detail + "= help: "@ + h,
        None => Seq::empty(),
    };
    block_head(source_name, bytes, d, style) + separator + help + related_notes(
        d.related,
        bytes,
        source_name,
        detail,
    )
}

/// Blocks separated by one blank line.
pub open spec fn joined_blocks(blocks: Seq<Seq<char>>) -> Seq<char>
    decreases blocks.len(),
{
    if blocks.len() == 0 {
        Seq::empty()
    } else if blocks.len() == 1 {
        blocks[0]
    } else {
        joined_blocks(blocks.drop_last()) + "\n\n"@ + blocks.last()
    }
}

pub fn severity_color(severity: Severity) -> (r: &'static str)
    ensures
        r@ == severity_color_spec(severity),
{
    match severity {
        Severity::Error => "31",
        Severity::Warning => "33",
        Severity::Info => "36",
        Severity::Hint => "2",
    }
}

pub fn paint(text: &str, color: &str, bold: bool) -> (r: String)
    ensures
        r@ == paint_spec(text@, color@, bold),
{
    let mut out = String::new();
    push_str(&mut out, "\x1b[");
    push_str(&mut out, if bold { "1;" } else { "" });
    push_str(&mut out, color);
    push_str(&mut out, "m");
    push_str(&mut out, text);
    push_str(&mut out, "\x1b[0m");
    assert(out@ =~= paint_spec(text@, color@, bold));
    out
}

impl DiagnosticStyle {
    pub fn severity_label(self, severity: Severity, code: &str) -> (r: String)
        ensures
            r@ == severity_label_spec(self, severity, code@),
    {
        let mut label = String::new();
        push_str(&mut label, severity.label());
        push_str(&mut label, "[");
        push_str(&mut label, code);
        push_str(&mut label, "]");
        match self {
            DiagnosticStyle::Plain => label,
            DiagnosticStyle::Ansi => paint(label.as_str(), severity_color(severity), true),
        }
    }

    pub fn underline(self, underline: &str, severity: Severity) -> (r: String)
        ensures
            r@ == underline_spec(self, underline@, severity),
    {
        match self {
            DiagnosticStyle::Plain => String::from_str(underline),
            DiagnosticStyle::Ansi => paint(underline, severity_color(severity), true),
        }
    }
}

fn clamp_usize(x: usize, lo: usize, hi: usize) -> (r: usize)
    requires
        lo <= hi,
    ensures
        r as int == clamp_spec(x as int, lo as int, hi as int),
{
    if x < lo {
        lo
    } else if x > hi {
        hi
    } else {
        x
    }
}

proof fn lemma_boundary_in_prefix(b: Seq<u8>, i: int, n: int)
    requires
        valid_utf8(b),
        0 <= i <= n <= b.len(),
        is_char_boundary(b, i),
        is_char_boundary(b, n),
    ensures
        valid_utf8(b.subrange(0, n)),
        is_char_boundary(b.subrange(0, n), i),
{
    valid_utf8_split(b, n);
    let p = b.subrange(0, n);
    is_char_boundary_start_end_of_seq(p);
    if i < n {
        is_char_boundary_iff_not_is_continuation_byte(b, i);
        is_char_boundary_iff_not_is_continuation_byte(p, i);
    }
}

proof fn lemma_decimal_len(n: nat)
    ensures
        1 <= decimal(n).len() <= n / 2 + 1,
    decreases n,
{
    if n >= 10 {
        lemma_decimal_len(n / 10);
    }
}

fn render_head(
    source_name: &str,
    source: &str,
    diagnostic: &Diagnostic,
    style: DiagnosticStyle,
    line: usize,
    col: usize,
    line_start: usize,
    line_end: usize,
) -> (r: String)
    requires
        renderable(source.spec_bytes(), diagnostic.span),
        (line as int, col as int) == line_col_spec(source.spec_bytes(), diagnostic.span.start as int),
        (line_start as int, line_end as int) == line_bounds_spec(source.spec_bytes(), diagnostic.span.start as int),
    ensures
        r@ == block_head(source_name@, source.spec_bytes(), diagnostic@, style),
{
    let ghost bytes_spec = source.spec_bytes();
    proof {
        encode_utf8_valid_utf8(source@);
        lemma_line_bounds_valid(bytes_spec, diagnostic.span.start as int);
    }
    let bytes = source.as_bytes();
    let underline_start = clamp_usize(diagnostic.span.start, line_start, line_end);
    let underline_end = clamp_usize(diagnostic.span.end, underline_start, line_end);
    proof {
        lemma_boundary_in_prefix(bytes_spec, line_start as int, line_end as int);
    }
    let (left, _) = source.split_at(line_end);
    let (_, source_line) = left.split_at(line_start);
    proof {
        assert(source_line.spec_bytes() =~= bytes_spec.subrange(line_start as int, line_end as int));
        encode_utf8_decode_utf8(source_line@);
    }
    let padding = count_chars(bytes, line_start, underline_start);
    let count = count_chars(bytes, underline_start, underline_end);
    let width = if count >= 1 { count } else { 1 };
    let carets = crate::text::repeat_char('^', width);
    let underline = style.underline(carets.as_str(), diagnostic.severity);
    let line_text = decimal_string(line);
    let gutter_width = chars_of(line_text.as_str()).len();
    let label = style.severity_label(diagnostic.severity, diagnostic.code.as_str());

    let mut rendered = String::new();
    push_str(&mut rendered, label.as_str());
    push_str(&mut rendered, ": ");
    push_str(&mut rendered, diagnostic.message.as_str());
    push_str(&mut rendered, "\n");
    push_repeated(&mut rendered, ' ', gutter_width);
    push_str(&mut rendered, "--> ");
    push_str(&mut rendered, source_name);
    push_str(&mut rendered, ":");
    push_str(&mut rendered, line_text.as_str());
    push_str(&mut rendered, ":");
    push_decimal(&mut rendered, col);
    push_str(&mut rendered, "\n");
    push_repeated(&mut rendered, ' ', gutter_width);
    push_str(&mut rendered, " |");
    push_str(&mut rendered, "\n");
    push_str(&mut rendered, line_text.as_str());
    push_str(&mut rendered, " | ");
    push_str(&mut rendered, source_line);
    push_str(&mut rendered, "\n");
    push_repeated(&mut rendered, ' ', gutter_width);
    push_str(&mut rendered, " | ");
    push_repeated(&mut rendered, ' ', padding);
    push_str(&mut rendered, underline.as_str());
    assert(rendered@ =~= block_head(source_name@, bytes_spec, diagnostic@, style));
    rendered
}

fn push_related_notes(
    rendered: &mut String,
    source_name: &str,
    source: &str,
    related: &Vec<RelatedSpan>,
    pad_width: usize,
)
    requires
        source.spec_bytes().len() < usize::MAX,
    ensures
        final(rendered)@ == old(rendered)@ + related_notes(
            related@.map_values(|r: RelatedSpan| related_view(r)),
            source.spec_bytes(),
            source_name@,
            repeated(' ', pad_width as nat),
        ),
{
    let ghost before = rendered@;
    let ghost views = related@.map_values(|r: RelatedSpan| related_view(r));
    let ghost pad = repeated(' ', pad_width as nat);
    let mut i: usize = 0;
    while i < related.len()
        invariant
            i <= related.len(),
            views == related@.map_values(|r: RelatedSpan| related_view(r)),
            source.spec_bytes().len() < usize::MAX,
            pad == repeated(' ', pad_width as nat),
            rendered@ == before + related_notes(views.take(i as int), source.spec_bytes(), source_name@, pad),
        decreases related.len() - i,
    {
        let item = &related[i];
        let (related_line, related_col) = line_col(source, item.span.start);
        push_str(rendered, "\n");
        push_repeated(rendered, ' ', pad_width);
        push_str(rendered, "= note: ");
        push_str(rendered, item.message.as_str());
        push_str(rendered, " at ");
        push_str(rendered, source_name);
        push_str(rendered, ":");
        push_decimal(rendered, related_line);
        push_str(rendered, ":");
        push_decimal(rendered, related_col);
        proof {
            assert(views.take(i + 1).drop_last() =~= views.take(i as int));
            assert(views.take(i + 1).last() == views[i as int]);
        }
        i += 1;
    }
    assert(views.take(related.len() as int) =~= views);
}

/// The block for one diagnostic in the given style.
#[verifier::rlimit(40)]
pub fn render_diagnostic_with_style(
    source_name: &str,
    source: &str,
    diagnostic: &Diagnostic,
    style: DiagnosticStyle,
) -> (r: String)
    requires
        renderable(source.spec_bytes(), diagnostic.span),
    ensures
        r@ == diagnostic_block(source_name@, source.spec_bytes(), diagnostic@, style),
{
    let (line, col) = line_col(source, diagnostic.span.start);
    let (line_start, line_end) = line_bounds(source, diagnostic.span.start);
    let mut rendered = render_head(source_name, source, diagnostic, style, line, col, line_start, line_end);
    let line_text = decimal_string(line);
    let gutter_width = chars_of(line_text.as_str()).len();
    proof {
        lemma_decimal_len(line as nat);
    }
    let ghost head = rendered@;
    let ghost gutter = repeated(' ', gutter_width as nat);
    let ghost detail = repeated(' ', (gutter_width + 1) as nat);
    let ghost dv = diagnostic@;
    let has_extra = diagnostic.help.is_some() || diagnostic.related.len() > 0;
    assert(has_extra == (dv.help is Some || dv.related.len() > 0));
    if has_extra {
        push_str(&mut rendered, "\n");
        push_repeated(&mut rendered, ' ', gutter_width);
        push_str(&mut rendered, " |");
    }
    let ghost separator = if has_extra { "\n"@ + gutter + " |"@ } else { Seq::empty() };
    assert(rendered@ =~= head + separator);
    let ghost after_separator = rendered@;
    if let Some(help) = &diagnostic.help {
        push_str(&mut rendered, "\n");
        push_repeated(&mut rendered, ' ', gutter_width + 1);
        push_str(&mut rendered, "= help: ");
        push_str(&mut rendered, help.as_str());
    }
    let ghost help_part = match dv.help {
        Some(h) => "\n"@ + detail + "= help: "@ + h,
        None => Seq::empty(),
    };
    assert(rendered@ =~= after_separator + help_part);
    let ghost before_notes = rendered@;
    push_related_notes(&mut rendered, source_name, source, &diagnostic.related, gutter_width + 1);
    assert(rendered@ == before_notes + related_notes(dv.related, source.spec_bytes(), source_name@, detail));
    assert(rendered@ == head + separator + help_part + related_notes(dv.related, source.spec_bytes(), source_name@, detail));
    rendered
}

/// The block for one diagnostic, without colors.
/// Whether `span` can be rendered against `source`: the underlined slice
/// starts and ends on character boundaries.
pub fn is_renderable(source: &str, span: Span) -> (r: bool)
    ensures
        r == renderable(source.spec_bytes(), span),
{
    let n = source.as_bytes().len();
    if n == usize::MAX {
        return false;
    }
    let (line_start, line_end) = line_bounds(source, span.start);
    proof {
        encode_utf8_valid_utf8(source@);
        lemma_line_bounds_valid(source.spec_bytes(), span.start as int);
    }
    let us = clamp_usize(span.start, line_start, line_end);
    let ue = clamp_usize(span.end, us, line_end);
    source.is_char_boundary(us) && source.is_char_boundary(ue)
}

pub fn render_diagnostic(source_name: &str, source: &str, diagnostic: &Diagnostic) -> (r: String)
    requires
        renderable(source.spec_bytes(), diagnostic.span),
    ensures
        r@ == diagnostic_block(source_name@, source.spec_bytes(), diagnostic@, DiagnosticStyle::Plain),
{
    render_diagnostic_with_style(source_name, source, diagnostic, DiagnosticStyle::Plain)
}

/// The blocks of all diagnostics, in order, separated by blank lines.
#[verifier::spinoff_prover]
#[verifier::rlimit(40)]
pub fn render_diagnostics_with_style(
    source_name: &str,
    source: &str,
    diagnostics: &[Diagnostic],
    style: DiagnosticStyle,
) -> (r: String)
    requires
        forall|i: int| 0 <= i < diagnostics.len() ==> renderable(source.spec_bytes(), #[trigger] diagnostics@[i].span),
    ensures
        r@ == joined_blocks(diagnostics@.map_values(|d: Diagnostic| diagnostic_block(source_name@, source.spec_bytes(), d@, style))),
{
    let ghost blocks = diagnostics@.map_values(|d: Diagnostic| diagnostic_block(source_name@, source.spec_bytes(), d@, style));
    let mut out = String::new();
    let mut i: usize = 0;
    while i < diagnostics.len()
        invariant
            i <= diagnostics.len(),
            blocks == diagnostics@.map_values(|d: Diagnostic| diagnostic_block(source_name@, source.spec_bytes(), d@, style)),
            forall|j: int| 0 <= j < diagnostics.len() ==> renderable(source.spec_bytes(), #[trigger] diagnostics@[j].span),
            out@ == joined_blocks(blocks.take(i as int)),
        decreases diagnostics.len() - i,
    {
        let block = render_diagnostic_with_style(source_name, source, &diagnostics[i], style);
        if i > 0 {
            push_str(&mut out, "\n\n");
        }
        push_str(&mut out, block.as_str());
        proof {
            assert(blocks.take(i + 1).drop_last() =~= blocks.take(i as int));
            assert(blocks.take(i + 1).last() == blocks[i as int]);
            if i == 0 {
                assert(out@ =~= blocks.take(1)[0]);
            }
        }
        i += 1;
    }
    assert(blocks.take(diagnostics.len() as int) =~= blocks);
    out
}

/// All blocks, without colors.
pub fn render_diagnostics(source_name: &str, source: &str, diagnostics: &[Diagnostic]) -> (r: String)
    requires
        forall|i: int| 0 <= i < diagnostics.len() ==> renderable(source.spec_bytes(), #[trigger] diagnostics@[i].span),
    ensures
        r@ == joined_blocks(diagnostics@.map_values(|d: Diagnostic| diagnostic_block(source_name@, source.spec_bytes(), d@, DiagnosticStyle::Plain))),
{
    render_diagnostics_with_style(source_name, source, diagnostics, DiagnosticStyle::Plain)
}

} // verus!
