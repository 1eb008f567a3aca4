use pdl::codes;
use pdl::diagnostic::Diagnostic;
use pdl::report_render::{
    is_renderable, render_diagnostic, render_diagnostic_with_style, render_diagnostics,
    DiagnosticStyle,
};
use pdl::span::Span;

#[test]
fn grouped_diagnostics_have_blank_line_between_blocks() {
    let source = "load \"sales.csv\"\n  filter \"staus\" == \"completed\"";
    let diagnostics = [
        Diagnostic::error(codes::E0001(), "expected `|` before stage", Span::new(19, 25)),
        Diagnostic::error(codes::E1005(), "unknown column `staus`", Span::new(26, 33)),
    ];

    let rendered = render_diagnostics("main.pdl", source, &diagnostics);

    assert!(rendered.contains("\n\nerror[E1005]: unknown column `staus`"));
    assert!(rendered.contains(" --> main.pdl:2:10"));
}

#[test]
fn diagnostic_rendering_uses_source_snippet_and_caret() {
    let diagnostic = Diagnostic::error(codes::E1005(), "unknown column", Span::new(4, 6));

    assert_eq!(
        render_diagnostic("test.pdl", "ab\ncde", &diagnostic),
        "error[E1005]: unknown column\n --> test.pdl:2:2\n  |\n2 | cde\n  |  ^^"
    );
}

#[test]
fn diagnostic_rendering_uses_help_and_related_notes() {
    let diagnostic = Diagnostic::error(codes::E1005(), "unknown column", Span::new(4, 6))
        .with_help("check the loaded CSV header")
        .with_related(Span::new(0, 2), "loaded here");

    assert_eq!(
        render_diagnostic("test.pdl", "ab\ncde", &diagnostic),
        "error[E1005]: unknown column\n --> test.pdl:2:2\n  |\n2 | cde\n  |  ^^\n  |\n  = help: check the loaded CSV header\n  = note: loaded here at test.pdl:1:1"
    );
}

#[test]
fn diagnostic_rendering_can_color_severity_and_underline() {
    let diagnostic = Diagnostic::error(codes::E1005(), "unknown column", Span::new(4, 6));

    let rendered =
        render_diagnostic_with_style("test.pdl", "ab\ncde", &diagnostic, DiagnosticStyle::Ansi);

    assert!(rendered.contains("\x1b[1;31merror[E1005]\x1b[0m"));
    assert!(rendered.contains("\x1b[1;31m^^\x1b[0m"));
}

#[test]
fn diagnostic_rendering_counts_non_ascii_columns_as_chars() {
    let source = "load \"é.csv\"\n  | filter \"staus\" == \"completed\"";
    let start = source.find("\"staus\"").expect("span start");
    let diagnostic = Diagnostic::error(
        codes::E1005(),
        "unknown column `staus`",
        Span::new(start, start + "\"staus\"".len()),
    );

    assert_eq!(
        render_diagnostic("main.pdl", source, &diagnostic),
        "error[E1005]: unknown column `staus`\n --> main.pdl:2:12\n  |\n2 |   | filter \"staus\" == \"completed\"\n  |            ^^^^^^^"
    );
}

#[test]
fn renderable_spans_are_those_on_character_boundaries() {
    let source = "é";
    assert!(is_renderable(source, Span::new(0, 2)));
    assert!(!is_renderable(source, Span::new(1, 2)));
    assert!(is_renderable("abc", Span::new(10, 20)));
}

#[test]
fn warning_blocks_use_the_warning_label_and_color() {
    let diagnostic = Diagnostic::warning(pdl::diagnostic::DiagnosticCode::new("W2001"), "odd", Span::new(0, 1));
    let plain = render_diagnostic("w.pdl", "x", &diagnostic);
    assert_eq!(plain, "warning[W2001]: odd\n --> w.pdl:1:1\n  |\n1 | x\n  | ^");
    let ansi = render_diagnostic_with_style("w.pdl", "x", &diagnostic, DiagnosticStyle::Ansi);
    assert!(ansi.starts_with("\x1b[1;33mwarning[W2001]\x1b[0m"));
}

#[test]
fn codes_compare_with_their_text() {
    let code = pdl::diagnostic::DiagnosticCode::new("E1005");
    assert_eq!(code.as_str(), "E1005");
    assert!(code.eq_str("E1005"));
    assert!(!code.eq_str("E1006"));
    assert_eq!(pdl::diagnostic::all_codes().len(), 208);
}
