use std::collections::BTreeSet;

use pdl::codes;
use pdl::diagnostic::{all_codes, has_errors, Diagnostic, DiagnosticCode};
use pdl::severity::Severity;
use pdl::source::{line_bounds, line_col, render_diagnostic};
use pdl::span::Span;

#[test]
fn registered_codes_are_unique_and_well_formed() {
    let mut seen = BTreeSet::new();
    let codes = all_codes();
    for code in &codes {
        let text = code.as_str();
        assert_eq!(text.len(), 5, "{text}");
        assert!(
            matches!(text.as_bytes()[0], b'E' | b'W' | b'H' | b'R'),
            "{text}"
        );
        assert!(
            text[1..].bytes().all(|byte| byte.is_ascii_digit()),
            "{text}"
        );
        assert!(seen.insert(text.to_string()), "duplicate diagnostic code {text}");
        assert_eq!(DiagnosticCode::parse(text), Some(code.clone()));
    }
}

#[test]
fn line_col_uses_byte_offsets() {
    assert_eq!(line_col("a\néz", 3), (2, 2));
}

#[test]
fn spans_are_half_open_byte_ranges() {
    let span = Span::new(2, 5);

    assert_eq!(span.len(), 3);
    assert!(!span.is_empty());
    assert!(span.contains(2));
    assert!(span.contains(4));
    assert!(!span.contains(5));
    assert_eq!(span.cover(Span::new(0, 3)), Span::new(0, 5));
}

#[test]
fn diagnostic_payload_keeps_code_severity_related_and_help() {
    let diagnostic = Diagnostic::error(codes::E1005(), "unknown column", Span::new(4, 6))
        .with_related(Span::new(0, 2), "source schema")
        .with_help("check the column spelling");

    assert_eq!(diagnostic.code.as_str(), "E1005");
    assert_eq!(diagnostic.severity, Severity::Error);
    assert_eq!(diagnostic.related[0].message, "source schema");
    assert_eq!(diagnostic.help.as_deref(), Some("check the column spelling"));
}

#[test]
fn registry_has_every_class_and_rejects_unregistered_codes() {
    let codes = all_codes();
    assert_eq!(codes.len(), 208);
    assert_eq!(codes[0].as_str(), "E0001");
    assert_eq!(codes[codes.len() - 1].as_str(), "R4008");
    assert!(DiagnosticCode::parse("E0028").is_none());
    assert!(DiagnosticCode::parse("X0001").is_none());
    assert!(DiagnosticCode::parse("E001").is_none());
    assert_eq!(DiagnosticCode::parse("H3012").map(|c| c.as_str().to_string()), Some("H3012".to_string()));
}

#[test]
fn span_constructors_and_join() {
    assert_eq!(Span::empty(7), Span::new(7, 7));
    assert!(Span::empty(7).is_empty());
    assert_eq!(Span::zero(), Span::new(0, 0));
    assert_eq!(Span::new(3, 4).join(Span::new(8, 9)), Span::new(3, 9));
    assert_eq!(Span::new(3, 4).cover(Span::new(3, 4)), Span::new(3, 4));
}

#[test]
fn has_errors_looks_for_error_severity() {
    let warning = Diagnostic::warning(DiagnosticCode::new("W2001"), "w", Span::zero());
    let error = Diagnostic::error(codes::E1005(), "e", Span::zero());
    assert!(!has_errors(&[warning.clone()]));
    assert!(has_errors(&[warning, error]));
    assert!(!has_errors(&[]));
}

#[test]
fn one_line_rendering_and_line_bounds() {
    let d = Diagnostic::error(codes::E1005(), "unknown column", Span::new(4, 6));
    assert_eq!(render_diagnostic("t.pdl", "ab\ncde", &d), "error[E1005] t.pdl:2:2: unknown column");
    assert_eq!(line_bounds("ab\ncde\nf", 4), (3, 6));
    assert_eq!(line_bounds("ab", 99), (0, 2));
    assert_eq!(line_col("ab\ncd", 100), (2, 3));
}

#[test]
fn severities_label_themselves() {
    assert_eq!(Severity::Error.label(), "error");
    assert_eq!(Severity::Warning.label(), "warning");
    assert_eq!(Severity::Info.label(), "info");
    assert_eq!(Severity::Hint.label(), "hint");
    assert!(Severity::Error.is_error());
    assert!(!Severity::Hint.is_error());
}
