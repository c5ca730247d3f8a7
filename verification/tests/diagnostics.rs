use mdcpl::diagnostics::{DiagnosticEngine, DiagnosticKind, LexerDiagnosticKind, Severity};
use mdcpl::source::SourceLocation;

fn loc(line: usize, col: usize) -> SourceLocation {
    SourceLocation::new(&"f.c".to_string(), line, col)
}

#[test]
fn new_engine_is_empty() {
    let engine = DiagnosticEngine::new();
    assert_eq!(engine.diagnostics_vec.len(), 0);
    assert_eq!(engine.error_count, 0);
    assert_eq!(engine.warning_count, 0);
    assert!(!engine.has_fatal);
    assert_eq!(engine.exit_code, 0);
    assert!(!engine.has_errors());
    assert!(engine.render().is_empty());
}

#[test]
fn emit_counts_by_severity() {
    let mut engine = DiagnosticEngine::new();
    assert!(engine.emit(Severity::Error, DiagnosticKind::Lexer(LexerDiagnosticKind::InvalidCharacter), "bad", loc(1, 2), 0, None));
    assert!(engine.emit(Severity::Warning, DiagnosticKind::Lexer(LexerDiagnosticKind::Null), "meh", loc(1, 3), 0, None));
    assert!(engine.emit(Severity::Error, DiagnosticKind::Lexer(LexerDiagnosticKind::InvalidIdentifier), "worse", loc(2, 0), 0, None));
    assert_eq!(engine.diagnostics_vec.len(), 3);
    assert_eq!(engine.error_count, 2);
    assert_eq!(engine.warning_count, 1);
    assert!(!engine.has_fatal);
    assert!(engine.has_errors());
}

#[test]
fn fatal_is_sticky() {
    let mut engine = DiagnosticEngine::new();
    assert!(engine.emit(Severity::Warning, DiagnosticKind::Lexer(LexerDiagnosticKind::Null), "w", loc(0, 0), 0, None));
    assert!(!engine.emit(Severity::Fatal, DiagnosticKind::Lexer(LexerDiagnosticKind::Null), "stop", loc(0, 0), 0, None));
    assert!(engine.has_fatal);
    assert!(!engine.has_errors());
    assert!(!engine.emit(Severity::Warning, DiagnosticKind::Lexer(LexerDiagnosticKind::Null), "w2", loc(0, 0), 0, None));
    assert!(!engine.emit(Severity::Error, DiagnosticKind::Lexer(LexerDiagnosticKind::Null), "e", loc(0, 0), 0, None));
    assert_eq!(engine.error_count, 1);
    assert_eq!(engine.warning_count, 2);
}

#[test]
fn render_header_only() {
    let mut engine = DiagnosticEngine::new();
    engine.emit(Severity::Error, DiagnosticKind::Lexer(LexerDiagnosticKind::InvalidCharacter), "boom", loc(13, 4), 3, None);
    assert_eq!(engine.render(), vec!["f.c:13:4: error: boom".to_string()]);
}

#[test]
fn render_with_source_line_and_underline() {
    let mut engine = DiagnosticEngine::new();
    engine.emit(Severity::Warning, DiagnosticKind::Lexer(LexerDiagnosticKind::UnterminatedStringLiteral), "careful", loc(3, 4), 2, Some("int x;"));
    engine.emit(Severity::Fatal, DiagnosticKind::Lexer(LexerDiagnosticKind::Null), "dead", loc(0, 0), 1, Some("y"));
    assert_eq!(
        engine.render(),
        vec![
            "f.c:3:4: warning: careful".to_string(),
            "\tint x;".to_string(),
            "\t    ^~".to_string(),
            "f.c:0:0: fatal: dead".to_string(),
            "\ty".to_string(),
            "\t^".to_string(),
        ]
    );
}

#[test]
fn render_zero_span_has_no_caret() {
    let mut engine = DiagnosticEngine::new();
    engine.emit(Severity::Error, DiagnosticKind::Lexer(LexerDiagnosticKind::Null), "m", loc(1, 3), 0, Some("abcd"));
    assert_eq!(
        engine.render(),
        vec!["f.c:1:3: error: m".to_string(), "\tabcd".to_string(), "\t   ".to_string()]
    );
}

#[test]
fn render_large_numbers() {
    let mut engine = DiagnosticEngine::new();
    engine.emit(Severity::Error, DiagnosticKind::Lexer(LexerDiagnosticKind::Null), "x", loc(1234567, 90), 0, None);
    assert_eq!(engine.render(), vec!["f.c:1234567:90: error: x".to_string()]);
}

#[test]
fn can_render_detects_overflowing_underline() {
    let mut engine = DiagnosticEngine::new();
    engine.emit(Severity::Error, DiagnosticKind::Lexer(LexerDiagnosticKind::Null), "x", loc(1, usize::MAX), 0, None);
    assert!(engine.can_render());
    engine.emit(Severity::Error, DiagnosticKind::Lexer(LexerDiagnosticKind::Null), "x", loc(1, usize::MAX), 1, Some("l"));
    assert!(!engine.can_render());
}

#[test]
fn source_location_new_and_clone() {
    let l = loc(7, 9);
    assert_eq!(l.file_name, "f.c".to_string());
    assert_eq!(l.line_num, 7);
    assert_eq!(l.column_num, 9);
    assert_eq!(l.clone(), l);
}
