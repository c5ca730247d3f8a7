use mdcpl::diagnostics::DiagnosticEngine;
use mdcpl::lexer::token::{Token, TokenKind};
use mdcpl::lexer::{utf8_width, Lexer};
use mdcpl::source::SourceLocation;

#[test]
fn tokenize_reads_every_character() {
    let mut engine = DiagnosticEngine::new();
    let lexer = Lexer::new("int x;\nré€𝄞".to_string(), "a.i");
    let (tokens, chars) = lexer.tokenize(&mut engine);
    assert!(tokens.is_empty());
    assert_eq!(chars, "int x;\nré€𝄞".chars().collect::<Vec<char>>());
    assert_eq!(engine.diagnostics_vec.len(), 0);
}

#[test]
fn tokenize_empty_text() {
    let mut engine = DiagnosticEngine::new();
    let (tokens, chars) = Lexer::new(String::new(), "a.i").tokenize(&mut engine);
    assert!(tokens.is_empty());
    assert!(chars.is_empty());
}

#[test]
fn advance_tracks_lines_columns_and_bytes() {
    let mut lexer = Lexer::new("aé\n€b".to_string(), "a.i");
    assert_eq!(lexer.peek(), Some('a'));
    assert_eq!(lexer.advance(), Some('a'));
    assert_eq!((lexer.current_line(), lexer.current_column(), lexer.current_offset()), (0, 1, 1));
    assert_eq!(lexer.advance(), Some('é'));
    assert_eq!((lexer.current_line(), lexer.current_column(), lexer.current_offset()), (0, 2, 3));
    assert_eq!(lexer.advance(), Some('\n'));
    assert_eq!((lexer.current_line(), lexer.current_column(), lexer.current_offset()), (1, 0, 4));
    assert_eq!(lexer.peek(), Some('€'));
    assert_eq!(lexer.advance(), Some('€'));
    assert_eq!((lexer.current_line(), lexer.current_column(), lexer.current_offset()), (1, 1, 7));
    assert_eq!(lexer.advance(), Some('b'));
    assert_eq!(lexer.peek(), None);
    assert_eq!(lexer.advance(), None);
    assert_eq!((lexer.current_line(), lexer.current_column(), lexer.current_offset()), (1, 2, 8));
}

#[test]
fn utf8_widths() {
    assert_eq!(utf8_width('a'), 1);
    assert_eq!(utf8_width('é'), 2);
    assert_eq!(utf8_width('€'), 3);
    assert_eq!(utf8_width('𝄞'), 4);
    for c in ['\0', '\u{7f}', '\u{80}', '\u{7ff}', '\u{800}', '\u{ffff}', '\u{10000}', '\u{10ffff}'] {
        assert_eq!(utf8_width(c), c.len_utf8());
    }
}

#[test]
fn token_new_and_clone() {
    let loc = SourceLocation::new(&"a.i".to_string(), 2, 5);
    let t = Token::new(TokenKind::Identifier, "main".to_string(), loc.clone());
    assert_eq!(t.kind, TokenKind::Identifier);
    assert_eq!(t.lexeme, "main");
    assert_eq!(t.location, loc);
    assert_eq!(t.clone(), t);
}
