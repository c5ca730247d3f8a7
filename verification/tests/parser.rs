use mdcpl::diagnostics::DiagnosticEngine;
use mdcpl::lexer::token::{Token, TokenKind};
use mdcpl::lexer::token::TokenKind::{
    Char, Double, Eof, Identifier, Int, Integer, LeftBrace, LeftParen, Long, Return, RightBrace, RightParen, Semicolon, Void,
};
use mdcpl::parser::ast::{Declaration, Expression, Statement, Type};
use mdcpl::parser::Parser;
use mdcpl::source::SourceLocation;

fn tokens(spec: &[(TokenKind, &str)]) -> Vec<Token> {
    let fname = "t.i".to_string();
    spec.iter()
        .enumerate()
        .map(|(i, (k, lex))| Token::new(*k, lex.to_string(), SourceLocation::new(&fname, 1, i)))
        .collect()
}

#[test]
fn parses_a_function_returning_a_literal() {
    let toks = tokens(&[
        (Int, "int"), (Identifier, "main"), (LeftParen, "("), (Void, "void"), (RightParen, ")"),
        (LeftBrace, "{"), (Return, "return"), (Integer, "42"), (Semicolon, ";"), (RightBrace, "}"), (Eof, ""),
    ]);
    let mut engine = DiagnosticEngine::new();
    let mut parser = Parser::new(toks, "t.c");
    let program = parser.parse(&mut engine);
    assert_eq!(engine.diagnostics_vec.len(), 0);
    assert_eq!(program.declarations.len(), 1);
    match &program.declarations[0] {
        Declaration::FunctionDeclaration(f) => {
            assert_eq!(f.name, "main");
            assert_eq!(f.return_type, Type::Int);
            assert_eq!(f.location.column_num, 0);
            assert_eq!(f.parameters.len(), 1);
            assert_eq!(f.parameters[0].name, "");
            assert_eq!(f.parameters[0].param_type, Type::Void);
            assert_eq!(f.parameters[0].location.column_num, 3);
            assert_eq!(f.body.location.column_num, 6);
            assert_eq!(f.body.statements.len(), 1);
            match &f.body.statements[0] {
                Statement::Return(r) => {
                    assert_eq!(r.location.column_num, 7);
                    match &r.expression {
                        Some(Expression::IntegerLiteral(v, l)) => {
                            assert_eq!(*v, 42);
                            assert_eq!(l.column_num, 7);
                        }
                        other => panic!("unexpected expression {:?}", other),
                    }
                }
                other => panic!("unexpected statement {:?}", other),
            }
        }
        Declaration::Error => panic!("unexpected error declaration"),
    }
}

#[test]
fn parses_named_parameters_and_several_functions() {
    let toks = tokens(&[
        (Long, "long"), (Identifier, "f"), (LeftParen, "("), (Int, "int"), (Identifier, "a"), (Char, "char"), (Identifier, "b"),
        (RightParen, ")"), (LeftBrace, "{"), (Return, "return"), (Integer, "-9223372036854775808"), (Semicolon, ";"),
        (Return, "return"), (Integer, "+3"), (Semicolon, ";"), (RightBrace, "}"),
        (Double, "double"), (Identifier, "g"), (LeftParen, "("), (RightParen, ")"), (LeftBrace, "{"), (RightBrace, "}"),
        (Eof, ""),
    ]);
    let mut engine = DiagnosticEngine::new();
    let mut parser = Parser::new(toks, "t.c");
    let program = parser.parse(&mut engine);
    assert_eq!(engine.error_count, 0);
    assert_eq!(program.declarations.len(), 2);
    let f = match &program.declarations[0] {
        Declaration::FunctionDeclaration(f) => f,
        Declaration::Error => panic!(),
    };
    assert_eq!(f.name, "f");
    assert_eq!(f.return_type, Type::Long);
    let names: Vec<&str> = f.parameters.iter().map(|p| p.name.as_str()).collect();
    assert_eq!(names, vec!["a", "b"]);
    assert_eq!(f.parameters[1].param_type, Type::Char);
    assert_eq!(f.body.statements.len(), 2);
    match &f.body.statements[0] {
        Statement::Return(r) => assert!(matches!(r.expression, Some(Expression::IntegerLiteral(i64::MIN, _)))),
        _ => panic!(),
    }
    match &f.body.statements[1] {
        Statement::Return(r) => assert!(matches!(r.expression, Some(Expression::IntegerLiteral(3, _)))),
        _ => panic!(),
    }
    match &program.declarations[1] {
        Declaration::FunctionDeclaration(g) => {
            assert_eq!(g.name, "g");
            assert_eq!(g.return_type, Type::Double);
            assert!(g.parameters.is_empty());
            assert!(g.body.statements.is_empty());
        }
        Declaration::Error => panic!(),
    }
}

#[test]
fn missing_name_reports_unexpected_token() {
    let toks = tokens(&[(Int, "int"), (Eof, "")]);
    let mut engine = DiagnosticEngine::new();
    let mut parser = Parser::new(toks, "t.c");
    let program = parser.parse(&mut engine);
    assert!(program.declarations.is_empty());
    assert_eq!(engine.error_count, 1);
    assert_eq!(engine.render(), vec!["t.c:1:1: error: Unexpected token".to_string()]);
}

#[test]
fn missing_parameter_type_reports_invalid_type_keyword() {
    let toks = tokens(&[(Int, "int"), (Identifier, "f"), (LeftParen, "("), (Eof, "EOF")]);
    let mut engine = DiagnosticEngine::new();
    let mut parser = Parser::new(toks, "t.c");
    let program = parser.parse(&mut engine);
    assert!(program.declarations.is_empty());
    assert_eq!(engine.render(), vec!["t.c:1:3: error: Invalid type keyword: EOF".to_string()]);
}

#[test]
fn a_bad_statement_drops_the_function() {
    let toks = tokens(&[
        (Void, "void"), (Identifier, "h"), (LeftParen, "("), (RightParen, ")"), (LeftBrace, "{"),
        (Return, "return"), (Integer, "1"), (Eof, ""),
    ]);
    let mut engine = DiagnosticEngine::new();
    let mut parser = Parser::new(toks, "t.c");
    let program = parser.parse(&mut engine);
    assert!(program.declarations.is_empty());
    assert_eq!(engine.render(), vec!["t.c:1:7: error: Unexpected token".to_string()]);
}

#[test]
fn empty_program() {
    let toks = tokens(&[(TokenKind::Eof, "")]);
    let mut engine = DiagnosticEngine::new();
    let mut parser = Parser::new(toks, "t.c");
    assert!(parser.parse(&mut engine).declarations.is_empty());
    assert!(!engine.has_errors());
}
