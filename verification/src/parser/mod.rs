//! The recursive-descent parser. Each routine's contract is the matching
//! function of `grammar`: the value, the position reached and the
//! diagnostics recorded are those it describes.

pub mod ast;
pub mod grammar;

use vstd::prelude::*;
use crate::diagnostics::{DiagnosticEngine, DiagnosticKind, ParserDiagnosticKind, Severity};
use crate::lexer::token::{Token, TokenKind};
use crate::source::SourceLocation;
use crate::text::parse_decimal_i64;
use ast::{CompoundStatement, Declaration, Expression, FunctionDeclaration, Parameter, Program, ReturnStatement, Statement, Type};
use grammar::{
    ParseDiag, ParseDiagKind, Step, engine_extended, kind_at, lemma_engine_extended_refl,
    lemma_engine_extended_trans, next_pos, parse_diag_message, spec_compound, spec_expect,
    spec_expression, spec_function, spec_parameter, spec_parameters, spec_program, spec_return,
    spec_statement, spec_statements, spec_type,
};
use ast::{DeclarationModel, ParamModel};

verus! {

/// The model of a parser diagnostic kind.
pub open spec fn diag_kind_model(k: ParserDiagnosticKind) -> ParseDiagKind {
    match k {
        ParserDiagnosticKind::InvalidTypeKeyword(s) => ParseDiagKind::InvalidTypeKeyword(s@),
        ParserDiagnosticKind::UnexpectedToken => ParseDiagKind::UnexpectedToken,
    }
}

/// The message a parser diagnostic kind is reported with.
fn parser_message(k: &ParserDiagnosticKind) -> (res: String)
    ensures
        res@ == parse_diag_message(diag_kind_model(*k)),
{
    match k {
        ParserDiagnosticKind::InvalidTypeKeyword(s) => s.clone(),
        ParserDiagnosticKind::UnexpectedToken => "Unexpected token".to_owned(),
    }
}

/// Parses a token sequence.
pub struct Parser {
    token_vec: Vec<Token>,
    current: usize,
    filename: String,
}

impl Parser {
    /// The tokens being parsed.
    pub closed spec fn tokens(&self) -> Seq<Token> {
        self.token_vec@
    }

    /// The index of the current token.
    pub closed spec fn position(&self) -> int {
        self.current as int
    }

    /// The name of the file, used in diagnostics.
    pub closed spec fn file_name(&self) -> String {
        self.filename
    }

    /// The current token exists.
    pub closed spec fn wf(&self) -> bool {
        self.current < self.token_vec@.len()
    }

    /// A parser at the first of `tokens`, for the file `fname`.
    pub fn new(tokens: Vec<Token>, fname: &str) -> (res: Self)
        ensures
            res.tokens() == tokens@,
            res.position() == 0,
            res.file_name()@ == fname@,
            res.wf() <==> tokens@.len() > 0,
    {
        Parser { token_vec: tokens, current: 0, filename: fname.to_owned() }
    }

    /// Parses declarations until an end-of-file token. A failed declaration
    /// is dropped and parsing resumes where it stopped; when a declaration
    /// consumes nothing, or an integer literal is out of range, the parser
    /// would never return, so such inputs (those `spec_program` marks as
    /// aborting) are outside the contract.
    pub fn parse(&mut self, diagnostic_engine: &mut DiagnosticEngine) -> (res: Program)
        requires
            old(self).wf(),
            !spec_program(old(self).tokens(), old(self).position()).aborts,
            old(diagnostic_engine).error_count + old(self).tokens().len() <= u64::MAX,
        ensures
            final(self).wf(),
            final(self).tokens() == old(self).tokens(),
            final(self).file_name() == old(self).file_name(),
            final(self).position() >= old(self).position(),
            kind_at(final(self).tokens(), final(self).position()) == TokenKind::Eof,
            ({
                let st = spec_program(old(self).tokens(), old(self).position());
                &&& st.diags.len() <= final(self).position() - old(self).position()
                &&& st.value == Some(res@)
                &&& final(self).position() == st.pos
                &&& engine_extended(*old(diagnostic_engine), *final(diagnostic_engine), st.diags, old(self).file_name())
            }),
    {
        let ghost toks = self.token_vec@;
        let ghost p0 = self.current as int;
        let ghost e0 = *diagnostic_engine;
        let ghost fname = self.filename;
        let ghost mut diags: Seq<ParseDiag> = Seq::empty();
        let mut declaration_vec: Vec<Declaration> = Vec::new();
        proof {
            lemma_engine_extended_refl(e0, fname);
            assert(declaration_vec@.map_values(|d: Declaration| d@) =~= Seq::<DeclarationModel>::empty());
            assert(spec_program(toks, p0) =~= combine_program(Seq::empty(), Seq::empty(), spec_program(toks, p0)));
        }
        while self.peek_kind() != TokenKind::Eof
            invariant
                self.wf(),
                self.token_vec@ == toks,
                self.filename == fname,
                0 <= p0 <= self.current,
                !spec_program(toks, self.current as int).aborts,
                spec_program(toks, p0) == combine_program(
                    declaration_vec@.map_values(|d: Declaration| d@),
                    diags,
                    spec_program(toks, self.current as int),
                ),
                engine_extended(e0, *diagnostic_engine, diags, fname),
                diags.len() <= self.current - p0,
                e0.error_count + toks.len() <= u64::MAX,
            decreases toks.len() - self.current,
        {
            let ghost cur = self.current as int;
            let ghost e1 = *diagnostic_engine;
            let ghost d = spec_function(toks, cur);
            let ghost before = declaration_vec@.map_values(|d: Declaration| d@);
            let r = self.parse_declaration(diagnostic_engine);
            proof {
                lemma_engine_extended_trans(e0, e1, *diagnostic_engine, diags, d.diags, fname);
            }
            match r {
                Some(declaration) => {
                    declaration_vec.push(declaration);
                },
                None => {},
            }
            proof {
                let after_decls = declaration_vec@.map_values(|d: Declaration| d@);
                let added: Seq<DeclarationModel> = match d.value {
                    Some(f) => seq![DeclarationModel::Function(f)],
                    None => Seq::empty(),
                };
                assert(after_decls =~= before + added);
                lemma_combine_program_step(before, added, diags, d.diags, spec_program(toks, self.current as int));
                diags = diags + d.diags;
            }
        }
        proof {
            let fin = declaration_vec@.map_values(|d: Declaration| d@);
            assert(fin + Seq::<DeclarationModel>::empty() =~= fin);
            assert(diags + Seq::<ParseDiag>::empty() =~= diags);
        }
        Program { declarations: declaration_vec }
    }

    /// A declaration (only function definitions are parsed).
    fn parse_declaration(&mut self, diagnostic_engine: &mut DiagnosticEngine) -> (res: Option<Declaration>)
        requires
            old(self).wf(),
            !spec_function(old(self).token_vec@, old(self).current as int).aborts,
            old(diagnostic_engine).error_count < u64::MAX,
        ensures
            final(self).wf(),
            final(self).token_vec@ == old(self).token_vec@,
            final(self).filename == old(self).filename,
            final(self).current >= old(self).current,
            ({
                let st = spec_function(old(self).token_vec@, old(self).current as int);
                &&& final(self).current == st.pos
                &&& (res is Some <==> st.value is Some)
                &&& (res matches Some(d) ==> st.value matches Some(f) && d@ == DeclarationModel::Function(f))
                &&& engine_extended(*old(diagnostic_engine), *final(diagnostic_engine), st.diags, old(self).filename)
                &&& st.diags.len() <= 1
            }),
    {
        let function_declaration = self.parse_function_declaration(diagnostic_engine)?;
        Some(Declaration::FunctionDeclaration(function_declaration))
    }

    /// A function definition.
    fn parse_function_declaration(&mut self, diagnostic_engine: &mut DiagnosticEngine) -> (res: Option<FunctionDeclaration>)
        requires
            old(self).wf(),
            !spec_function(old(self).token_vec@, old(self).current as int).aborts,
            old(diagnostic_engine).error_count < u64::MAX,
        ensures
            final(self).wf(),
            final(self).token_vec@ == old(self).token_vec@,
            final(self).filename == old(self).filename,
            final(self).current >= old(self).current,
            ({
                let st = spec_function(old(self).token_vec@, old(self).current as int);
                &&& final(self).current == st.pos
                &&& (res is Some <==> st.value is Some)
                &&& (res matches Some(f) ==> st.value == Some(f@))
                &&& engine_extended(*old(diagnostic_engine), *final(diagnostic_engine), st.diags, old(self).filename)
                &&& st.diags.len() <= 1
            }),
    {
        let ghost e0 = *diagnostic_engine;
        let ghost fname = self.filename;
        let f_location: SourceLocation = self.current_token().location.clone();
        let r_type: Type = self.parse_type(diagnostic_engine)?;
        let ghost e1 = *diagnostic_engine;
        let ghost p1 = self.current as int;
        let r = self.expect(TokenKind::Identifier, diagnostic_engine);
        proof {
            lemma_ext_prepend_empty(e0, e1, *diagnostic_engine, spec_expect(self.token_vec@, p1, TokenKind::Identifier).diags, fname);
        }
        let f_name: String = r?.lexeme;
        let ghost e2 = *diagnostic_engine;
        let ghost p2 = self.current as int;
        let r = self.expect(TokenKind::LeftParen, diagnostic_engine);
        proof {
            lemma_ext_prepend_empty(e0, e2, *diagnostic_engine, spec_expect(self.token_vec@, p2, TokenKind::LeftParen).diags, fname);
        }
        r?;
        let ghost e3 = *diagnostic_engine;
        let ghost p3 = self.current as int;
        let r = self.parse_parameters(diagnostic_engine);
        proof {
            lemma_ext_prepend_empty(e0, e3, *diagnostic_engine, spec_parameters(self.token_vec@, p3).diags, fname);
        }
        let f_params = r?;
        self.consume();
        let ghost e4 = *diagnostic_engine;
        let ghost p4 = self.current as int;
        let r = self.expect(TokenKind::LeftBrace, diagnostic_engine);
        proof {
            lemma_ext_prepend_empty(e0, e4, *diagnostic_engine, spec_expect(self.token_vec@, p4, TokenKind::LeftBrace).diags, fname);
        }
        r?;
        let ghost e5 = *diagnostic_engine;
        let ghost p5 = self.current as int;
        let r = self.parse_compound_statement(diagnostic_engine);
        proof {
            lemma_ext_prepend_empty(e0, e5, *diagnostic_engine, spec_compound(self.token_vec@, p5).diags, fname);
        }
        let compound_statement: CompoundStatement = r?;
        self.consume();
        let function_declaration = FunctionDeclaration {
            name: f_name,
            return_type: r_type,
            parameters: f_params,
            body: compound_statement,
            location: f_location,
        };
        proof {
            assert(function_declaration@.parameters == f_params@.map_values(|p: Parameter| p@));
        }
        Some(function_declaration)
    }

    /// Parameters up to a right parenthesis (the loop of a function
    /// definition's parameter list).
    fn parse_parameters(&mut self, diagnostic_engine: &mut DiagnosticEngine) -> (res: Option<Vec<Parameter>>)
        requires
            old(self).wf(),
            !spec_parameters(old(self).token_vec@, old(self).current as int).aborts,
            old(diagnostic_engine).error_count < u64::MAX,
        ensures
            final(self).wf(),
            final(self).token_vec@ == old(self).token_vec@,
            final(self).filename == old(self).filename,
            final(self).current >= old(self).current,
            ({
                let st = spec_parameters(old(self).token_vec@, old(self).current as int);
                &&& final(self).current == st.pos
                &&& (st.value is Some ==> st.diags.len() == 0)
                &&& (res is Some <==> st.value is Some)
                &&& (res matches Some(v) ==> st.value == Some(v@.map_values(|p: Parameter| p@)))
                &&& engine_extended(*old(diagnostic_engine), *final(diagnostic_engine), st.diags, old(self).filename)
                &&& st.diags.len() <= 1
            }),
        decreases old(self).token_vec@.len() - old(self).current,
    {
        let ghost toks = self.token_vec@;
        let ghost p0 = self.current as int;
        let ghost e0 = *diagnostic_engine;
        let ghost fname = self.filename;
        if self.peek_kind() == TokenKind::RightParen {
            let v: Vec<Parameter> = Vec::new();
            proof {
                lemma_engine_extended_refl(e0, fname);
                assert(v@.map_values(|p: Parameter| p@) =~= Seq::<ParamModel>::empty());
            }
            return Some(v);
        }
        let parameter = self.parse_parameter(diagnostic_engine)?;
        let ghost e1 = *diagnostic_engine;
        let ghost s = spec_parameter(toks, p0);
        let r = self.parse_parameters(diagnostic_engine);
        proof {
            lemma_ext_prepend_empty(e0, e1, *diagnostic_engine, spec_parameters(toks, s.pos).diags, fname);
        }
        let mut rest = r?;
        let ghost tail = rest@.map_values(|p: Parameter| p@);
        rest.insert(0, parameter);
        proof {
            assert(rest@.map_values(|p: Parameter| p@) =~= seq![s.value.unwrap()] + tail);
        }
        Some(rest)
    }

    /// A block's statements, up to a right brace.
    fn parse_compound_statement(&mut self, diagnostic_engine: &mut DiagnosticEngine) -> (res: Option<CompoundStatement>)
        requires
            old(self).wf(),
            !spec_compound(old(self).token_vec@, old(self).current as int).aborts,
            old(diagnostic_engine).error_count < u64::MAX,
        ensures
            final(self).wf(),
            final(self).token_vec@ == old(self).token_vec@,
            final(self).filename == old(self).filename,
            final(self).current >= old(self).current,
            ({
                let st = spec_compound(old(self).token_vec@, old(self).current as int);
                &&& final(self).current == st.pos
                &&& (st.value is Some ==> st.diags.len() == 0)
                &&& (res is Some <==> st.value is Some)
                &&& (res matches Some(c) ==> st.value == Some(c@))
                &&& engine_extended(*old(diagnostic_engine), *final(diagnostic_engine), st.diags, old(self).filename)
                &&& st.diags.len() <= 1
            }),
    {
        let current_token: Token = self.current_token().clone();
        let statement_vec = self.parse_statements(diagnostic_engine)?;
        let compound_statement = CompoundStatement { statements: statement_vec, location: current_token.location };
        Some(compound_statement)
    }

    /// Statements up to a right brace (the loop of a block).
    fn parse_statements(&mut self, diagnostic_engine: &mut DiagnosticEngine) -> (res: Option<Vec<Statement>>)
        requires
            old(self).wf(),
            !spec_statements(old(self).token_vec@, old(self).current as int).aborts,
            old(diagnostic_engine).error_count < u64::MAX,
        ensures
            final(self).wf(),
            final(self).token_vec@ == old(self).token_vec@,
            final(self).filename == old(self).filename,
            final(self).current >= old(self).current,
            ({
                let st = spec_statements(old(self).token_vec@, old(self).current as int);
                &&& final(self).current == st.pos
                &&& (st.value is Some ==> st.diags.len() == 0)
                &&& (res is Some <==> st.value is Some)
                &&& (res matches Some(v) ==> st.value == Some(v@))
                &&& engine_extended(*old(diagnostic_engine), *final(diagnostic_engine), st.diags, old(self).filename)
                &&& st.diags.len() <= 1
            }),
        decreases old(self).token_vec@.len() - old(self).current,
    {
        let ghost toks = self.token_vec@;
        let ghost p0 = self.current as int;
        let ghost e0 = *diagnostic_engine;
        let ghost fname = self.filename;
        if self.peek_kind() == TokenKind::RightBrace {
            let v: Vec<Statement> = Vec::new();
            proof {
                lemma_engine_extended_refl(e0, fname);
                assert(v@ =~= Seq::<Statement>::empty());
            }
            return Some(v);
        }
        let statement = self.parse_statement(diagnostic_engine)?;
        let ghost e1 = *diagnostic_engine;
        let ghost s = spec_statement(toks, p0);
        let r = self.parse_statements(diagnostic_engine);
        proof {
            lemma_ext_prepend_empty(e0, e1, *diagnostic_engine, spec_statements(toks, s.pos).diags, fname);
        }
        let mut rest = r?;
        let ghost tail = rest@;
        rest.insert(0, statement);
        proof {
            assert(rest@ =~= seq![s.value.unwrap()] + tail);
        }
        Some(rest)
    }

    /// A statement (only `return` statements are parsed).
    fn parse_statement(&mut self, diagnostic_engine: &mut DiagnosticEngine) -> (res: Option<Statement>)
        requires
            old(self).wf(),
            !spec_statement(old(self).token_vec@, old(self).current as int).aborts,
            old(diagnostic_engine).error_count < u64::MAX,
        ensures
            final(self).wf(),
            final(self).token_vec@ == old(self).token_vec@,
            final(self).filename == old(self).filename,
            final(self).current >= old(self).current,
            ({
                let st = spec_statement(old(self).token_vec@, old(self).current as int);
                &&& final(self).current == st.pos
                &&& res == st.value
                &&& engine_extended(*old(diagnostic_engine), *final(diagnostic_engine), st.diags, old(self).filename)
                &&& st.diags.len() <= 1
            }),
    {
        match self.peek_kind() {
            TokenKind::Return => {
                let return_statement: ReturnStatement = self.parse_return_statement(diagnostic_engine)?;
                let statement = Statement::Return(return_statement);
                return Some(statement);
            },
            _ => {
                proof {
                    lemma_engine_extended_refl(*diagnostic_engine, self.filename);
                }
                return None;
            },
        }
    }

    /// `return`, an expression and a semicolon.
    fn parse_return_statement(&mut self, diagnostic_engine: &mut DiagnosticEngine) -> (res: Option<ReturnStatement>)
        requires
            old(self).wf(),
            !spec_return(old(self).token_vec@, old(self).current as int).aborts,
            old(diagnostic_engine).error_count < u64::MAX,
        ensures
            final(self).wf(),
            final(self).token_vec@ == old(self).token_vec@,
            final(self).filename == old(self).filename,
            final(self).current >= old(self).current,
            ({
                let st = spec_return(old(self).token_vec@, old(self).current as int);
                &&& final(self).current == st.pos
                &&& (res is Some <==> st.value is Some)
                &&& (res matches Some(r) ==> st.value == Some(Statement::Return(r)))
                &&& engine_extended(*old(diagnostic_engine), *final(diagnostic_engine), st.diags, old(self).filename)
                &&& st.diags.len() <= 1
            }),
    {
        let ghost e0 = *diagnostic_engine;
        let ghost fname = self.filename;
        self.expect(TokenKind::Return, diagnostic_engine)?;
        let current_token: Token = self.current_token().clone();
        let ghost e1 = *diagnostic_engine;
        let return_expression: Expression = self.parse_expression(diagnostic_engine)?;
        let ghost p2 = self.current as int;
        let r = self.expect(TokenKind::Semicolon, diagnostic_engine);
        proof {
            lemma_ext_prepend_empty(e0, e1, *diagnostic_engine, spec_expect(self.token_vec@, p2, TokenKind::Semicolon).diags, fname);
        }
        r?;
        let return_statement = ReturnStatement {
            expression: Some(return_expression),
            location: current_token.location,
        };
        Some(return_statement)
    }

    /// An integer literal.
    fn parse_expression(&mut self, diagnostic_engine: &mut DiagnosticEngine) -> (res: Option<Expression>)
        requires
            old(self).wf(),
            !spec_expression(old(self).token_vec@, old(self).current as int).aborts,
        ensures
            final(self).wf(),
            final(self).token_vec@ == old(self).token_vec@,
            final(self).filename == old(self).filename,
            final(self).current >= old(self).current,
            *final(diagnostic_engine) == *old(diagnostic_engine),
            ({
                let st = spec_expression(old(self).token_vec@, old(self).current as int);
                &&& final(self).current == st.pos
                &&& res == st.value
                &&& st.diags.len() == 0
            }),
    {
        match self.peek_kind() {
            TokenKind::Integer => {
                let current_token: &Token = self.current_token();
                let int_literal: i64 = parse_decimal_i64(current_token.lexeme.as_str()).unwrap();
                let expression = Expression::IntegerLiteral(int_literal, current_token.location.clone());
                self.consume();
                return Some(expression);
            },
            _ => {
                return None;
            },
        }
    }

    /// A parameter: `void` alone, or a type and a name.
    fn parse_parameter(&mut self, diagnostic_engine: &mut DiagnosticEngine) -> (res: Option<Parameter>)
        requires
            old(self).wf(),
            old(diagnostic_engine).error_count < u64::MAX,
        ensures
            final(self).wf(),
            final(self).token_vec@ == old(self).token_vec@,
            final(self).filename == old(self).filename,
            final(self).current >= old(self).current,
            ({
                let st = spec_parameter(old(self).token_vec@, old(self).current as int);
                &&& final(self).current == st.pos
                &&& (res is Some <==> st.value is Some)
                &&& (res matches Some(p) ==> st.value == Some(p@))
                &&& engine_extended(*old(diagnostic_engine), *final(diagnostic_engine), st.diags, old(self).filename)
                &&& st.diags.len() <= 1
                &&& !st.aborts
            }),
    {
        let ghost e0 = *diagnostic_engine;
        let ghost fname = self.filename;
        let p_location: SourceLocation = self.current_token().location.clone();
        let parameter_type: Type = self.parse_type(diagnostic_engine)?;
        let ghost e1 = *diagnostic_engine;
        let ghost p1 = self.current as int;
        if let Type::Void = parameter_type {
            let p_name: String = String::new();
            let parameter = Parameter { name: p_name, param_type: parameter_type, location: p_location };
            return Some(parameter);
        }
        let r = self.expect(TokenKind::Identifier, diagnostic_engine);
        proof {
            lemma_ext_prepend_empty(e0, e1, *diagnostic_engine, spec_expect(self.token_vec@, p1, TokenKind::Identifier).diags, fname);
        }
        let identifier_token: Token = r?;
        let p_name: String = identifier_token.lexeme;
        let parameter = Parameter { name: p_name, param_type: parameter_type, location: p_location };
        return Some(parameter);
    }

    /// A type keyword; anything else is reported.
    fn parse_type(&mut self, diagnostic_engine: &mut DiagnosticEngine) -> (res: Option<Type>)
        requires
            old(self).wf(),
            old(diagnostic_engine).error_count < u64::MAX,
        ensures
            final(self).wf(),
            final(self).token_vec@ == old(self).token_vec@,
            final(self).filename == old(self).filename,
            final(self).current >= old(self).current,
            ({
                let st = spec_type(old(self).token_vec@, old(self).current as int);
                &&& final(self).current == st.pos
                &&& res == st.value
                &&& engine_extended(*old(diagnostic_engine), *final(diagnostic_engine), st.diags, old(self).filename)
                &&& st.diags.len() <= 1
            }),
    {
        let ast_type = match self.peek_kind() {
            TokenKind::Int => Type::Int,
            TokenKind::Short => Type::Short,
            TokenKind::Long => Type::Long,
            TokenKind::Float => Type::Float,
            TokenKind::Double => Type::Double,
            TokenKind::Char => Type::Char,
            TokenKind::Void => Type::Void,
            _ => {
                let cur_token = self.current_token();
                let mut message = "Invalid type keyword: ".to_owned();
                message.append(cur_token.lexeme.as_str());
                self.create_parser_diagnostic(
                    diagnostic_engine,
                    ParserDiagnosticKind::InvalidTypeKeyword(message),
                    Severity::Error,
                    cur_token.location.line_num,
                    cur_token.location.column_num,
                );
                return None;
            },
        };
        self.consume();
        proof {
            lemma_engine_extended_refl(*diagnostic_engine, self.filename);
        }
        Some(ast_type)
    }

    /// The kind of the current token.
    fn peek_kind(&self) -> (res: TokenKind)
        requires
            self.wf(),
        ensures
            res == kind_at(self.token_vec@, self.current as int),
    {
        return self.token_vec[self.current].kind;
    }

    /// The current token.
    fn current_token(&self) -> (res: &Token)
        requires
            self.wf(),
        ensures
            *res == self.token_vec@[self.current as int],
    {
        return &self.token_vec[self.current];
    }

    /// Returns the current token and moves to the next one, except at the
    /// last token or at an end-of-file token.
    fn consume(&mut self) -> (res: Token)
        requires
            old(self).wf(),
        ensures
            final(self).wf(),
            final(self).token_vec@ == old(self).token_vec@,
            final(self).filename == old(self).filename,
            final(self).current == next_pos(old(self).token_vec@, old(self).current as int),
            final(self).current >= old(self).current,
            res == old(self).token_vec@[old(self).current as int],
    {
        let cur_token = self.token_vec[self.current].clone();
        if self.token_vec.len() - 1 > self.current && self.peek_kind() != TokenKind::Eof {
            self.current = self.current + 1;
        }
        return cur_token;
    }

    /// Consumes the current token if it has the expected kind; otherwise
    /// reports an unexpected token.
    fn expect(&mut self, expected_kind: TokenKind, diagnostic_engine: &mut DiagnosticEngine) -> (res: Option<Token>)
        requires
            old(self).wf(),
            old(diagnostic_engine).error_count < u64::MAX,
        ensures
            final(self).wf(),
            final(self).token_vec@ == old(self).token_vec@,
            final(self).filename == old(self).filename,
            final(self).current >= old(self).current,
            ({
                let st = spec_expect(old(self).token_vec@, old(self).current as int, expected_kind);
                &&& final(self).current == st.pos
                &&& res == st.value
                &&& engine_extended(*old(diagnostic_engine), *final(diagnostic_engine), st.diags, old(self).filename)
                &&& st.diags.len() <= 1
            }),
    {
        if self.peek_kind() == expected_kind {
            proof {
                lemma_engine_extended_refl(*diagnostic_engine, self.filename);
            }
            return Some(self.consume());
        }
        let cur_token = self.current_token();
        self.create_parser_diagnostic(
            diagnostic_engine,
            ParserDiagnosticKind::UnexpectedToken,
            Severity::Error,
            cur_token.location.line_num,
            cur_token.location.column_num,
        );
        None
    }

    /// Records a parser diagnostic at a line and column of this file.
    fn create_parser_diagnostic(
        &self,
        diag_engine: &mut DiagnosticEngine,
        parser_diag: ParserDiagnosticKind,
        severity: Severity,
        start_line: usize,
        start_col: usize,
    )
        requires
            severity == Severity::Error ==> old(diag_engine).error_count < u64::MAX,
            severity == Severity::Warning ==> old(diag_engine).warning_count < u64::MAX,
        ensures
            severity == Severity::Error ==> engine_extended(
                *old(diag_engine),
                *final(diag_engine),
                seq![ParseDiag { kind: diag_kind_model(parser_diag), line: start_line, column: start_col }],
                self.filename,
            ),
    {
        let ghost e0 = *diag_engine;
        let message = parser_message(&parser_diag);
        let ghost k = parser_diag;
        let diag_kind: DiagnosticKind = DiagnosticKind::Parser(parser_diag);
        let source_location: SourceLocation = SourceLocation::new(&self.filename, start_line, start_col);
        diag_engine.emit(severity, diag_kind, message.as_str(), source_location, 0, None);
        proof {
            let n: int = e0.diagnostics_vec@.len() as int;
            assert(diag_engine.diagnostics_vec@.take(n) =~= e0.diagnostics_vec@);
            assert(diag_engine.diagnostics_vec@[n + 0] == diag_engine.diagnostics_vec@.last());
        }
    }
}

/// Puts parsed declarations and reported diagnostics in front of a later
/// step of the declaration loop.
pub open spec fn combine_program(
    decls: Seq<DeclarationModel>,
    diags: Seq<ParseDiag>,
    r: Step<Seq<DeclarationModel>>,
) -> Step<Seq<DeclarationModel>> {
    Step {
        value: match r.value {
            Some(rest) => Some(decls + rest),
            None => None,
        },
        pos: r.pos,
        diags: diags + r.diags,
        aborts: r.aborts,
    }
}

proof fn lemma_ext_prepend_empty(
    a: DiagnosticEngine,
    b: DiagnosticEngine,
    c: DiagnosticEngine,
    d: Seq<ParseDiag>,
    fname: String,
)
    requires
        engine_extended(a, b, Seq::empty(), fname),
        engine_extended(b, c, d, fname),
    ensures
        engine_extended(a, c, d, fname),
{
    lemma_engine_extended_trans(a, b, c, Seq::empty(), d, fname);
    assert(Seq::<ParseDiag>::empty() + d =~= d);
}

proof fn lemma_combine_program_step(
    decls: Seq<DeclarationModel>,
    added: Seq<DeclarationModel>,
    diags: Seq<ParseDiag>,
    more: Seq<ParseDiag>,
    r: Step<Seq<DeclarationModel>>,
)
    ensures
        combine_program(decls, diags, combine_program(added, more, r)) == combine_program(
            decls + added,
            diags + more,
            r,
        ),
{
    assert(diags + (more + r.diags) =~= (diags + more) + r.diags);
    if let Some(rest) = r.value {
        assert(decls + (added + rest) =~= (decls + added) + rest);
    }
}

} // verus!
