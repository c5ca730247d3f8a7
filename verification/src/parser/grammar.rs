//! What the parser does, as functions on the token sequence: for each
//! parsing routine, the value it produces, the position it stops at, the
//! diagnostics it reports, and whether it would never return.

use vstd::prelude::*;
use crate::diagnostics::{Diagnostic, DiagnosticEngine, DiagnosticKind, ParserDiagnosticKind, Severity};
use crate::lexer::token::{Token, TokenKind};
use crate::parser::ast::{CompoundModel, DeclarationModel, Expression, FunctionModel, ParamModel, ReturnStatement, Statement, Type};
use crate::source::SourceLocation;
use crate::text::parse_i64;

verus! {

/// What a parser diagnostic says.
pub enum ParseDiagKind {
    /// A type keyword was expected; holds the message.
    InvalidTypeKeyword(Seq<char>),
    /// Another token was expected.
    UnexpectedToken,
}

/// A diagnostic the parser reports: what it says and the line and column
/// of the token it was reported at.
pub struct ParseDiag {
    pub kind: ParseDiagKind,
    pub line: usize,
    pub column: usize,
}

/// The outcome of one parsing routine started at some position: the value
/// parsed (none on failure), the position reached, the diagnostics
/// reported, and whether the routine would never return (it loops forever
/// or panics).
pub struct Step<T> {
    pub value: Option<T>,
    pub pos: int,
    pub diags: Seq<ParseDiag>,
    pub aborts: bool,
}

/// A routine that returned `value` at `pos`, reporting nothing.
pub open spec fn parsed<T>(value: T, pos: int) -> Step<T> {
    Step { value: Some(value), pos, diags: Seq::empty(), aborts: false }
}

/// A routine that failed at `pos`, having reported `diags`.
pub open spec fn failed<T>(pos: int, diags: Seq<ParseDiag>) -> Step<T> {
    Step { value: None, pos, diags, aborts: false }
}

/// A routine that never returns.
pub open spec fn aborted<T>(pos: int) -> Step<T> {
    Step { value: None, pos, diags: Seq::empty(), aborts: true }
}

/// The message of the diagnostic for a token that is not a type.
pub open spec fn invalid_type_message(t: Token) -> Seq<char> {
    "Invalid type keyword: "@ + t.lexeme@
}

/// The message a parser diagnostic is reported with.
pub open spec fn parse_diag_message(k: ParseDiagKind) -> Seq<char> {
    match k {
        ParseDiagKind::InvalidTypeKeyword(m) => m,
        ParseDiagKind::UnexpectedToken => "Unexpected token"@,
    }
}

/// The diagnostic `d` is the one the parser records for `pd` when parsing
/// the file named `fname`.
pub open spec fn parse_diag_matches(d: Diagnostic, pd: ParseDiag, fname: String) -> bool {
    &&& d.severity() == Severity::Error
    &&& d.location() == SourceLocation { file_name: fname, line_num: pd.line, column_num: pd.column }
    &&& d.span_end() == 0
    &&& d.source_line() is None
    &&& d.children().len() == 0
    &&& d.message() == parse_diag_message(pd.kind)
    &&& match pd.kind {
        ParseDiagKind::InvalidTypeKeyword(m) => d.kind() matches DiagnosticKind::Parser(
            ParserDiagnosticKind::InvalidTypeKeyword(s),
        ) && s@ == m,
        ParseDiagKind::UnexpectedToken => d.kind() matches DiagnosticKind::Parser(
            ParserDiagnosticKind::UnexpectedToken,
        ),
    }
}

/// `new` is `old` with the parser diagnostics `ds` recorded after the
/// ones it held, each counted as an error.
pub open spec fn engine_extended(
    old: DiagnosticEngine,
    new: DiagnosticEngine,
    ds: Seq<ParseDiag>,
    fname: String,
) -> bool {
    let n = old.diagnostics_vec@.len();
    &&& new.diagnostics_vec@.len() == n + ds.len()
    &&& new.diagnostics_vec@.take(n as int) == old.diagnostics_vec@
    &&& forall|i: int|
        0 <= i < ds.len() ==> parse_diag_matches(#[trigger] new.diagnostics_vec@[n + i], ds[i], fname)
    &&& new.error_count == old.error_count + ds.len()
    &&& new.warning_count == old.warning_count
    &&& new.has_fatal == old.has_fatal
    &&& new.exit_code == old.exit_code
    &&& old.counts_consistent() ==> new.counts_consistent()
}

/// Recording parser diagnostics in two rounds records them all.
pub proof fn lemma_engine_extended_trans(
    a: DiagnosticEngine,
    b: DiagnosticEngine,
    c: DiagnosticEngine,
    d1: Seq<ParseDiag>,
    d2: Seq<ParseDiag>,
    fname: String,
)
    requires
        engine_extended(a, b, d1, fname),
        engine_extended(b, c, d2, fname),
    ensures
        engine_extended(a, c, d1 + d2, fname),
{
    let na = a.diagnostics_vec@.len();
    let nb = b.diagnostics_vec@.len();
    assert(c.diagnostics_vec@.take(na as int) =~= c.diagnostics_vec@.take(nb as int).take(na as int));
    assert forall|i: int| 0 <= i < (d1 + d2).len() implies parse_diag_matches(
        #[trigger] c.diagnostics_vec@[na + i],
        (d1 + d2)[i],
        fname,
    ) by {
        if i < d1.len() {
            assert(c.diagnostics_vec@[na + i] == c.diagnostics_vec@.take(nb as int)[na + i]);
            assert(b.diagnostics_vec@[na + i] == c.diagnostics_vec@[na + i]);
        } else {
            assert(c.diagnostics_vec@[na + i] == c.diagnostics_vec@[nb + (i - d1.len())]);
        }
    }
}

/// Recording nothing leaves an engine as it was.
pub proof fn lemma_engine_extended_refl(a: DiagnosticEngine, fname: String)
    ensures
        engine_extended(a, a, Seq::empty(), fname),
{
    assert(a.diagnostics_vec@.take(a.diagnostics_vec@.len() as int) =~= a.diagnostics_vec@);
}

/// The kind of the token at `p`.
pub open spec fn kind_at(toks: Seq<Token>, p: int) -> TokenKind {
    toks[p].kind
}

/// The position after consuming the token at `p`: the next one, except at
/// the last token and at an end-of-file token, where the position stays.
pub open spec fn next_pos(toks: Seq<Token>, p: int) -> int {
    if toks.len() - 1 > p && kind_at(toks, p) != TokenKind::Eof {
        p + 1
    } else {
        p
    }
}

/// Requires a token of kind `k` at `p`, returning it and moving past it;
/// otherwise reports an unexpected token there.
pub open spec fn spec_expect(toks: Seq<Token>, p: int, k: TokenKind) -> Step<Token> {
    if kind_at(toks, p) == k {
        parsed(toks[p], next_pos(toks, p))
    } else {
        failed(
            p,
            seq![ParseDiag { kind: ParseDiagKind::UnexpectedToken, line: toks[p].location.line_num, column: toks[p].location.column_num }],
        )
    }
}

/// The type a type keyword names.
pub open spec fn type_of_kind(k: TokenKind) -> Option<Type> {
    match k {
        TokenKind::Int => Some(Type::Int),
        TokenKind::Short => Some(Type::Short),
        TokenKind::Long => Some(Type::Long),
        TokenKind::Float => Some(Type::Float),
        TokenKind::Double => Some(Type::Double),
        TokenKind::Char => Some(Type::Char),
        TokenKind::Void => Some(Type::Void),
        _ => None,
    }
}

/// A type keyword; anything else is reported as an invalid type keyword.
pub open spec fn spec_type(toks: Seq<Token>, p: int) -> Step<Type> {
    match type_of_kind(kind_at(toks, p)) {
        Some(t) => parsed(t, next_pos(toks, p)),
        None => failed(
            p,
            seq![ParseDiag { kind: ParseDiagKind::InvalidTypeKeyword(invalid_type_message(toks[p])), line: toks[p].location.line_num, column: toks[p].location.column_num }],
        ),
    }
}

/// Each type keyword yields the type it names, and it is consumed; any
/// other token yields no type and is reported, and the position stays.
pub proof fn lemma_type_keyword_names_its_type(toks: Seq<Token>, p: int)
    ensures
        kind_at(toks, p) == TokenKind::Int ==> spec_type(toks, p).value == Some(Type::Int),
        kind_at(toks, p) == TokenKind::Short ==> spec_type(toks, p).value == Some(Type::Short),
        kind_at(toks, p) == TokenKind::Long ==> spec_type(toks, p).value == Some(Type::Long),
        kind_at(toks, p) == TokenKind::Float ==> spec_type(toks, p).value == Some(Type::Float),
        kind_at(toks, p) == TokenKind::Double ==> spec_type(toks, p).value == Some(Type::Double),
        kind_at(toks, p) == TokenKind::Char ==> spec_type(toks, p).value == Some(Type::Char),
        kind_at(toks, p) == TokenKind::Void ==> spec_type(toks, p).value == Some(Type::Void),
        spec_type(toks, p).value is Some ==> spec_type(toks, p).pos == next_pos(toks, p)
            && spec_type(toks, p).diags.len() == 0,
        spec_type(toks, p).value is None ==> spec_type(toks, p).pos == p
            && spec_type(toks, p).diags.len() == 1,
        !spec_type(toks, p).aborts,
{
}

/// Distinct tokens parse to the same type only when they are the same type
/// keyword: no two type keywords are confused.
pub proof fn lemma_type_keywords_distinct(t1: Seq<Token>, p1: int, t2: Seq<Token>, p2: int)
    requires
        spec_type(t1, p1).value is Some,
        spec_type(t1, p1).value == spec_type(t2, p2).value,
    ensures
        kind_at(t1, p1) == kind_at(t2, p2),
{
}

/// A parsed function's return type is the type named by its first token,
/// and each parameter not written `void` has the type named by the token it
/// starts at.
pub proof fn lemma_function_return_type(toks: Seq<Token>, p: int)
    requires
        spec_function(toks, p).value is Some,
    ensures
        spec_type(toks, p).value == Some(spec_function(toks, p).value.unwrap().return_type),
{
}

/// A parameter has the type named by the token it starts at.
pub proof fn lemma_parameter_type(toks: Seq<Token>, p: int)
    requires
        spec_parameter(toks, p).value is Some,
    ensures
        spec_type(toks, p).value == Some(spec_parameter(toks, p).value.unwrap().param_type),
{
}

/// A parameter: `void` alone (with an empty name), or a type and a name.
pub open spec fn spec_parameter(toks: Seq<Token>, p: int) -> Step<ParamModel> {
    let loc = toks[p].location;
    let t = spec_type(toks, p);
    match t.value {
        None => failed(t.pos, t.diags),
        Some(ty) => if ty == Type::Void {
            parsed(ParamModel { name: Seq::empty(), param_type: ty, location: loc }, t.pos)
        } else {
            let e = spec_expect(toks, t.pos, TokenKind::Identifier);
            match e.value {
                Some(id) => parsed(ParamModel { name: id.lexeme@, param_type: ty, location: loc }, e.pos),
                None => failed(e.pos, e.diags),
            }
        },
    }
}

/// Parameters up to a right parenthesis (which is not consumed). A
/// parameter that consumes nothing would be parsed forever.
pub open spec fn spec_parameters(toks: Seq<Token>, p: int) -> Step<Seq<ParamModel>>
    decreases toks.len() - p,
{
    if kind_at(toks, p) == TokenKind::RightParen {
        parsed(Seq::empty(), p)
    } else {
        let s = spec_parameter(toks, p);
        match s.value {
            None => failed(s.pos, s.diags),
            Some(pm) => if p < s.pos < toks.len() {
                let r = spec_parameters(toks, s.pos);
                Step {
                    value: match r.value {
                        Some(ps) => Some(seq![pm] + ps),
                        None => None,
                    },
                    pos: r.pos,
                    diags: r.diags,
                    aborts: r.aborts,
                }
            } else {
                aborted(p)
            },
        }
    }
}

/// An integer literal; its text must be an `i64`, else the parser panics.
/// Any other token is no expression, and nothing is reported.
pub open spec fn spec_expression(toks: Seq<Token>, p: int) -> Step<Expression> {
    if kind_at(toks, p) == TokenKind::Integer {
        match parse_i64(toks[p].lexeme@) {
            Some(v) => parsed(Expression::IntegerLiteral(v, toks[p].location), next_pos(toks, p)),
            None => aborted(p),
        }
    } else {
        failed(p, Seq::empty())
    }
}

/// `return`, an expression and a semicolon. The statement's location is
/// that of the token after `return`.
pub open spec fn spec_return(toks: Seq<Token>, p: int) -> Step<Statement> {
    let e1 = spec_expect(toks, p, TokenKind::Return);
    match e1.value {
        None => failed(e1.pos, e1.diags),
        Some(_) => {
            let q = e1.pos;
            let ex = spec_expression(toks, q);
            if ex.aborts {
                aborted(q)
            } else {
                match ex.value {
                    None => failed(ex.pos, ex.diags),
                    Some(expr) => {
                        let e2 = spec_expect(toks, ex.pos, TokenKind::Semicolon);
                        match e2.value {
                            None => failed(e2.pos, e2.diags),
                            Some(_) => parsed(
                                Statement::Return(
                                    ReturnStatement { expression: Some(expr), location: toks[q].location },
                                ),
                                e2.pos,
                            ),
                        }
                    },
                }
            }
        },
    }
}

/// A statement: only `return` statements are parsed; anything else fails
/// without a report.
pub open spec fn spec_statement(toks: Seq<Token>, p: int) -> Step<Statement> {
    if kind_at(toks, p) == TokenKind::Return {
        spec_return(toks, p)
    } else {
        failed(p, Seq::empty())
    }
}

/// Statements up to a right brace (which is not consumed).
pub open spec fn spec_statements(toks: Seq<Token>, p: int) -> Step<Seq<Statement>>
    decreases toks.len() - p,
{
    if kind_at(toks, p) == TokenKind::RightBrace {
        parsed(Seq::empty(), p)
    } else {
        let s = spec_statement(toks, p);
        if s.aborts {
            aborted(p)
        } else {
            match s.value {
                None => failed(s.pos, s.diags),
                Some(st) => if p < s.pos < toks.len() {
                    let r = spec_statements(toks, s.pos);
                    Step {
                        value: match r.value {
                            Some(ss) => Some(seq![st] + ss),
                            None => None,
                        },
                        pos: r.pos,
                        diags: r.diags,
                        aborts: r.aborts,
                    }
                } else {
                    aborted(p)
                },
            }
        }
    }
}

/// A block's statements; the block is located at its first token.
pub open spec fn spec_compound(toks: Seq<Token>, p: int) -> Step<CompoundModel> {
    let r = spec_statements(toks, p);
    Step {
        value: match r.value {
            Some(ss) => Some(CompoundModel { statements: ss, location: toks[p].location }),
            None => None,
        },
        pos: r.pos,
        diags: r.diags,
        aborts: r.aborts,
    }
}

/// A function definition: return type, name, `(`, parameters, `)` (not
/// checked), `{`, statements, `}` (not checked).
pub open spec fn spec_function(toks: Seq<Token>, p: int) -> Step<FunctionModel> {
    let loc = toks[p].location;
    let t = spec_type(toks, p);
    match t.value {
        None => failed(t.pos, t.diags),
        Some(rt) => {
            let e = spec_expect(toks, t.pos, TokenKind::Identifier);
            match e.value {
                None => failed(e.pos, e.diags),
                Some(name_tok) => {
                    let lp = spec_expect(toks, e.pos, TokenKind::LeftParen);
                    match lp.value {
                        None => failed(lp.pos, lp.diags),
                        Some(_) => {
                            let ps = spec_parameters(toks, lp.pos);
                            if ps.aborts {
                                aborted(lp.pos)
                            } else {
                                match ps.value {
                                    None => failed(ps.pos, ps.diags),
                                    Some(params) => {
                                        let lb = spec_expect(toks, next_pos(toks, ps.pos), TokenKind::LeftBrace);
                                        match lb.value {
                                            None => failed(lb.pos, lb.diags),
                                            Some(_) => {
                                                let c = spec_compound(toks, lb.pos);
                                                if c.aborts {
                                                    aborted(lb.pos)
                                                } else {
                                                    match c.value {
                                                        None => failed(c.pos, c.diags),
                                                        Some(body) => parsed(
                                                            FunctionModel {
                                                                name: name_tok.lexeme@,
                                                                return_type: rt,
                                                                parameters: params,
                                                                body,
                                                                location: loc,
                                                            },
                                                            next_pos(toks, c.pos),
                                                        ),
                                                    }
                                                }
                                            },
                                        }
                                    },
                                }
                            }
                        },
                    }
                },
            }
        },
    }
}

/// Declarations up to an end-of-file token. Failed declarations are
/// dropped; a declaration that consumes nothing would be retried forever.
pub open spec fn spec_program(toks: Seq<Token>, p: int) -> Step<Seq<DeclarationModel>>
    decreases toks.len() - p,
{
    if kind_at(toks, p) == TokenKind::Eof {
        parsed(Seq::empty(), p)
    } else {
        let d = spec_function(toks, p);
        if d.aborts {
            aborted(p)
        } else if p < d.pos < toks.len() {
            let r = spec_program(toks, d.pos);
            Step {
                value: match r.value {
                    Some(ds) => Some(
                        match d.value {
                            Some(f) => seq![DeclarationModel::Function(f)],
                            None => Seq::empty(),
                        } + ds,
                    ),
                    None => None,
                },
                pos: r.pos,
                diags: d.diags + r.diags,
                aborts: r.aborts,
            }
        } else {
            aborted(p)
        }
    }
}

} // verus!
