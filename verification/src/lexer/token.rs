//! Tokens: their kinds, their text and where they start.

use vstd::prelude::*;
use crate::source::SourceLocation;

verus! {

/// The kinds of token of the C language.
#[derive(Debug, Copy, Clone, PartialEq, Eq, Structural)]
pub enum TokenKind {
    // Identifiers
    Identifier,
    // Numeric
    Integer,
    FloatingPoint,
    // Keywords
    Char,
    Double,
    Float,
    Int,
    Long,
    Short,
    Signed,
    Unsigned,
    Void,
    Auto,
    Const,
    Extern,
    Register,
    Static,
    Volatile,
    Break,
    Case,
    Continue,
    Default,
    Do,
    Else,
    For,
    Goto,
    If,
    Return,
    Switch,
    While,
    Enum,
    Sizeof,
    Struct,
    Typedef,
    Union,
    // Punctuation
    LeftParen,
    RightParen,
    LeftBrace,
    RightBrace,
    LeftBracket,
    RightBracket,
    DoubleQuote,
    SingleQuote,
    Semicolon,
    Colon,
    Comma,
    Point,
    // Operators
    Assignment,
    Addition,
    AddAssign,
    SubAssign,
    MultAssign,
    DivAssign,
    Subtraction,
    Multiplication,
    Division,
    Modulus,
    PrefixIncrement,
    PostfixIncrement,
    Equal,
    NotEqual,
    Not,
    And,
    Or,
    Xor,
    BitAnd,
    BitOr,
    BitXor,
    // Terminating
    Unknown,
    Eof,
}

/// A token: its kind, its text, and where it starts.
#[derive(Debug, PartialEq, Eq)]
pub struct Token {
    pub kind: TokenKind,
    pub lexeme: String,
    pub location: SourceLocation,
}

impl Clone for Token {
    fn clone(&self) -> (res: Self)
        ensures
            res == *self,
    {
        Token { kind: self.kind, lexeme: self.lexeme.clone(), location: self.location.clone() }
    }
}

impl Token {
    /// A token of kind `tk` with text `lex` at `loc`.
    pub fn new(tk: TokenKind, lex: String, loc: SourceLocation) -> (res: Self)
        ensures
            res.kind == tk,
            res.lexeme == lex,
            res.location == loc,
    {
        Token { kind: tk, lexeme: lex, location: loc }
    }
}

} // verus!
