//! Front end of a small C compiler: command-line handling, source locations,
//! diagnostics, a character scanner and a recursive-descent parser.

pub mod diagnostics;
pub mod driver;
pub mod lexer;
pub mod parser;
pub mod source;
pub mod text;
