//! Positions in source files.

use vstd::prelude::*;

verus! {

/// A position in a source file: the file's name, a line and a column.
#[derive(Debug, PartialEq, Eq)]
pub struct SourceLocation {
    pub file_name: String,
    pub line_num: usize,
    pub column_num: usize,
}

impl Clone for SourceLocation {
    fn clone(&self) -> (res: Self)
        ensures
            res == *self,
    {
        SourceLocation {
            file_name: self.file_name.clone(),
            line_num: self.line_num,
            column_num: self.column_num,
        }
    }
}

impl SourceLocation {
    /// A location in file `fname` at the given line and column.
    pub fn new(fname: &String, line: usize, col: usize) -> (res: Self)
        ensures
            res.file_name == *fname,
            res.line_num == line,
            res.column_num == col,
    {
        SourceLocation { file_name: fname.clone(), line_num: line, column_num: col }
    }
}

} // verus!
