//! The scanner: walks the text of a preprocessed file one character at a
//! time, keeping track of the byte offset, the line and the column.

pub mod token;

use vstd::prelude::*;
use vstd::utf8::*;
use token::Token;
use crate::diagnostics::DiagnosticEngine;

verus! {

broadcast use vstd::string::group_string_axioms, vstd::utf8::encode_utf8_decode_utf8,
    vstd::utf8::encode_utf8_valid_utf8;

/// The number of line breaks in `s`.
pub open spec fn line_of(s: Seq<char>) -> nat
    decreases s.len(),
{
    if s.len() == 0 {
        0
    } else {
        line_of(s.drop_last()) + if s.last() == '\n' { 1nat } else { 0nat }
    }
}

/// The number of characters after the last line break of `s` (all of
/// them when there is none).
pub open spec fn column_of(s: Seq<char>) -> nat
    decreases s.len(),
{
    if s.len() == 0 {
        0
    } else if s.last() == '\n' {
        0
    } else {
        column_of(s.drop_last()) + 1
    }
}

proof fn lemma_line_column_bound(s: Seq<char>)
    ensures
        line_of(s) <= s.len(),
        column_of(s) <= s.len(),
    decreases s.len(),
{
    if s.len() > 0 {
        lemma_line_column_bound(s.drop_last());
    }
}

/// Encoding a concatenation concatenates the encodings.
proof fn lemma_encode_concat(a: Seq<char>, b: Seq<char>)
    ensures
        encode_utf8(a + b) == encode_utf8(a) + encode_utf8(b),
    decreases a.len(),
{
    if a.len() == 0 {
        assert(a + b =~= b);
        assert(encode_utf8(a) + encode_utf8(b) =~= encode_utf8(b));
    } else {
        assert((a + b).drop_first() =~= a.drop_first() + b);
        lemma_encode_concat(a.drop_first(), b);
        assert((a + b)[0] == a[0]);
        assert(encode_utf8(a + b) =~= encode_utf8(a) + encode_utf8(b));
    }
}

/// A character count is at most the length of the encoding.
proof fn lemma_encode_len(s: Seq<char>)
    ensures
        s.len() <= encode_utf8(s).len(),
    decreases s.len(),
{
    if s.len() > 0 {
        lemma_encode_len(s.drop_first());
    }
}

/// The end of the encoding of a prefix is a character boundary.
proof fn lemma_prefix_boundary(s: Seq<char>, k: int)
    requires
        0 <= k <= s.len(),
    ensures
        is_char_boundary(encode_utf8(s), encode_utf8(s.take(k)).len() as int),
    decreases s.len(),
{
    let bytes = encode_utf8(s);
    encode_utf8_valid_utf8(s);
    if k == 0 {
        assert(s.take(0) =~= Seq::<char>::empty());
    } else {
        encode_utf8_first_scalar(s);
        assert(pop_first_scalar(bytes) =~= encode_utf8(s.drop_first()));
        assert(s.take(k).drop_first() =~= s.drop_first().take(k - 1));
        assert(s.take(k)[0] == s[0]);
        lemma_prefix_boundary(s.drop_first(), k - 1);
        let idx = encode_utf8(s.take(k)).len() as int;
        assert(idx == encode_scalar(s[0] as u32).len() + encode_utf8(s.drop_first().take(k - 1)).len());
        lemma_encode_len(s.take(k));
        lemma_encode_concat(s.take(k), s.skip(k));
        assert(s.take(k) + s.skip(k) =~= s);
        assert(idx <= bytes.len());
    }
}

/// The number of bytes of the UTF-8 encoding of `c`.
pub fn utf8_width(c: char) -> (res: usize)
    ensures
        res == encode_scalar(c as u32).len(),
        res == encode_utf8(seq![c]).len(),
{
    proof {
        char_is_scalar(c);
        assert(seq![c].drop_first() =~= Seq::<char>::empty());
        assert(seq![c][0] == c);
        assert(encode_utf8(seq![c].drop_first()).len() == 0);
    }
    let v = c as u32;
    if v <= 0x7F {
        1
    } else if v <= 0x7FF {
        2
    } else if v <= 0xFFFF {
        3
    } else {
        4
    }
}

/// Walks the text of a file character by character.
pub struct Lexer {
    source_text: String,
    filename: String,
    cur_pos: usize,
    cur_line: u64,
    cur_column: u64,
    token_vec: Vec<Token>,
    consumed: Ghost<nat>,
}

impl Lexer {
    /// The text being scanned.
    pub closed spec fn text(&self) -> Seq<char> {
        self.source_text@
    }

    /// The name of the file being scanned.
    pub closed spec fn file_name(&self) -> Seq<char> {
        self.filename@
    }

    /// How many characters have been consumed.
    pub closed spec fn position(&self) -> nat {
        self.consumed@
    }

    /// The byte offset of the next character.
    pub closed spec fn byte_offset(&self) -> usize {
        self.cur_pos
    }

    /// The current line, counted from zero.
    pub closed spec fn line(&self) -> u64 {
        self.cur_line
    }

    /// The current column, counted from zero.
    pub closed spec fn column(&self) -> u64 {
        self.cur_column
    }

    /// The tokens produced so far.
    pub closed spec fn tokens(&self) -> Seq<Token> {
        self.token_vec@
    }

    /// The scanner's state describes a point in its text: the byte offset
    /// is that of the consumed characters' encoding, the line is the number
    /// of line breaks consumed and the column the number of characters
    /// consumed since the last one.
    pub closed spec fn wf(&self) -> bool {
        let consumed = self.text().take(self.position() as int);
        &&& self.position() <= self.text().len()
        &&& encode_utf8(self.text()).len() <= usize::MAX
        &&& self.cur_pos == encode_utf8(consumed).len()
        &&& self.cur_line == line_of(consumed)
        &&& self.cur_column == column_of(consumed)
    }

    /// The byte offset always falls on a character boundary of the text,
    /// so slicing the text there never splits a character.
    pub proof fn lemma_offset_on_boundary(&self)
        requires
            self.wf(),
        ensures
            is_char_boundary(encode_utf8(self.text()), self.byte_offset() as int),
            self.byte_offset() <= encode_utf8(self.text()).len(),
    {
        lemma_prefix_boundary(self.text(), self.position() as int);
        let t = self.text();
        let k = self.position() as int;
        lemma_encode_concat(t.take(k), t.skip(k));
        assert(t.take(k) + t.skip(k) =~= t);
    }

    /// A scanner at the start of `text`, for the file `fname`.
    pub fn new(text: String, fname: &str) -> (res: Self)
        requires
            encode_utf8(text@).len() <= usize::MAX,
        ensures
            res.wf(),
            res.text() == text@,
            res.file_name() == fname@,
            res.position() == 0,
            res.byte_offset() == 0,
            res.line() == 0,
            res.column() == 0,
            res.tokens().len() == 0,
    {
        let t_vec: Vec<Token> = Vec::new();
        let res = Lexer {
            source_text: text,
            filename: fname.to_owned(),
            cur_pos: 0,
            cur_line: 0,
            cur_column: 0,
            token_vec: t_vec,
            consumed: Ghost(0),
        };
        assert(res.text().take(0) =~= Seq::<char>::empty());
        res
    }

    /// Scans the whole text. Returns the tokens and the characters read,
    /// in order (the characters are what the compiler echoes while it
    /// scans).
    pub fn tokenize(self, diag_engine: &mut DiagnosticEngine) -> (res: (Vec<Token>, Vec<char>))
        requires
            self.wf(),
        ensures
            res.0@ == self.tokens(),
            res.1@ == self.text().skip(self.position() as int),
            *final(diag_engine) == *old(diag_engine),
    {
        let mut lexer = self;
        let ghost start = lexer.position();
        let ghost text = lexer.text();
        let ghost toks = lexer.tokens();
        let mut seen: Vec<char> = Vec::new();
        assert(text.skip(start as int).take(0) =~= seen@);
        let mut next = lexer.peek();
        while next.is_some()
            invariant
                next == (if lexer.position() < text.len() { Some(text[lexer.position() as int]) } else { None::<char> }),
                lexer.wf(),
                lexer.text() == text,
                lexer.tokens() == toks,
                start <= lexer.position() <= text.len(),
                seen@ == text.subrange(start as int, lexer.position() as int),
            decreases text.len() - lexer.position(),
        {
            let c = next.unwrap();
            seen.push(c);
            lexer.advance();
            next = lexer.peek();
            assert(seen@ =~= text.subrange(start as int, lexer.position() as int));
        }
        assert(text.subrange(start as int, text.len() as int) =~= text.skip(start as int));
        (lexer.token_vec, seen)
    }

    /// The current line, counted from zero.
    pub fn current_line(&self) -> (res: u64)
        ensures
            res == self.line(),
    {
        self.cur_line
    }

    /// The current column, counted from zero.
    pub fn current_column(&self) -> (res: u64)
        ensures
            res == self.column(),
    {
        self.cur_column
    }

    /// The byte offset of the next character.
    pub fn current_offset(&self) -> (res: usize)
        ensures
            res == self.byte_offset(),
    {
        self.cur_pos
    }

    /// The next character, if any is left.
    pub fn peek(&self) -> (res: Option<char>)
        requires
            self.wf(),
        ensures
            self.position() < self.text().len() ==> res == Some(self.text()[self.position() as int]),
            self.position() >= self.text().len() ==> res is None,
    {
        let ghost k: int = self.consumed@ as int;
        let ghost t = self.source_text@;
        proof {
            lemma_prefix_boundary(t, k as int);
            lemma_encode_concat(t.take(k), t.skip(k));
            assert(t.take(k) + t.skip(k) =~= t);
        }
        let s = self.source_text.as_str();
        let (_, rest) = s.split_at(self.cur_pos);
        proof {
            let bytes = encode_utf8(t);
            assert(bytes.subrange(self.cur_pos as int, bytes.len() as int) =~= encode_utf8(t.skip(k)));
            assert(encode_utf8(rest@) == encode_utf8(t.skip(k)));
            assert(rest@ == decode_utf8(encode_utf8(rest@)));
            assert(rest@ == t.skip(k));
        }
        let mut it = rest.chars();
        it.next()
    }

    /// Consumes the next character, if any is left, and returns it; a line
    /// break moves to the start of the next line, any other character to
    /// the next column.
    pub fn advance(&mut self) -> (res: Option<char>)
        requires
            old(self).wf(),
        ensures
            final(self).wf(),
            final(self).text() == old(self).text(),
            final(self).file_name() == old(self).file_name(),
            final(self).tokens() == old(self).tokens(),
            old(self).position() < old(self).text().len() ==> {
                let c = old(self).text()[old(self).position() as int];
                &&& res == Some(c)
                &&& final(self).position() == old(self).position() + 1
                &&& final(self).byte_offset() == old(self).byte_offset() + encode_utf8(seq![c]).len()
                &&& c == '\n' ==> final(self).line() == old(self).line() + 1 && final(self).column() == 0
                &&& c != '\n' ==> final(self).line() == old(self).line() && final(self).column() == old(self).column() + 1
            },
            old(self).position() >= old(self).text().len() ==> res is None && *final(self) == *old(self),
    {
        let c = match self.peek() {
            Some(c) => c,
            None => return None,
        };
        let ghost k: int = self.consumed@ as int;
        let ghost t = self.source_text@;
        let w = utf8_width(c);
        proof {
            assert(t.take(k + 1) =~= t.take(k) + seq![c]);
            assert(t.take(k + 1).drop_last() =~= t.take(k));
            lemma_encode_concat(t.take(k), seq![c]);
            lemma_encode_concat(t.take(k + 1), t.skip(k + 1));
            assert(t.take(k + 1) + t.skip(k + 1) =~= t);
            lemma_line_column_bound(t.take(k + 1));
            lemma_line_column_bound(t.take(k));
            lemma_encode_len(t);
        }
        self.cur_pos = self.cur_pos + w;
        self.cur_column = self.cur_column + 1;
        if c == '\n' {
            self.cur_line = self.cur_line + 1;
            self.cur_column = 0;
        }
        self.consumed = Ghost((k + 1) as nat);
        Some(c)
    }
}

} // verus!
