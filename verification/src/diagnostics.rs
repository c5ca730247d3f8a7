//! Diagnostics: what the compiler reports, how it counts them, and the
//! text they are rendered as.

use vstd::prelude::*;
use crate::source::SourceLocation;
use crate::text::{decimal, push_char, push_decimal};

verus! {

/// How serious a diagnostic is.
#[derive(Debug, PartialEq, Eq, Clone, Copy, Structural)]
pub enum Severity {
    Fatal,
    Error,
    Warning,
}

/// Which part of the compiler raised a diagnostic, and why.
pub enum DiagnosticKind {
    Lexer(LexerDiagnosticKind),
    Parser(ParserDiagnosticKind),
}

/// Reasons the scanner reports.
pub enum LexerDiagnosticKind {
    UnterminatedStringLiteral,
    InvalidIdentifier,
    MultipleDecimalPointsInFloat,
    TrailingDecimalPointInFloat,
    InvalidCharacter,
    Null,
}

/// Reasons the parser reports.
pub enum ParserDiagnosticKind {
    /// A type was expected; the text says what was found.
    InvalidTypeKeyword(String),
    /// The current token is not the one the grammar requires.
    UnexpectedToken,
}

/// Where a diagnostic points: a location, how many characters after it are
/// underlined, and optionally the text of the source line.
#[derive(Debug)]
pub struct DiagnosticLocation {
    source_location: SourceLocation,
    span_end: usize,
    source_line: Option<String>,
}

/// The characters of an optional string slice.
pub open spec fn opt_str_view(o: Option<&str>) -> Option<Seq<char>> {
    match o {
        Some(s) => Some(s@),
        None => None,
    }
}

/// The characters of an optional string.
pub open spec fn opt_string_view(o: Option<String>) -> Option<Seq<char>> {
    match o {
        Some(s) => Some(s@),
        None => None,
    }
}

impl DiagnosticLocation {
    pub closed spec fn location(&self) -> SourceLocation {
        self.source_location
    }

    pub closed spec fn span_end(&self) -> usize {
        self.span_end
    }

    pub closed spec fn source_line(&self) -> Option<Seq<char>> {
        opt_string_view(self.source_line)
    }

    /// A location copied from `source_loc`, underlining `sp` characters,
    /// showing the source line `sline` if there is one.
    pub fn new(source_loc: &SourceLocation, sp: usize, sline: Option<&str>) -> (res: Self)
        ensures
            res.location() == *source_loc,
            res.span_end() == sp,
            res.source_line() == opt_str_view(sline),
    {
        let line = match sline {
            Some(s) => Some(s.to_owned()),
            None => None,
        };
        DiagnosticLocation { source_location: source_loc.clone(), span_end: sp, source_line: line }
    }
}

/// One reported problem.
pub struct Diagnostic {
    severity: Severity,
    kind: DiagnosticKind,
    message: String,
    location: DiagnosticLocation,
    children: Vec<Diagnostic>,
}

impl Diagnostic {
    pub closed spec fn severity(&self) -> Severity {
        self.severity
    }

    pub closed spec fn kind(&self) -> DiagnosticKind {
        self.kind
    }

    pub closed spec fn message(&self) -> Seq<char> {
        self.message@
    }

    pub closed spec fn location(&self) -> SourceLocation {
        self.location.location()
    }

    pub closed spec fn span_end(&self) -> usize {
        self.location.span_end()
    }

    pub closed spec fn source_line(&self) -> Option<Seq<char>> {
        self.location.source_line()
    }

    pub closed spec fn children(&self) -> Seq<Diagnostic> {
        self.children@
    }

    /// A diagnostic with no children.
    pub fn new(
        sev: Severity,
        diag_kind: DiagnosticKind,
        message_str: &str,
        loc: SourceLocation,
        span_end: usize,
        source_line: Option<&str>,
    ) -> (res: Self)
        ensures
            res.severity() == sev,
            res.kind() == diag_kind,
            res.message() == message_str@,
            res.location() == loc,
            res.span_end() == span_end,
            res.source_line() == opt_str_view(source_line),
            res.children().len() == 0,
    {
        let children_vec: Vec<Diagnostic> = Vec::new();
        let diag_loc = DiagnosticLocation::new(&loc, span_end, source_line);
        Diagnostic {
            severity: sev,
            kind: diag_kind,
            message: message_str.to_owned(),
            location: diag_loc,
            children: children_vec,
        }
    }
}

/// How many diagnostics in `ds` have severity `s`.
pub open spec fn count_severity(ds: Seq<Diagnostic>, s: Severity) -> nat
    decreases ds.len(),
{
    if ds.len() == 0 {
        0
    } else {
        count_severity(ds.drop_last(), s) + if ds.last().severity() == s { 1nat } else { 0nat }
    }
}

/// Some diagnostic of `ds` has severity `s` exactly when the count of
/// such diagnostics is positive.
pub proof fn lemma_count_positive_iff_present(ds: Seq<Diagnostic>, s: Severity)
    ensures
        count_severity(ds, s) > 0 <==> exists|i: int| 0 <= i < ds.len() && #[trigger] ds[i].severity() == s,
    decreases ds.len(),
{
    if ds.len() > 0 {
        let init = ds.drop_last();
        lemma_count_positive_iff_present(init, s);
        if count_severity(init, s) > 0 {
            let i = choose|i: int| 0 <= i < init.len() && #[trigger] init[i].severity() == s;
            assert(ds[i] == init[i]);
        }
        if exists|i: int| 0 <= i < ds.len() && #[trigger] ds[i].severity() == s {
            let i = choose|i: int| 0 <= i < ds.len() && #[trigger] ds[i].severity() == s;
            if i < ds.len() - 1 {
                assert(init[i] == ds[i]);
            }
        }
    }
}

/// The word a severity is rendered as.
pub open spec fn severity_name(s: Severity) -> Seq<char> {
    match s {
        Severity::Error => "error"@,
        Severity::Warning => "warning"@,
        Severity::Fatal => "fatal"@,
    }
}

/// The underline under a source line: blanks up to the column, a caret at
/// the column, tildes after it, `col + span` characters in all.
pub open spec fn indicator(col: nat, span: nat) -> Seq<char> {
    Seq::new(col + span, |i: int| indicator_char(col, i))
}

/// The character at position `i` of an underline whose caret is at `col`.
pub open spec fn indicator_char(col: nat, i: int) -> char {
    if i < col { ' ' } else if i == col { '^' } else { '~' }
}

/// The first line of a rendered diagnostic: `file:line:col: severity: message`.
pub open spec fn header_line(d: Diagnostic) -> Seq<char> {
    d.location().file_name@ + ":"@ + decimal(d.location().line_num as nat) + ":"@ + decimal(
        d.location().column_num as nat,
    ) + ": "@ + severity_name(d.severity()) + ": "@ + d.message()
}

/// The lines a diagnostic is rendered as: the header, then, where the
/// source line is known, that line and its underline, each after a tab.
pub open spec fn diagnostic_lines(d: Diagnostic) -> Seq<Seq<char>> {
    seq![header_line(d)] + match d.source_line() {
        Some(l) => seq![
            "\t"@ + l,
            "\t"@ + indicator(d.location().column_num as nat, d.span_end() as nat),
        ],
        None => Seq::empty(),
    }
}

/// The lines of all the diagnostics, in order.
pub open spec fn rendered_lines(ds: Seq<Diagnostic>) -> Seq<Seq<char>>
    decreases ds.len(),
{
    if ds.len() == 0 {
        Seq::empty()
    } else {
        rendered_lines(ds.drop_last()) + diagnostic_lines(ds.last())
    }
}

/// Rendering a diagnostic alone gives its own lines: the header, then the
/// source line and its underline when the source line is known.
pub proof fn lemma_render_single(d: Diagnostic)
    ensures
        rendered_lines(seq![d]) == diagnostic_lines(d),
        rendered_lines(seq![d])[0] == header_line(d),
        rendered_lines(seq![d]).len() == if d.source_line() is Some { 3int } else { 1int },
{
    assert(seq![d].drop_last() =~= Seq::<Diagnostic>::empty());
    assert(seq![d].last() == d);
    assert(rendered_lines(Seq::<Diagnostic>::empty()) == Seq::<Seq<char>>::empty());
    assert(rendered_lines(seq![d]) == rendered_lines(seq![d].drop_last()) + diagnostic_lines(d));
    assert(Seq::<Seq<char>>::empty() + diagnostic_lines(d) =~= diagnostic_lines(d));
}

/// Rendering is done diagnostic by diagnostic: rendering two runs of
/// diagnostics one after the other gives the lines of the first run
/// followed by those of the second; nothing is dropped or reordered.
pub proof fn lemma_render_concat(a: Seq<Diagnostic>, b: Seq<Diagnostic>)
    ensures
        rendered_lines(a + b) == rendered_lines(a) + rendered_lines(b),
    decreases b.len(),
{
    if b.len() == 0 {
        assert(a + b =~= a);
        assert(rendered_lines(a) + rendered_lines(b) =~= rendered_lines(a));
    } else {
        assert((a + b).drop_last() =~= a + b.drop_last());
        assert((a + b).last() == b.last());
        lemma_render_concat(a, b.drop_last());
        assert(rendered_lines(a) + rendered_lines(b.drop_last()) + diagnostic_lines(b.last()) =~= rendered_lines(a) + (
        rendered_lines(b.drop_last()) + diagnostic_lines(b.last())));
    }
}

/// Every diagnostic contributes at least its header: there are at least as
/// many rendered lines as diagnostics, and at most three per diagnostic.
pub proof fn lemma_render_length(ds: Seq<Diagnostic>)
    ensures
        ds.len() <= rendered_lines(ds).len() <= 3 * ds.len(),
    decreases ds.len(),
{
    if ds.len() > 0 {
        lemma_render_length(ds.drop_last());
    }
}

/// A diagnostic can be rendered when its underline length fits in a `usize`.
pub open spec fn underline_fits(d: Diagnostic) -> bool {
    d.source_line() is Some ==> d.location().column_num + d.span_end() <= usize::MAX
}

/// The views of a sequence of strings.
pub open spec fn string_views(v: Seq<String>) -> Seq<Seq<char>> {
    v.map_values(|s: String| s@)
}

fn severity_word(s: Severity) -> (res: &'static str)
    ensures
        res@ == severity_name(s),
{
    match s {
        Severity::Error => "error",
        Severity::Warning => "warning",
        Severity::Fatal => "fatal",
    }
}

impl Diagnostic {
    fn header(&self) -> (res: String)
        ensures
            res@ == header_line(*self),
    {
        let loc = &self.location.source_location;
        let mut s = loc.file_name.clone();
        s.append(":");
        push_decimal(&mut s, loc.line_num as u64);
        s.append(":");
        push_decimal(&mut s, loc.column_num as u64);
        s.append(": ");
        s.append(severity_word(self.severity));
        s.append(": ");
        s.append(self.message.as_str());
        assert(s@ =~= header_line(*self));
        s
    }

    fn underline(&self) -> (res: String)
        requires
            self.location().column_num + self.span_end() <= usize::MAX,
        ensures
            res@ == "\t"@ + indicator(self.location().column_num as nat, self.span_end() as nat),
    {
        let col = self.location.source_location.column_num;
        let total = col + self.location.span_end;
        let mut s = "\t".to_owned();
        let ghost start = s@;
        let mut i: usize = 0;
        assert(s@ =~= start + Seq::new(0, |j: int| indicator_char(col as nat, j)));
        while i < total
            invariant
                i <= total,
                total == col + self.span_end(),
                col == self.location().column_num,
                s@ == start + Seq::new(i as nat, |j: int| indicator_char(col as nat, j)),
            decreases total - i,
        {
            let c = if i < col {
                ' '
            } else if i == col {
                '^'
            } else {
                '~'
            };
            push_char(&mut s, c);
            i = i + 1;
            assert(s@ =~= start + Seq::new(i as nat, |j: int| indicator_char(col as nat, j)));
        }
        assert(Seq::new(total as nat, |j: int| indicator_char(col as nat, j)) =~= indicator(
            self.location().column_num as nat,
            self.span_end() as nat,
        ));
        s
    }

    /// The lines this diagnostic is rendered as, appended to `out`.
    fn render_into(&self, out: &mut Vec<String>)
        requires
            underline_fits(*self),
        ensures
            string_views(final(out)@) == string_views(old(out)@) + diagnostic_lines(*self),
    {
        let ghost before = string_views(out@);
        out.push(self.header());
        match &self.location.source_line {
            Some(line) => {
                let mut l = "\t".to_owned();
                l.append(line.as_str());
                out.push(l);
                out.push(self.underline());
            },
            None => {},
        }
        assert(string_views(out@) =~= before + diagnostic_lines(*self));
    }
}

/// Collects the diagnostics of a compilation and counts them by severity.
pub struct DiagnosticEngine {
    pub diagnostics_vec: Vec<Diagnostic>,
    pub error_count: u64,
    pub warning_count: u64,
    pub has_fatal: bool,
    pub exit_code: i32,
}

impl DiagnosticEngine {
    /// The counters agree with the diagnostics held: `error_count` and
    /// `warning_count` count errors and warnings, `has_fatal` says whether
    /// a fatal diagnostic is among them.
    pub open spec fn counts_consistent(&self) -> bool {
        &&& self.error_count == count_severity(self.diagnostics_vec@, Severity::Error)
        &&& self.warning_count == count_severity(self.diagnostics_vec@, Severity::Warning)
        &&& self.has_fatal == (count_severity(self.diagnostics_vec@, Severity::Fatal) > 0)
    }

    /// Every diagnostic held can be rendered.
    pub open spec fn renderable(&self) -> bool {
        forall|i: int| 0 <= i < self.diagnostics_vec@.len() ==> underline_fits(#[trigger] self.diagnostics_vec@[i])
    }

    /// While the counters agree with the diagnostics, the engine reports
    /// errors exactly when an error diagnostic has been recorded, and has a
    /// fatal diagnostic exactly when one has been recorded.
    pub proof fn lemma_errors_iff_recorded(&self)
        requires
            self.counts_consistent(),
        ensures
            (self.error_count > 0) <==> exists|i: int|
                0 <= i < self.diagnostics_vec@.len() && #[trigger] self.diagnostics_vec@[i].severity() == Severity::Error,
            self.has_fatal <==> exists|i: int|
                0 <= i < self.diagnostics_vec@.len() && #[trigger] self.diagnostics_vec@[i].severity() == Severity::Fatal,
    {
        lemma_count_positive_iff_present(self.diagnostics_vec@, Severity::Error);
        lemma_count_positive_iff_present(self.diagnostics_vec@, Severity::Fatal);
    }

    /// An engine with no diagnostics.
    pub fn new() -> (res: Self)
        ensures
            res.diagnostics_vec@.len() == 0,
            res.error_count == 0,
            res.warning_count == 0,
            !res.has_fatal,
            res.exit_code == 0,
            res.counts_consistent(),
    {
        let diag_vec: Vec<Diagnostic> = Vec::new();
        DiagnosticEngine {
            diagnostics_vec: diag_vec,
            error_count: 0,
            warning_count: 0,
            has_fatal: false,
            exit_code: 0,
        }
    }

    /// Records a diagnostic and counts it; returns false once a fatal
    /// diagnostic has been recorded, by this call or an earlier one.
    pub fn emit(
        &mut self,
        severity: Severity,
        kind: DiagnosticKind,
        message: &str,
        location: SourceLocation,
        span_end: usize,
        source_line: Option<&str>,
    ) -> (res: bool)
        requires
            severity == Severity::Error ==> old(self).error_count < u64::MAX,
            severity == Severity::Warning ==> old(self).warning_count < u64::MAX,
        ensures
            final(self).diagnostics_vec@.len() == old(self).diagnostics_vec@.len() + 1,
            final(self).diagnostics_vec@.drop_last() == old(self).diagnostics_vec@,
            ({
                let d = final(self).diagnostics_vec@.last();
                &&& d.severity() == severity
                &&& d.kind() == kind
                &&& d.message() == message@
                &&& d.location() == location
                &&& d.span_end() == span_end
                &&& d.source_line() == opt_str_view(source_line)
                &&& d.children().len() == 0
            }),
            final(self).error_count == old(self).error_count + if severity == Severity::Error { 1int } else { 0int },
            final(self).warning_count == old(self).warning_count + if severity == Severity::Warning { 1int } else { 0int },
            final(self).has_fatal == (old(self).has_fatal || severity == Severity::Fatal),
            final(self).exit_code == old(self).exit_code,
            res == !final(self).has_fatal,
            old(self).counts_consistent() ==> final(self).counts_consistent(),
    {
        let diagnostic = Diagnostic::new(severity, kind, message, location, span_end, source_line);
        let cur_severity = diagnostic.severity;
        self.diagnostics_vec.push(diagnostic);
        assert(self.diagnostics_vec@.drop_last() =~= old(self).diagnostics_vec@);
        match cur_severity {
            Severity::Error => {
                self.error_count = self.error_count + 1;
            },
            Severity::Warning => {
                self.warning_count = self.warning_count + 1;
            },
            Severity::Fatal => {
                self.has_fatal = true;
            },
        }
        if self.has_fatal {
            return false;
        }
        true
    }

    /// Whether any error has been counted.
    pub fn has_errors(&self) -> (res: bool)
        ensures
            res == (self.error_count > 0),
    {
        if self.error_count > 0 {
            return true;
        }
        false
    }

    /// Whether every diagnostic held can be rendered.
    pub fn can_render(&self) -> (res: bool)
        ensures
            res == self.renderable(),
    {
        let mut i: usize = 0;
        while i < self.diagnostics_vec.len()
            invariant
                i <= self.diagnostics_vec@.len(),
                forall|j: int| 0 <= j < i ==> underline_fits(#[trigger] self.diagnostics_vec@[j]),
            decreases self.diagnostics_vec@.len() - i,
        {
            let d = &self.diagnostics_vec[i];
            match &d.location.source_line {
                Some(_) => {
                    if d.location.source_location.column_num > usize::MAX - d.location.span_end {
                        return false;
                    }
                },
                None => {},
            }
            i = i + 1;
        }
        true
    }

    /// The text of all diagnostics, line by line, in the order they were
    /// recorded (what the compiler writes to standard error).
    pub fn render(&self) -> (lines: Vec<String>)
        requires
            self.renderable(),
        ensures
            string_views(lines@) == rendered_lines(self.diagnostics_vec@),
    {
        let mut lines: Vec<String> = Vec::new();
        let mut i: usize = 0;
        while i < self.diagnostics_vec.len()
            invariant
                i <= self.diagnostics_vec@.len(),
                self.renderable(),
                string_views(lines@) == rendered_lines(self.diagnostics_vec@.take(i as int)),
            decreases self.diagnostics_vec@.len() - i,
        {
            assert(self.diagnostics_vec@.take(i + 1).drop_last() =~= self.diagnostics_vec@.take(i as int));
            self.diagnostics_vec[i].render_into(&mut lines);
            i = i + 1;
        }
        assert(self.diagnostics_vec@.take(i as int) =~= self.diagnostics_vec@);
        lines
    }
}

} // verus!
