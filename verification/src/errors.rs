//! Structured diagnostics: every failure in lexing, parsing or execution is
//! reported as an [`Error`] carrying the stage, the source position, the
//! offending line's text, and the width of the caret underline.

use vstd::prelude::*;
use vstd::string::*;

use crate::strutil::{chars_to_string, usize_to_string};

verus! {

/// The stage of the pipeline that produced a diagnostic.
#[derive(Debug, Clone, Copy, PartialEq, Eq, Structural)]
pub enum ErrorLocation {
    Lexer,
    Parser,
    Interpreter,
}

/// A structured diagnostic: stage, position, message, and the source line the
/// position refers to. Produced once and never recovered from: the first
/// error aborts the phase that raised it.
#[derive(Debug, Clone)]
pub struct Error {
    pub line: usize,
    pub column: usize,
    pub index: usize,
    pub width: usize,

    pub file: String,
    pub message: String,
    pub context: String,
    pub location: ErrorLocation,
}

impl Error {
    /// Packs the fields of a diagnostic, in the order: line, column, byte
    /// index, underline width, file, message, source line, stage.
    pub fn new(
        line: usize,
        column: usize,
        index: usize,
        width: usize,
        file: String,
        message: String,
        context: String,
        location: ErrorLocation,
    ) -> (r: Error)
        ensures
            r.line == line,
            r.column == column,
            r.index == index,
            r.width == width,
            r.file == file,
            r.message == message,
            r.context == context,
            r.location == location,
    {
        Error { line, column, index, width, file, message, context, location }
    }

    /// The stage line of this diagnostic: `Lexing`, `Parsing` or `Runtime`.
    pub fn stage(&self) -> (r: &'static str)
        ensures
            self.location is Lexer ==> r@ == "Lexing"@,
            self.location is Parser ==> r@ == "Parsing"@,
            self.location is Interpreter ==> r@ == "Runtime"@,
    {
        match self.location {
            ErrorLocation::Lexer => "Lexing",
            ErrorLocation::Parser => "Parsing",
            ErrorLocation::Interpreter => "Runtime",
        }
    }

    /// The diagnostic rendered as text: a stage line, a `file:column
    /// (index)` header, the source line, and a caret underline of `width`
    /// characters starting at the failing column, with terminal colour
    /// codes around the parts.
    pub fn render(&self) -> (r: String)
        ensures
            r@ == spec_render(*self),
    {
        let col = if self.column == 0 {
            1
        } else {
            self.column
        };
        let line_text = usize_to_string(self.line);
        let sidebar_padding = repeat_char(' ', line_text.as_str().unicode_len());
        let padding = repeat_char(' ', col - 1);
        let bar = repeat_char('^', self.width);

        let mut out = String::from_str(self.stage());
        out.append(" error:\n");
        out.append(sidebar_padding.as_str());
        out.append("\u{1b}[1m\u{1b}[34m-->\u{1b}[0m ");
        out.append("\u{1b}[36m");
        out.append(self.file.as_str());
        out.append("\u{1b}[0m ");
        out.append(line_text.as_str());
        out.append(":");
        let col_text = usize_to_string(self.column);
        out.append(col_text.as_str());
        out.append(" (");
        let idx_text = usize_to_string(self.index);
        out.append(idx_text.as_str());
        out.append(")\n");
        out.append(sidebar_padding.as_str());
        out.append(" \u{1b}[1m\u{1b}[34m|\u{1b}[0m\n");
        out.append("\u{1b}[1m\u{1b}[34m");
        out.append(line_text.as_str());
        out.append("\u{1b}[0m \u{1b}[1m\u{1b}[34m|\u{1b}[0m ");
        out.append("\u{1b}[32m");
        out.append(self.context.as_str());
        out.append("\u{1b}[0m\n");
        out.append(sidebar_padding.as_str());
        out.append(" \u{1b}[1m\u{1b}[34m|\u{1b}[0m ");
        out.append(padding.as_str());
        out.append("\u{1b}[1m\u{1b}[34m");
        out.append(bar.as_str());
        out.append("\u{1b}[0m ");
        out.append("\u{1b}[1m\u{1b}[31m");
        out.append(self.message.as_str());
        out.append("\u{1b}[0m");
        proof {
            assert(out@ =~= spec_render(*self));
        }
        out
    }
}

/// The exact text a diagnostic renders as: the stage line, the
/// `file line:column (index)` header, a sidebar, the source line, and a
/// caret underline of `width` characters starting at the failing column
/// (clamped to one), with terminal colour codes around the parts.
pub open spec fn spec_render(e: Error) -> Seq<char> {
    let col: int = if e.column == 0 {
        1
    } else {
        e.column as int
    };
    let stage: Seq<char> = if e.location is Lexer {
        "Lexing"@
    } else if e.location is Parser {
        "Parsing"@
    } else {
        "Runtime"@
    };
    let line_text = crate::strutil::nat_to_dec(e.line as nat);
    let sidebar = char_repeat(' ', line_text.len() as int);
    stage + " error:\n"@ + sidebar + "\u{1b}[1m\u{1b}[34m-->\u{1b}[0m "@ + "\u{1b}[36m"@
        + e.file@ + "\u{1b}[0m "@ + line_text + ":"@ + crate::strutil::nat_to_dec(
        e.column as nat,
    ) + " ("@ + crate::strutil::nat_to_dec(e.index as nat) + ")\n"@ + sidebar
        + " \u{1b}[1m\u{1b}[34m|\u{1b}[0m\n"@ + "\u{1b}[1m\u{1b}[34m"@ + line_text
        + "\u{1b}[0m \u{1b}[1m\u{1b}[34m|\u{1b}[0m "@ + "\u{1b}[32m"@ + e.context@
        + "\u{1b}[0m\n"@ + sidebar + " \u{1b}[1m\u{1b}[34m|\u{1b}[0m "@ + char_repeat(
        ' ',
        col - 1,
    ) + "\u{1b}[1m\u{1b}[34m"@ + char_repeat('^', e.width as int) + "\u{1b}[0m "@
        + "\u{1b}[1m\u{1b}[31m"@ + e.message@ + "\u{1b}[0m"@
}

/// `n` copies of the character `c`.
pub open spec fn char_repeat(c: char, n: int) -> Seq<char> {
    Seq::new(n as nat, |i: int| c)
}

/// `n` copies of the character `c`.
pub fn repeat_char(c: char, n: usize) -> (r: String)
    ensures
        r@ == char_repeat(c, n as int),
        r@.len() == n,
        forall|i: int| 0 <= i < n ==> r@[i] == c,
{
    let mut v: Vec<char> = Vec::new();
    let mut i: usize = 0;
    while i < n
        invariant
            i <= n,
            v@.len() == i,
            forall|x: int| 0 <= x < i ==> v@[x] == c,
        decreases n - i,
    {
        v.push(c);
        i = i + 1;
    }
    proof {
        assert(v@ =~= char_repeat(c, n as int));
    }
    chars_to_string(&v)
}

} // verus!
