//! The lexer: a single left-to-right scan of the source text with one
//! character of lookahead (two for the two-character operators), producing a
//! flat token sequence with line/column/index positions for diagnostics.
//!
//! The whole scan is specified by the spec functions in this module:
//! [`spec_token_at`] gives the token produced at a position (or the error),
//! and [`spec_raw`] the full collapsed token sequence of one file. The
//! executable scanner is proved to return exactly that sequence, so lexing is
//! a function of the source text alone.

use vstd::prelude::*;
use vstd::string::*;
use vstd::hash_map::StringHashMap;

use crate::errors::{Error, ErrorLocation};
use crate::fp::{fp_neg, fp_of_dec, fp_parse};
use crate::strutil::{chars_to_string, digits_to_i64, digits_val, is_digit_char, str_to_chars};
use crate::token::{Token, TokenType, TokenTypeV, TokenV};

verus! {

// ---------------------------------------------------------------------------
// Lines of a source text (for diagnostic context)
// ---------------------------------------------------------------------------

/// Index of the first newline in `s`, or `s.len()` if there is none.
pub open spec fn first_nl(s: Seq<char>) -> int
    decreases s.len(),
{
    if s.len() == 0 {
        0
    } else if s[0] == '\n' {
        0
    } else {
        1 + first_nl(s.skip(1))
    }
}

pub proof fn lemma_first_nl(s: Seq<char>)
    ensures
        0 <= first_nl(s) <= s.len(),
        first_nl(s) < s.len() ==> s[first_nl(s)] == '\n',
        forall|i: int| 0 <= i < first_nl(s) ==> s[i] != '\n',
    decreases s.len(),
{
    if s.len() > 0 && s[0] != '\n' {
        lemma_first_nl(s.skip(1));
        assert forall|i: int| 0 <= i < first_nl(s) implies s[i] != '\n' by {
            if i >= 1 {
                assert(s.skip(1)[i - 1] == s[i]);
            }
        }
    }
}

/// A line as diagnostics show it: without a trailing carriage return.
pub open spec fn strip_cr(l: Seq<char>) -> Seq<char> {
    if l.len() > 0 && l.last() == '\r' {
        l.drop_last()
    } else {
        l
    }
}

/// The lines of a source text: split at newlines, each line stripped of a
/// trailing carriage return; text after the last newline forms a final line
/// only if it is non-empty, and keeps any carriage return.
pub open spec fn spec_lines(s: Seq<char>) -> Seq<Seq<char>>
    decreases s.len(),
    via spec_lines_dec
{
    if s.len() == 0 {
        Seq::empty()
    } else {
        let k = first_nl(s);
        if k == s.len() {
            seq![s]
        } else {
            seq![strip_cr(s.take(k))] + spec_lines(s.skip(k + 1))
        }
    }
}

#[via_fn]
proof fn spec_lines_dec(s: Seq<char>) {
    lemma_first_nl(s);
}

/// The diagnostic context for a 1-based line number: that line's text, or
/// empty past the end.
pub open spec fn spec_ctx(lines: Seq<Seq<char>>, line: int) -> Seq<char> {
    if 0 <= line - 1 < lines.len() {
        lines[line - 1]
    } else {
        Seq::empty()
    }
}

/// Splits a source text into its lines, as [`spec_lines`] describes.
pub fn split_lines(chars: &Vec<char>) -> (r: Vec<String>)
    ensures
        r.deep_view() == spec_lines(chars@),
{
    let mut r: Vec<String> = Vec::new();
    let mut cur: Vec<char> = Vec::new();
    let mut i: usize = 0;
    proof {
        assert(chars@.skip(0) =~= chars@);
    }
    while i < chars.len()
        invariant
            i <= chars@.len(),
            cur@.len() <= i,
            cur@ =~= chars@.subrange(i - cur@.len(), i as int),
            forall|j: int| 0 <= j < cur@.len() ==> cur@[j] != '\n',
            spec_lines(chars@) == r.deep_view() + spec_lines(chars@.skip(i - cur@.len())),
        decreases chars@.len() - i,
    {
        let ghost start = i - cur@.len();
        let ghost rest = chars@.skip(start);
        let c = chars[i];
        if c == '\n' {
            proof {
                lemma_first_nl(rest);
                assert(start + cur@.len() == i);
                assert(rest.len() == chars@.len() - start);
                assert(rest[cur@.len() as int] == chars@[i as int]);
                assert(rest[cur@.len() as int] == '\n');
                assert(forall|j: int| 0 <= j < cur@.len() ==> rest[j] == cur@[j] && rest[j] != '\n');
                assert(first_nl(rest) == cur@.len()) by {
                    if first_nl(rest) < cur@.len() {
                        assert(rest[first_nl(rest)] != '\n');
                    }
                }
                assert(rest.take(cur@.len() as int) =~= cur@);
                assert(rest.skip(cur@.len() as int + 1) =~= chars@.skip(i + 1));
            }
            let mut line = cur;
            cur = Vec::new();
            if line.len() > 0 && line[line.len() - 1] == '\r' {
                line.pop();
                assert(line@ =~= strip_cr(chars@.subrange(start, i as int)));
            }
            let s = chars_to_string(&line);
            let ghost old_r = r.deep_view();
            r.push(s);
            proof {
                assert(r.deep_view() =~= old_r.push(s@));
                assert(spec_lines(rest) == seq![strip_cr(rest.take(first_nl(rest)))]
                    + spec_lines(rest.skip(first_nl(rest) + 1)));
                assert(old_r + spec_lines(rest) =~= r.deep_view() + spec_lines(
                    chars@.skip(i + 1),
                ));
            }
            i = i + 1;
            assert(cur@ =~= chars@.subrange(i as int, i as int));
        } else {
            proof {
                assert(start + cur@.len() == i);
            }
            cur.push(c);
            i = i + 1;
            proof {
                assert(cur@.len() == i - start);
                assert forall|j: int| 0 <= j < cur@.len() implies cur@[j] == chars@.subrange(
                    start,
                    i as int,
                )[j] by {}
                assert(cur@ =~= chars@.subrange(i - cur@.len(), i as int));
            }
        }
    }
    if cur.len() > 0 {
        let ghost start = i - cur@.len();
        let ghost rest = chars@.skip(start);
        proof {
            lemma_first_nl(rest);
            assert(rest =~= cur@);
            assert(first_nl(rest) == rest.len()) by {
                if first_nl(rest) < rest.len() {
                    assert(rest[first_nl(rest)] != '\n');
                }
            }
        }
        let s = chars_to_string(&cur);
        let ghost old_r = r.deep_view();
        r.push(s);
        proof {
            assert(spec_lines(rest) =~= seq![rest]);
            assert(r.deep_view() =~= old_r.push(s@));
            assert(r.deep_view() =~= old_r + spec_lines(rest));
        }
    } else {
        proof {
            assert(chars@.skip(i as int) =~= Seq::<char>::empty());
            assert(r.deep_view() + spec_lines(chars@.skip(i as int)) =~= r.deep_view());
        }
    }
    r
}

// ---------------------------------------------------------------------------
// The scan, specified
// ---------------------------------------------------------------------------

/// Whether `c` is skipped between tokens.
pub open spec fn is_ws_char(c: char) -> bool {
    c == ' ' || c == '\t' || c == '\r'
}

/// Whether `c` may follow a value or identifier token: whitespace, newline,
/// or an operator or punctuation character.
pub open spec fn is_boundary_char(c: char) -> bool {
    ||| is_ws_char(c)
    ||| c == '\n'
    ||| c == '=' || c == '+' || c == '-' || c == '*' || c == '/' || c == '%'
    ||| c == '!' || c == '>' || c == '<' || c == ':' || c == '~' || c == '@' || c == ';'
}

/// Whether `c` may appear in an identifier.
pub open spec fn is_ident_char(c: char) -> bool {
    ('a' <= c && c <= 'z') || ('A' <= c && c <= 'Z') || ('0' <= c && c <= '9') || c == '_'
}

/// Whether `c` may start an identifier.
pub open spec fn is_ident_start(c: char) -> bool {
    ('a' <= c && c <= 'z') || ('A' <= c && c <= 'Z') || c == '_'
}

/// Position of the first non-whitespace character at or after `i`.
pub open spec fn spec_skip_ws(s: Seq<char>, i: int) -> int
    decreases s.len() - i,
{
    if 0 <= i < s.len() && is_ws_char(s[i]) {
        spec_skip_ws(s, i + 1)
    } else {
        i
    }
}

pub proof fn lemma_skip_ws(s: Seq<char>, i: int)
    requires
        0 <= i <= s.len(),
    ensures
        i <= spec_skip_ws(s, i) <= s.len(),
        spec_skip_ws(s, i) < s.len() ==> !is_ws_char(s[spec_skip_ws(s, i)]),
    decreases s.len() - i,
{
    if i < s.len() && is_ws_char(s[i]) {
        lemma_skip_ws(s, i + 1);
    }
}

/// Position of the newline ending a comment that starts at or after `i`, or
/// the end of the text.
pub open spec fn spec_skip_comment(s: Seq<char>, i: int) -> int
    decreases s.len() - i,
{
    if 0 <= i < s.len() && s[i] != '\n' {
        spec_skip_comment(s, i + 1)
    } else {
        i
    }
}

pub proof fn lemma_skip_comment(s: Seq<char>, i: int)
    requires
        0 <= i <= s.len(),
    ensures
        i <= spec_skip_comment(s, i) <= s.len(),
        spec_skip_comment(s, i) < s.len() ==> s[spec_skip_comment(s, i)] == '\n',
    decreases s.len() - i,
{
    if i < s.len() && s[i] != '\n' {
        lemma_skip_comment(s, i + 1);
    }
}

/// End of the identifier-character run starting at `i`.
pub open spec fn spec_ident_end(s: Seq<char>, i: int) -> int
    decreases s.len() - i,
{
    if 0 <= i < s.len() && is_ident_char(s[i]) {
        spec_ident_end(s, i + 1)
    } else {
        i
    }
}

pub proof fn lemma_ident_end(s: Seq<char>, i: int)
    requires
        0 <= i <= s.len(),
    ensures
        i <= spec_ident_end(s, i) <= s.len(),
        spec_ident_end(s, i) < s.len() ==> !is_ident_char(s[spec_ident_end(s, i)]),
        forall|j: int| i <= j < spec_ident_end(s, i) ==> is_ident_char(#[trigger] s[j]),
    decreases s.len() - i,
{
    if i < s.len() && is_ident_char(s[i]) {
        lemma_ident_end(s, i + 1);
    }
}

/// Whether position `i` ends a value token: the end of the text or a
/// boundary character.
pub open spec fn spec_at_boundary(s: Seq<char>, i: int) -> bool {
    i >= s.len() || is_boundary_char(s[i])
}

/// The scan of a numeric literal from `p`: the position after the last
/// consumed character and whether a decimal point was consumed, or an error
/// for a second decimal point. A `..` sequence ends the number unconsumed.
pub open spec fn spec_num_scan(s: Seq<char>, p: int, has_dot: bool) -> Result<(int, bool), ()>
    decreases s.len() - p,
{
    if p < 0 || p >= s.len() {
        Ok((p, has_dot))
    } else if is_digit_char(s[p]) {
        spec_num_scan(s, p + 1, has_dot)
    } else if s[p] == '.' {
        if p + 1 < s.len() && s[p + 1] == '.' {
            Ok((p, has_dot))
        } else if has_dot {
            Err(())
        } else {
            spec_num_scan(s, p + 1, true)
        }
    } else {
        Ok((p, has_dot))
    }
}

pub proof fn lemma_num_scan(s: Seq<char>, p: int, has_dot: bool)
    requires
        0 <= p <= s.len(),
    ensures
        match spec_num_scan(s, p, has_dot) {
            Ok((end, isf)) => {
                &&& p <= end <= s.len()
                &&& (has_dot ==> isf)
                &&& forall|j: int|
                    p <= j < end ==> (is_digit_char(#[trigger] s[j]) || s[j] == '.')
                &&& (!isf ==> forall|j: int| p <= j < end ==> is_digit_char(#[trigger] s[j]))
            },
            Err(()) => true,
        },
    decreases s.len() - p,
{
    if p < s.len() {
        if is_digit_char(s[p]) {
            lemma_num_scan(s, p + 1, has_dot);
            if spec_num_scan(s, p + 1, has_dot) is Ok {
                let (end, isf) = spec_num_scan(s, p + 1, has_dot)->Ok_0;
                assert forall|j: int| p <= j < end implies (is_digit_char(#[trigger] s[j])
                    || s[j] == '.') by {}
                if !isf {
                    assert forall|j: int| p <= j < end implies is_digit_char(
                        #[trigger] s[j],
                    ) by {}
                }
            }
        } else if s[p] == '.' && !(p + 1 < s.len() && s[p + 1] == '.') && !has_dot {
            lemma_num_scan(s, p + 1, true);
            if spec_num_scan(s, p + 1, true) is Ok {
                let (end, isf) = spec_num_scan(s, p + 1, true)->Ok_0;
                assert forall|j: int| p <= j < end implies (is_digit_char(#[trigger] s[j])
                    || s[j] == '.') by {}
            }
        }
    }
}

/// The scan of a string literal's remainder from `p` (just past the opening
/// quote or the last consumed character): the decoded value and the position
/// just past the closing quote, or an error for an unterminated literal or a
/// bad escape.
pub open spec fn spec_str_scan(s: Seq<char>, p: int, esc: bool) -> Result<(Seq<char>, int), ()>
    decreases s.len() - p,
{
    if p < 0 || p >= s.len() {
        Err(())
    } else {
        let c = s[p];
        if esc {
            let d: Option<char> = if c == 'n' {
                Some('\n')
            } else if c == 'r' {
                Some('\r')
            } else if c == 't' {
                Some('\t')
            } else if c == '0' {
                Some('\0')
            } else if c == '\'' {
                Some('\'')
            } else if c == '"' {
                Some('"')
            } else if c == '\\' {
                Some('\\')
            } else {
                None
            };
            match d {
                None => Err(()),
                Some(d) => match spec_str_scan(s, p + 1, false) {
                    Err(()) => Err(()),
                    Ok((v, end)) => Ok((seq![d] + v, end)),
                },
            }
        } else if c == '\\' {
            spec_str_scan(s, p + 1, true)
        } else if c == '"' {
            Ok((Seq::empty(), p + 1))
        } else {
            match spec_str_scan(s, p + 1, false) {
                Err(()) => Err(()),
                Ok((v, end)) => Ok((seq![c] + v, end)),
            }
        }
    }
}

pub proof fn lemma_str_scan(s: Seq<char>, p: int, esc: bool)
    requires
        0 <= p <= s.len(),
    ensures
        match spec_str_scan(s, p, esc) {
            Ok((v, end)) => p < end <= s.len() && v.len() <= end - p,
            Err(()) => true,
        },
    decreases s.len() - p,
{
    if 0 <= p < s.len() {
        lemma_str_scan(s, p + 1, false);
        lemma_str_scan(s, p + 1, true);
    }
}

/// The classification of an identifier's text: five keywords and the two
/// boolean literals are recognised, everything else is an identifier.
pub open spec fn spec_kw(t: Seq<char>) -> TokenTypeV {
    if t.len() == 2 && t[0] == 'i' && t[1] == 'f' {
        TokenTypeV::If
    } else if t.len() == 4 && t[0] == 'g' && t[1] == 'o' && t[2] == 't' && t[3] == 'o' {
        TokenTypeV::Goto
    } else if t.len() == 4 && t[0] == 'c' && t[1] == 'a' && t[2] == 'l' && t[3] == 'l' {
        TokenTypeV::Call
    } else if t.len() == 3 && t[0] == 'r' && t[1] == 'e' && t[2] == 't' {
        TokenTypeV::Ret
    } else if t.len() == 4 && t[0] == 't' && t[1] == 'r' && t[2] == 'u' && t[3] == 'e' {
        TokenTypeV::Bool(true)
    } else if t.len() == 5 && t[0] == 'f' && t[1] == 'a' && t[2] == 'l' && t[3] == 's' && t[4]
        == 'e' {
        TokenTypeV::Bool(false)
    } else {
        TokenTypeV::Identifier(t)
    }
}

/// What one step of the scan produced: the token's kind and width, and the
/// scanner state (position, line, column) just after it.
pub struct ScanNext {
    pub kind: TokenTypeV,
    pub width: int,
    pub i2: int,
    pub line2: int,
    pub col2: int,
}

/// The scanner state at the end of a file's scan.
pub struct ScanEnd {
    pub line: int,
    pub col: int,
    pub index: int,
}

/// The token a [`ScanNext`] denotes, positioned as the scanner records it:
/// line of its last character, column and index measured back by its width,
/// and the text of its line as context.
pub open spec fn mk_tok(st: ScanNext, file: Seq<char>, lines: Seq<Seq<char>>) -> TokenV {
    TokenV {
        token_type: st.kind,
        line: st.line2,
        column: st.col2 - st.width,
        index: st.i2 - st.width,
        width: st.width,
        file: file,
        context: spec_ctx(lines, st.line2),
    }
}

/// The scan of a numeric literal at `p` with the line and the column of `p`
/// given: the token and the state after it, or `None` for a malformed
/// literal (second decimal point, missing boundary, or an integer above
/// `i64::MAX`).
pub open spec fn spec_number(s: Seq<char>, p: int, line: int, colp: int) -> Option<ScanNext> {
    match spec_num_scan(s, p, false) {
        Err(()) => None,
        Ok((end, isf)) => {
            let text = s.subrange(p, end);
            if !spec_at_boundary(s, end) {
                None
            } else if isf {
                match fp_of_dec(text) {
                    None => None,
                    Some(b) => Some(
                        ScanNext {
                            kind: TokenTypeV::Float(b),
                            width: end - p,
                            i2: end,
                            line2: line,
                            col2: colp + (end - p),
                        },
                    ),
                }
            } else {
                if digits_val(text) > i64::MAX {
                    None
                } else {
                    Some(
                        ScanNext {
                            kind: TokenTypeV::Int(digits_val(text) as i64),
                            width: end - p,
                            i2: end,
                            line2: line,
                            col2: colp + (end - p),
                        },
                    )
                }
            }
        },
    }
}

/// A numeric token with its sign flipped: the rule that folds a leading `-`
/// into the literal.
pub open spec fn spec_negate(st: ScanNext) -> ScanNext {
    match st.kind {
        TokenTypeV::Int(v) => ScanNext { kind: TokenTypeV::Int(((-(v as int)) as i64)), ..st },
        TokenTypeV::Float(b) => ScanNext { kind: TokenTypeV::Float(fp_neg(b)), ..st },
        _ => st,
    }
}

/// The token the scanner produces at position `i` (line `line`, column
/// `col`), and the state after it, or `None` where the text is not lexically
/// valid at `i`. Whitespace and comments before the token are skipped; at
/// the end of the text the token is `EOF`.
pub open spec fn spec_token_at(s: Seq<char>, i: int, line: int, col: int) -> Option<ScanNext>
    decreases s.len() - i,
    via spec_token_at_dec
{
    if !(0 <= i <= s.len()) {
        None
    } else {
    let j = spec_skip_ws(s, i);
    let colj = col + (j - i);
    if j >= s.len() {
        Some(ScanNext { kind: TokenTypeV::EOF, width: 0, i2: j, line2: line, col2: colj })
    } else {
        let c = s[j];
        if c == '-' {
            if j + 1 < s.len() && is_digit_char(s[j + 1]) {
                match spec_number(s, j + 1, line, colj + 1) {
                    None => None,
                    Some(st) => Some(spec_negate(st)),
                }
            } else {
                Some(
                    ScanNext {
                        kind: TokenTypeV::Minus,
                        width: 1,
                        i2: j + 1,
                        line2: line,
                        col2: colj + 1,
                    },
                )
            }
        } else if c == '=' && j + 1 < s.len() && s[j + 1] == '=' {
            Some(
                ScanNext {
                    kind: TokenTypeV::EqualsEquals,
                    width: 2,
                    i2: j + 2,
                    line2: line,
                    col2: colj + 2,
                },
            )
        } else if c == '>' && j + 1 < s.len() && s[j + 1] == '=' {
            Some(
                ScanNext {
                    kind: TokenTypeV::GreaterEquals,
                    width: 2,
                    i2: j + 2,
                    line2: line,
                    col2: colj + 2,
                },
            )
        } else if c == '<' && j + 1 < s.len() && s[j + 1] == '=' {
            Some(
                ScanNext {
                    kind: TokenTypeV::LessEquals,
                    width: 2,
                    i2: j + 2,
                    line2: line,
                    col2: colj + 2,
                },
            )
        } else if c == '!' && j + 1 < s.len() && s[j + 1] == '=' {
            Some(
                ScanNext {
                    kind: TokenTypeV::BangEquals,
                    width: 2,
                    i2: j + 2,
                    line2: line,
                    col2: colj + 2,
                },
            )
        } else if c == '\n' {
            Some(
                ScanNext {
                    kind: TokenTypeV::EOS,
                    width: 1,
                    i2: j + 1,
                    line2: line + 1,
                    col2: 1,
                },
            )
        } else if c == '+' || c == '*' || c == '/' || c == '%' || c == '=' || c == '<' || c == '>'
            || c == '@' || c == '~' || c == ':' || c == ';' {
            let kind = if c == '+' {
                TokenTypeV::Plus
            } else if c == '*' {
                TokenTypeV::Star
            } else if c == '/' {
                TokenTypeV::Slash
            } else if c == '%' {
                TokenTypeV::Percent
            } else if c == '=' {
                TokenTypeV::Equals
            } else if c == '<' {
                TokenTypeV::Less
            } else if c == '>' {
                TokenTypeV::Greater
            } else if c == '@' {
                TokenTypeV::At
            } else if c == '~' {
                TokenTypeV::Tilde
            } else if c == ':' {
                TokenTypeV::Colon
            } else {
                TokenTypeV::EOS
            };
            Some(ScanNext { kind: kind, width: 1, i2: j + 1, line2: line, col2: colj + 1 })
        } else if is_digit_char(c) {
            spec_number(s, j, line, colj)
        } else if is_ident_start(c) {
            let end = spec_ident_end(s, j);
            if !spec_at_boundary(s, end) {
                None
            } else {
                Some(
                    ScanNext {
                        kind: spec_kw(s.subrange(j, end)),
                        width: end - j,
                        i2: end,
                        line2: line,
                        col2: colj + (end - j),
                    },
                )
            }
        } else if c == '#' {
            let k = spec_skip_comment(s, j + 1);
            spec_token_at(s, k, line, col + (k - i))
        } else if c == '"' {
            match spec_str_scan(s, j + 1, false) {
                Err(()) => None,
                Ok((v, end)) => Some(
                    ScanNext {
                        kind: TokenTypeV::Str(v),
                        width: v.len() as int + 2,
                        i2: end,
                        line2: line,
                        col2: colj + (end - j),
                    },
                ),
            }
        } else {
            None
        }
    }
    }
}

#[via_fn]
proof fn spec_token_at_dec(s: Seq<char>, i: int, line: int, col: int) {
    if 0 <= i <= s.len() {
        let j = spec_skip_ws(s, i);
        lemma_skip_ws(s, i);
        if j < s.len() && s[j] == '#' {
            lemma_skip_comment(s, j + 1);
        }
    } else {
        // Out-of-range positions skip no whitespace and end the recursion.
        assert(spec_skip_ws(s, i) == i);
    }
}

/// The scanned token advances the position: used for termination of the
/// scan, and to know that tokens do not overlap.
pub proof fn lemma_token_at_advances(s: Seq<char>, i: int, line: int, col: int)
    requires
        0 <= i <= s.len(),
    ensures
        match spec_token_at(s, i, line, col) {
            Some(st) => i <= st.i2 <= s.len() && (!(st.kind is EOF) ==> i < st.i2),
            None => true,
        },
    decreases s.len() - i,
{
    let j = spec_skip_ws(s, i);
    lemma_skip_ws(s, i);
    if j < s.len() {
        let c = s[j];
        if c == '-' && j + 1 < s.len() && is_digit_char(s[j + 1]) {
            lemma_num_scan(s, j + 1, false);
        } else if is_digit_char(c) {
            lemma_num_scan(s, j, false);
        } else if is_ident_start(c) {
            lemma_ident_end(s, j);
        } else if c == '#' {
            let k = spec_skip_comment(s, j + 1);
            lemma_skip_comment(s, j + 1);
            lemma_token_at_advances(s, k, line, col + (k - i));
        } else if c == '"' {
            lemma_str_scan(s, j + 1, false);
        }
    }
}

/// The raw token sequence of a file from position `i` on, with consecutive
/// end-of-statement tokens collapsed during the scan, and the scanner state
/// at the end of the text; `None` where the text is not lexically valid.
/// `prev_eos` records whether the previous kept token was an EOS.
pub open spec fn spec_raw(
    s: Seq<char>,
    file: Seq<char>,
    lines: Seq<Seq<char>>,
    i: int,
    line: int,
    col: int,
    prev_eos: bool,
) -> Option<(Seq<TokenV>, ScanEnd)>
    decreases s.len() - i,
    via spec_raw_dec
{
    if !(0 <= i <= s.len()) {
        None
    } else {
        match spec_token_at(s, i, line, col) {
            None => None,
            Some(st) => {
                if st.kind is EOF {
                    Some(
                        (
                            Seq::empty(),
                            ScanEnd { line: st.line2, col: st.col2, index: st.i2 },
                        ),
                    )
                } else if prev_eos && st.kind is EOS {
                    spec_raw(s, file, lines, st.i2, st.line2, st.col2, true)
                } else {
                    match spec_raw(s, file, lines, st.i2, st.line2, st.col2, st.kind is EOS) {
                        None => None,
                        Some((ts, end)) => Some((seq![mk_tok(st, file, lines)] + ts, end)),
                    }
                }
            },
        }
    }
}

#[via_fn]
proof fn spec_raw_dec(
    s: Seq<char>,
    file: Seq<char>,
    lines: Seq<Seq<char>>,
    i: int,
    line: int,
    col: int,
    prev_eos: bool,
) {
    if 0 <= i <= s.len() {
        lemma_token_at_advances(s, i, line, col);
    }
}

// ---------------------------------------------------------------------------
// The scanner
// ---------------------------------------------------------------------------

/// The lexer for one source file. `chars` holds the characters of `source`;
/// `index`, `line` and `column` are the scanner position (0-based character
/// index, 1-based line and column); `lines` holds the source's lines for
/// diagnostic context.
pub struct Lexer {
    pub filename: String,
    pub source: String,
    pub chars: Vec<char>,
    pub index: usize,
    pub line: usize,
    pub column: usize,
    pub lines: Vec<String>,
}

impl Lexer {
    /// The scanner state is consistent: the character vector and line table
    /// match the source, and the position counters are in range.
    pub open spec fn wf(self) -> bool {
        &&& self.chars@ == self.source@
        &&& self.lines.deep_view() == spec_lines(self.source@)
        &&& self.chars@.len() < usize::MAX
        &&& self.index <= self.chars@.len()
        &&& 1 <= self.line <= self.index + 1
        &&& 1 <= self.column <= self.index + 1
    }

    /// A fresh lexer at the start of `source`, named `filename` for
    /// diagnostics.
    pub fn new(filename: String, source: String) -> (r: Lexer)
        ensures
            r.filename == filename,
            r.source == source,
            r.index == 0,
            r.line == 1,
            r.column == 1,
            source@.len() < usize::MAX ==> r.wf(),
    {
        let chars = str_to_chars(source.as_str());
        let lines = split_lines(&chars);
        Lexer { filename, source, chars, index: 0, line: 1, column: 1, lines }
    }

    /// A lexing-stage diagnostic anchored at the current scanner position,
    /// with an underline of one character.
    pub fn error(&self, message: String) -> (r: Error)
        ensures
            r.location == ErrorLocation::Lexer,
            r.message == message,
            r.line == self.line,
            r.column == self.column,
            r.index == self.index,
            r.width == 1,
    {
        let context = if self.line >= 1 && self.line - 1 < self.lines.len() {
            self.lines[self.line - 1].clone()
        } else {
            String::new()
        };
        Error::new(
            self.line,
            self.column,
            self.index,
            1,
            self.filename.clone(),
            message,
            context,
            ErrorLocation::Lexer,
        )
    }

    /// The character `offset` places past the current position, if any.
    pub fn peek(&self, offset: usize) -> (c: Option<char>)
        requires
            self.index + offset <= usize::MAX,
        ensures
            c == spec_peek(self.chars@, self.index + offset),
    {
        if self.index + offset < self.chars.len() {
            Some(self.chars[self.index + offset])
        } else {
            None
        }
    }

    /// Consumes one character, advancing the column; at the end of the text
    /// does nothing and returns `None`.
    pub fn advance(&mut self) -> (c: Option<char>)
        requires
            old(self).wf(),
        ensures
            final(self).wf(),
            c == spec_peek(old(self).chars@, old(self).index as int),
            final(self).filename == old(self).filename,
            final(self).source == old(self).source,
            final(self).chars == old(self).chars,
            final(self).lines == old(self).lines,
            final(self).line == old(self).line,
            match c {
                Some(_) => final(self).index == old(self).index + 1 && final(self).column == old(
                    self,
                ).column + 1,
                None => final(self).index == old(self).index && final(self).column == old(self).column,
            },
    {
        if self.index < self.chars.len() {
            let c = self.chars[self.index];
            self.index = self.index + 1;
            self.column = self.column + 1;
            Some(c)
        } else {
            None
        }
    }

    /// Whether the whole text has been consumed.
    pub fn is_end(&self) -> (r: bool)
        ensures
            r == (self.index >= self.chars@.len()),
    {
        self.index >= self.chars.len()
    }

    /// Whether the current position ends a value token (see
    /// [`spec_at_boundary`]).
    pub fn is_boundary(&self) -> (r: bool)
        requires
            self.wf(),
        ensures
            r == spec_at_boundary(self.chars@, self.index as int),
    {
        if self.index >= self.chars.len() {
            return true;
        }
        let c = self.chars[self.index];
        c == ' ' || c == '\t' || c == '\r' || c == '\n' || c == '=' || c == '+' || c == '-'
            || c == '*' || c == '/' || c == '%' || c == '!' || c == '>' || c == '<' || c == ':'
            || c == '~' || c == '@' || c == ';'
    }

    /// Consumes whitespace characters (space, tab, carriage return).
    pub fn skip_whitespace(&mut self)
        requires
            old(self).wf(),
        ensures
            final(self).wf(),
            final(self).filename == old(self).filename,
            final(self).source == old(self).source,
            final(self).chars == old(self).chars,
            final(self).lines == old(self).lines,
            final(self).line == old(self).line,
            final(self).index == spec_skip_ws(old(self).chars@, old(self).index as int),
            final(self).column == old(self).column + (final(self).index - old(self).index),
    {
        loop
            invariant
                self.wf(),
                self.filename == old(self).filename,
                self.source == old(self).source,
                self.chars == old(self).chars,
                self.lines == old(self).lines,
                self.line == old(self).line,
                self.column == old(self).column + (self.index - old(self).index),
                spec_skip_ws(self.chars@, self.index as int) == spec_skip_ws(
                    old(self).chars@,
                    old(self).index as int,
                ),
                old(self).index <= self.index,
            decreases self.chars@.len() - self.index,
        {
            if self.index >= self.chars.len() {
                return ;
            }
            let c = self.chars[self.index];
            if c == ' ' || c == '\t' || c == '\r' {
                self.index = self.index + 1;
                self.column = self.column + 1;
            } else {
                return ;
            }
        }
    }

    /// A token of the given kind and width ending at the current position.
    fn make_token(&self, token_type: TokenType, width: usize) -> (r: Token)
        requires
            self.wf(),
            width <= self.column,
            width <= self.index,
        ensures
            r@ == mk_tok(
                ScanNext {
                    kind: token_type@,
                    width: width as int,
                    i2: self.index as int,
                    line2: self.line as int,
                    col2: self.column as int,
                },
                self.filename@,
                spec_lines(self.source@),
            ),
    {
        let context = if self.line - 1 < self.lines.len() {
            self.lines[self.line - 1].clone()
        } else {
            String::new()
        };
        Token::new(
            token_type,
            self.line,
            self.column - width,
            self.index - width,
            width,
            self.filename.clone(),
            context,
        )
    }
}

/// The character at `j`, if `j` is within the text.
pub open spec fn spec_peek(s: Seq<char>, j: int) -> Option<char> {
    if 0 <= j < s.len() {
        Some(s[j])
    } else {
        None
    }
}

/// `prefix` followed by the character `c`, for diagnostic messages.
fn msg_with_char(prefix: &str, c: char) -> (r: String) {
    let mut m = String::from_str(prefix);
    let cv = vec![c];
    let cs = chars_to_string(&cv);
    m.append(cs.as_str());
    m
}

/// `prefix` followed by `suffix`, for diagnostic messages.
fn msg_concat(prefix: &str, suffix: &str) -> (r: String) {
    let mut m = String::from_str(prefix);
    m.append(suffix);
    m
}

impl Lexer {
    /// Everything but the scanner position is unchanged.
    pub open spec fn same_text(self, o: Lexer) -> bool {
        &&& self.filename == o.filename
        &&& self.source == o.source
        &&& self.chars == o.chars
        &&& self.lines == o.lines
    }

    /// Scans a numeric literal starting at the current position (the first
    /// digit, or a dot): see [`spec_number`].
    fn get_number(&mut self) -> (r: Result<Token, Error>)
        requires
            old(self).wf(),
        ensures
            final(self).wf(),
            final(self).same_text(*old(self)),
            match spec_number(
                old(self).chars@,
                old(self).index as int,
                old(self).line as int,
                old(self).column as int,
            ) {
                Some(st) => {
                    &&& r is Ok
                    &&& r->Ok_0@ == mk_tok(st, old(self).filename@, spec_lines(old(self).source@))
                    &&& final(self).index == st.i2
                    &&& final(self).line == st.line2
                    &&& final(self).column == st.col2
                },
                None => r is Err,
            },
    {
        let ghost s = self.chars@;
        let ghost p0 = self.index as int;
        let mut number: Vec<char> = Vec::new();
        let mut is_float = false;

        loop
            invariant
                self.wf(),
                self.same_text(*old(self)),
                self.line == old(self).line,
                p0 == old(self).index,
                p0 <= self.index <= self.chars@.len(),
                s == self.chars@,
                self.column == old(self).column + (self.index - p0),
                number@ =~= s.subrange(p0, self.index as int),
                spec_num_scan(s, p0, false) == spec_num_scan(s, self.index as int, is_float),
                forall|j: int|
                    0 <= j < number@.len() ==> (is_digit_char(#[trigger] number@[j])
                        || number@[j] == '.'),
                !is_float ==> forall|j: int|
                    0 <= j < number@.len() ==> is_digit_char(#[trigger] number@[j]),
            ensures
                self.wf(),
                self.same_text(*old(self)),
                self.line == old(self).line,
                p0 <= self.index <= self.chars@.len(),
                s == self.chars@,
                self.column == old(self).column + (self.index - p0),
                number@ =~= s.subrange(p0, self.index as int),
                forall|j: int|
                    0 <= j < number@.len() ==> (is_digit_char(#[trigger] number@[j])
                        || number@[j] == '.'),
                !is_float ==> forall|j: int|
                    0 <= j < number@.len() ==> is_digit_char(#[trigger] number@[j]),
                spec_num_scan(s, p0, false) == Ok::<(int, bool), ()>(
                    (self.index as int, is_float),
                ),
            decreases self.chars@.len() - self.index,
        {
            if self.index >= self.chars.len() {
                break ;
            }
            let c = self.chars[self.index];
            if c >= '0' && c <= '9' {
                number.push(c);
                self.index = self.index + 1;
                self.column = self.column + 1;
                assert(number@ =~= s.subrange(p0, self.index as int));
            } else if c == '.' {
                if self.index + 1 < self.chars.len() && self.chars[self.index + 1] == '.' {
                    break ;
                }
                if is_float {
                    return Err(
                        self.error(
                            String::from_str("Illegal second decimal point in float literal: '.'"),
                        ),
                    );
                }
                number.push(c);
                self.index = self.index + 1;
                self.column = self.column + 1;
                is_float = true;
                assert(number@ =~= s.subrange(p0, self.index as int));
            } else {
                break ;
            }
        }

        if !self.is_boundary() {
            let c = self.chars[self.index];
            return Err(self.error(msg_with_char("Unexpected character in numeric literal: ", c)));
        }

        let text = chars_to_string(&number);
        let width = number.len();
        if is_float {
            match fp_parse(text.as_str()) {
                Some(b) => Ok(self.make_token(TokenType::Float(b), width)),
                None => Err(
                    self.error(msg_concat("Malformed numeric literal: ", text.as_str())),
                ),
            }
        } else {
            match digits_to_i64(&number) {
                Some(v) => Ok(self.make_token(TokenType::Int(v), width)),
                None => Err(
                    self.error(msg_concat("Malformed integer literal: ", text.as_str())),
                ),
            }
        }
    }

    /// Scans a string literal starting at the opening quote: see
    /// [`spec_str_scan`].
    fn get_string(&mut self) -> (r: Result<Token, Error>)
        requires
            old(self).wf(),
            old(self).index < old(self).chars@.len(),
            old(self).chars@[old(self).index as int] == '"',
        ensures
            final(self).wf(),
            final(self).same_text(*old(self)),
            match spec_token_at(
                old(self).chars@,
                old(self).index as int,
                old(self).line as int,
                old(self).column as int,
            ) {
                Some(st) => {
                    &&& r is Ok
                    &&& r->Ok_0@ == mk_tok(st, old(self).filename@, spec_lines(old(self).source@))
                    &&& final(self).index == st.i2
                    &&& final(self).line == st.line2
                    &&& final(self).column == st.col2
                },
                None => r is Err,
            },
    {
        let ghost s = self.chars@;
        let ghost p0 = self.index as int;
        let mut value: Vec<char> = Vec::new();
        let mut escape = false;

        self.index = self.index + 1;
        self.column = self.column + 1;

        proof {
            assert(value@ =~= Seq::<char>::empty());
            if spec_str_scan(s, p0 + 1, false) is Ok {
                let pr = spec_str_scan(s, p0 + 1, false)->Ok_0;
                assert(value@ + pr.0 =~= pr.0);
            }
        }

        loop
            invariant
                self.wf(),
                self.same_text(*old(self)),
                self.line == old(self).line,
                p0 == old(self).index,
                p0 + 1 <= self.index <= self.chars@.len(),
                s == self.chars@,
                s[p0] == '"',
                old(self).wf(),
                self.column == old(self).column + (self.index - p0),
                value@.len() <= self.index - (p0 + 1),
                (spec_str_scan(s, p0 + 1, false) is Ok) == (spec_str_scan(
                    s,
                    self.index as int,
                    escape,
                ) is Ok),
                spec_str_scan(s, self.index as int, escape) is Ok ==> {
                    let top = spec_str_scan(s, p0 + 1, false)->Ok_0;
                    let cur = spec_str_scan(s, self.index as int, escape)->Ok_0;
                    top.0 == value@ + cur.0 && top.1 == cur.1
                },
            decreases self.chars@.len() - self.index,
        {
            if self.index >= self.chars.len() {
                proof {
                    assert(spec_skip_ws(s, p0) == p0);
                }
                return Err(self.error(String::from_str("Unterminated string literal")));
            }
            let c = self.chars[self.index];
            self.index = self.index + 1;
            self.column = self.column + 1;

            if escape {
                let d: Option<char> = if c == 'n' {
                    Some('\n')
                } else if c == 'r' {
                    Some('\r')
                } else if c == 't' {
                    Some('\t')
                } else if c == '0' {
                    Some('\0')
                } else if c == '\'' {
                    Some('\'')
                } else if c == '"' {
                    Some('"')
                } else if c == '\\' {
                    Some('\\')
                } else {
                    None
                };
                match d {
                    Some(d) => {
                        value.push(d);
                        escape = false;
                        proof {
                            if spec_str_scan(s, self.index as int, false) is Ok {
                                let pr = spec_str_scan(s, self.index as int, false)->Ok_0;
                                assert(value@ + pr.0 =~= value@.drop_last() + (seq![d] + pr.0));
                            }
                        }
                    },
                    None => {
                        proof {
                            assert(spec_skip_ws(s, p0) == p0);
                        }
                        return Err(self.error(msg_with_char("Invalid escape sequence: \\", c)));
                    },
                }
            } else if c == '\\' {
                escape = true;
            } else if c == '"' {
                proof {
                    assert(value@ + Seq::<char>::empty() =~= value@);
                    assert(spec_skip_ws(s, p0) == p0);
                }
                let text = chars_to_string(&value);
                let width = value.len() + 2;
                return Ok(self.make_token(TokenType::Str(text), width));
            } else {
                value.push(c);
                proof {
                    if spec_str_scan(s, self.index as int, false) is Ok {
                        let pr = spec_str_scan(s, self.index as int, false)->Ok_0;
                        assert(value@ + pr.0 =~= value@.drop_last() + (seq![c] + pr.0));
                    }
                }
            }
        }
    }

    /// Scans an identifier or keyword starting at the current position: see
    /// the identifier arm of [`spec_token_at`].
    fn get_ident(&mut self) -> (r: Result<Token, Error>)
        requires
            old(self).wf(),
            old(self).index < old(self).chars@.len(),
            is_ident_start(old(self).chars@[old(self).index as int]),
        ensures
            final(self).wf(),
            final(self).same_text(*old(self)),
            match spec_token_at(
                old(self).chars@,
                old(self).index as int,
                old(self).line as int,
                old(self).column as int,
            ) {
                Some(st) => {
                    &&& r is Ok
                    &&& r->Ok_0@ == mk_tok(st, old(self).filename@, spec_lines(old(self).source@))
                    &&& final(self).index == st.i2
                    &&& final(self).line == st.line2
                    &&& final(self).column == st.col2
                },
                None => r is Err,
            },
    {
        let ghost s = self.chars@;
        let ghost p0 = self.index as int;
        let mut ident: Vec<char> = Vec::new();

        loop
            invariant
                self.wf(),
                self.same_text(*old(self)),
                self.line == old(self).line,
                p0 == old(self).index,
                p0 <= self.index <= self.chars@.len(),
                s == self.chars@,
                self.column == old(self).column + (self.index - p0),
                ident@ =~= s.subrange(p0, self.index as int),
                spec_ident_end(s, p0) == spec_ident_end(s, self.index as int),
            ensures
                self.wf(),
                self.same_text(*old(self)),
                self.line == old(self).line,
                p0 <= self.index <= self.chars@.len(),
                s == self.chars@,
                self.column == old(self).column + (self.index - p0),
                ident@ =~= s.subrange(p0, self.index as int),
                spec_ident_end(s, p0) == self.index as int,
            decreases self.chars@.len() - self.index,
        {
            if self.index >= self.chars.len() {
                break ;
            }
            let c = self.chars[self.index];
            if (c >= 'a' && c <= 'z') || (c >= 'A' && c <= 'Z') || (c >= '0' && c <= '9') || c
                == '_' {
                ident.push(c);
                self.index = self.index + 1;
                self.column = self.column + 1;
                assert(ident@ =~= s.subrange(p0, self.index as int));
            } else {
                break ;
            }
        }

        proof {
            assert(spec_skip_ws(s, p0) == p0);
        }

        if !self.is_boundary() {
            let c = self.chars[self.index];
            return Err(self.error(msg_with_char("Unexpected character in identifier: ", c)));
        }

        let n = ident.len();
        if n == 2 && ident[0] == 'i' && ident[1] == 'f' {
            Ok(self.make_token(TokenType::If, 2))
        } else if n == 4 && ident[0] == 'g' && ident[1] == 'o' && ident[2] == 't' && ident[3]
            == 'o' {
            Ok(self.make_token(TokenType::Goto, 4))
        } else if n == 4 && ident[0] == 'c' && ident[1] == 'a' && ident[2] == 'l' && ident[3]
            == 'l' {
            Ok(self.make_token(TokenType::Call, 4))
        } else if n == 3 && ident[0] == 'r' && ident[1] == 'e' && ident[2] == 't' {
            Ok(self.make_token(TokenType::Ret, 3))
        } else if n == 4 && ident[0] == 't' && ident[1] == 'r' && ident[2] == 'u' && ident[3]
            == 'e' {
            Ok(self.make_token(TokenType::Bool(true), 4))
        } else if n == 5 && ident[0] == 'f' && ident[1] == 'a' && ident[2] == 'l' && ident[3]
            == 's' && ident[4] == 'e' {
            Ok(self.make_token(TokenType::Bool(false), 5))
        } else {
            let text = chars_to_string(&ident);
            Ok(self.make_token(TokenType::Identifier(text), n))
        }
    }

    /// Scans a single-character token at the current position. The caller
    /// has ruled out two-character operators, numbers, identifiers,
    /// comments, strings and the minus sign.
    fn get_single(&mut self) -> (r: Result<Token, Error>)
        requires
            old(self).wf(),
            old(self).index < old(self).chars@.len(),
            !is_ws_char(old(self).chars@[old(self).index as int]),
            old(self).chars@[old(self).index as int] != '-',
            old(self).chars@[old(self).index as int] != '#',
            old(self).chars@[old(self).index as int] != '"',
            !is_digit_char(old(self).chars@[old(self).index as int]),
            !is_ident_start(old(self).chars@[old(self).index as int]),
            !(old(self).index + 1 < old(self).chars@.len() && old(self).chars@[old(
                self,
            ).index + 1] == '=' && {
                let c = old(self).chars@[old(self).index as int];
                c == '=' || c == '>' || c == '<' || c == '!'
            }),
        ensures
            final(self).wf(),
            final(self).same_text(*old(self)),
            match spec_token_at(
                old(self).chars@,
                old(self).index as int,
                old(self).line as int,
                old(self).column as int,
            ) {
                Some(st) => {
                    &&& r is Ok
                    &&& r->Ok_0@ == mk_tok(st, old(self).filename@, spec_lines(old(self).source@))
                    &&& final(self).index == st.i2
                    &&& final(self).line == st.line2
                    &&& final(self).column == st.col2
                },
                None => r is Err,
            },
    {
        proof {
            assert(spec_skip_ws(self.chars@, self.index as int) == self.index as int);
        }
        let c = self.chars[self.index];
        self.index = self.index + 1;
        self.column = self.column + 1;

        if c == '+' {
            Ok(self.make_token(TokenType::Plus, 1))
        } else if c == '*' {
            Ok(self.make_token(TokenType::Star, 1))
        } else if c == '/' {
            Ok(self.make_token(TokenType::Slash, 1))
        } else if c == '%' {
            Ok(self.make_token(TokenType::Percent, 1))
        } else if c == '=' {
            Ok(self.make_token(TokenType::Equals, 1))
        } else if c == '<' {
            Ok(self.make_token(TokenType::Less, 1))
        } else if c == '>' {
            Ok(self.make_token(TokenType::Greater, 1))
        } else if c == '@' {
            Ok(self.make_token(TokenType::At, 1))
        } else if c == '~' {
            Ok(self.make_token(TokenType::Tilde, 1))
        } else if c == ':' {
            Ok(self.make_token(TokenType::Colon, 1))
        } else if c == ';' {
            Ok(self.make_token(TokenType::EOS, 1))
        } else if c == '\n' {
            self.line = self.line + 1;
            self.column = 1;
            Ok(self.make_token(TokenType::EOS, 1))
        } else {
            Err(self.error(msg_with_char("Unexpected character: ", c)))
        }
    }

    /// Scans a two-character operator if one starts here, or defers to
    /// [`Lexer::get_single`].
    fn get_multi(&mut self) -> (r: Result<Token, Error>)
        requires
            old(self).wf(),
            old(self).index < old(self).chars@.len(),
            !is_ws_char(old(self).chars@[old(self).index as int]),
            old(self).chars@[old(self).index as int] != '-',
            old(self).chars@[old(self).index as int] != '#',
            old(self).chars@[old(self).index as int] != '"',
            !is_digit_char(old(self).chars@[old(self).index as int]),
            !is_ident_start(old(self).chars@[old(self).index as int]),
        ensures
            final(self).wf(),
            final(self).same_text(*old(self)),
            match spec_token_at(
                old(self).chars@,
                old(self).index as int,
                old(self).line as int,
                old(self).column as int,
            ) {
                Some(st) => {
                    &&& r is Ok
                    &&& r->Ok_0@ == mk_tok(st, old(self).filename@, spec_lines(old(self).source@))
                    &&& final(self).index == st.i2
                    &&& final(self).line == st.line2
                    &&& final(self).column == st.col2
                },
                None => r is Err,
            },
    {
        proof {
            assert(spec_skip_ws(self.chars@, self.index as int) == self.index as int);
        }
        let c = self.chars[self.index];
        let two = self.index + 1 < self.chars.len() && self.chars[self.index + 1] == '=';

        if two && c == '=' {
            self.index = self.index + 2;
            self.column = self.column + 2;
            Ok(self.make_token(TokenType::EqualsEquals, 2))
        } else if two && c == '>' {
            self.index = self.index + 2;
            self.column = self.column + 2;
            Ok(self.make_token(TokenType::GreaterEquals, 2))
        } else if two && c == '<' {
            self.index = self.index + 2;
            self.column = self.column + 2;
            Ok(self.make_token(TokenType::LessEquals, 2))
        } else if two && c == '!' {
            self.index = self.index + 2;
            self.column = self.column + 2;
            Ok(self.make_token(TokenType::BangEquals, 2))
        } else {
            self.get_single()
        }
    }

    /// Scans the next token, skipping whitespace and comments: see
    /// [`spec_token_at`]. At the end of the text the token is `EOF`.
    pub fn get_token(&mut self) -> (r: Result<Token, Error>)
        requires
            old(self).wf(),
        ensures
            final(self).wf(),
            final(self).same_text(*old(self)),
            match spec_token_at(
                old(self).chars@,
                old(self).index as int,
                old(self).line as int,
                old(self).column as int,
            ) {
                Some(st) => {
                    &&& r is Ok
                    &&& r->Ok_0@ == mk_tok(st, old(self).filename@, spec_lines(old(self).source@))
                    &&& final(self).index == st.i2
                    &&& final(self).line == st.line2
                    &&& final(self).column == st.col2
                },
                None => r is Err,
            },
        decreases old(self).chars@.len() - old(self).index,
    {
        let ghost s = self.chars@;
        proof {
            lemma_skip_ws(s, self.index as int);
        }
        self.skip_whitespace();

        if self.index >= self.chars.len() {
            return Ok(self.make_token(TokenType::EOF, 0));
        }

        let c = self.chars[self.index];

        if c == '-' {
            let next_digit = self.index + 1 < self.chars.len() && {
                let d = self.chars[self.index + 1];
                d >= '0' && d <= '9'
            };
            if next_digit {
                self.index = self.index + 1;
                self.column = self.column + 1;
                let ghost pre = *self;
                let token = self.get_number()?;
                let ghost stn = spec_number(s, pre.index as int, pre.line as int, pre.column as int)->Some_0;
                let mut token = token;
                match token.token_type {
                    TokenType::Int(i) => {
                        proof {
                            lemma_num_scan(s, pre.index as int, false);
                            let (end, isf) = spec_num_scan(s, pre.index as int, false)->Ok_0;
                            let text = s.subrange(pre.index as int, end);
                            crate::strutil::lemma_digits_val_nonneg(text);
                        }
                        token.token_type = TokenType::Int(-i);
                    },
                    TokenType::Float(b) => {
                        token.token_type = TokenType::Float(b ^ 0x8000_0000_0000_0000u64);
                    },
                    _ => {},
                }
                return Ok(token);
            }
            self.index = self.index + 1;
            self.column = self.column + 1;
            return Ok(self.make_token(TokenType::Minus, 1));
        }

        if c == '+' || c == '*' || c == '/' || c == '%' || c == '!' || c == '=' || c == '<' || c
            == '>' || c == '@' || c == '~' || c == ':' || c == ';' || c == '\n' {
            return self.get_multi();
        }

        if c >= '0' && c <= '9' {
            return self.get_number();
        }

        if (c >= 'a' && c <= 'z') || (c >= 'A' && c <= 'Z') || c == '_' {
            return self.get_ident();
        }

        if c == '#' {
            let ghost i0 = self.index as int;
            self.index = self.index + 1;
            self.column = self.column + 1;
            loop
                invariant
                    self.wf(),
                    self.same_text(*old(self)),
                    self.line == old(self).line,
                    s == self.chars@,
                    i0 < self.index <= self.chars@.len(),
                    self.column == old(self).column + (self.index - old(self).index),
                    spec_skip_comment(s, i0 + 1) == spec_skip_comment(s, self.index as int),
                ensures
                    self.wf(),
                    self.same_text(*old(self)),
                    self.line == old(self).line,
                    s == self.chars@,
                    i0 < self.index <= self.chars@.len(),
                    self.column == old(self).column + (self.index - old(self).index),
                    spec_skip_comment(s, i0 + 1) == self.index as int,
                decreases self.chars@.len() - self.index,
            {
                if self.index >= self.chars.len() {
                    break ;
                }
                if self.chars[self.index] == '\n' {
                    break ;
                }
                self.index = self.index + 1;
                self.column = self.column + 1;
            }
            return self.get_token();
        }

        if c == '"' {
            return self.get_string();
        }

        Err(self.error(msg_with_char("Unexpected character: ", c)))
    }
}

// ---------------------------------------------------------------------------
// Import splicing and the full tokenising pipeline
// ---------------------------------------------------------------------------

/// The sources that `import` directives may name: file names mapped to file
/// contents. The lexer resolves imports against this set, so the whole
/// pipeline is a function of the main source and this set alone.
pub struct FileSet {
    pub map: StringHashMap<String>,
}

impl View for FileSet {
    type V = Map<Seq<char>, String>;

    open spec fn view(&self) -> Map<Seq<char>, String> {
        self.map@
    }
}

impl FileSet {
    /// An empty set of importable sources.
    pub fn new() -> (r: FileSet)
        ensures
            r@ == Map::<Seq<char>, String>::empty(),
    {
        FileSet { map: StringHashMap::new() }
    }

    /// Adds (or replaces) a file's content under its name.
    pub fn insert(&mut self, name: String, content: String)
        ensures
            final(self)@ == old(self)@.insert(name@, content),
    {
        self.map.insert(name, content);
    }

    /// The number of files in the set.
    pub fn len(&self) -> (n: usize)
        ensures
            n == self@.len(),
    {
        self.map.len()
    }
}

/// Index of the first end-of-statement token in `ts`, or `ts.len()` if there
/// is none.
pub open spec fn spec_first_eos(ts: Seq<TokenV>) -> int
    decreases ts.len(),
{
    if ts.len() == 0 {
        0
    } else if ts[0].token_type is EOS {
        0
    } else {
        1 + spec_first_eos(ts.skip(1))
    }
}

pub proof fn lemma_first_eos(ts: Seq<TokenV>)
    ensures
        0 <= spec_first_eos(ts) <= ts.len(),
        spec_first_eos(ts) < ts.len() ==> ts[spec_first_eos(ts)].token_type is EOS,
        forall|j: int| 0 <= j < spec_first_eos(ts) ==> !(ts[j].token_type is EOS),
    decreases ts.len(),
{
    if ts.len() > 0 && !(ts[0].token_type is EOS) {
        lemma_first_eos(ts.skip(1));
        assert forall|j: int| 0 <= j < spec_first_eos(ts) implies !(ts[j].token_type is EOS) by {
            if j >= 1 {
                assert(ts.skip(1)[j - 1] == ts[j]);
            }
        }
    }
}

/// Whether a token kind is the identifier `import`.
pub open spec fn is_import_name(k: TokenTypeV) -> bool {
    &&& k is Identifier
    &&& {
        let t = k->Identifier_0;
        t.len() == 6 && t[0] == 'i' && t[1] == 'm' && t[2] == 'p' && t[3] == 'o' && t[4] == 'r'
            && t[5] == 't'
    }
}

/// A statement run of exactly two tokens, the identifier `import` followed
/// by a string literal: the lexical form of an import directive.
pub open spec fn is_import_run(run: Seq<TokenV>) -> bool {
    run.len() == 2 && is_import_name(run[0].token_type) && run[1].token_type is Str
}

/// The zero-width end-of-statement token appended at the end of a file.
pub open spec fn eos_end(end: ScanEnd, file: Seq<char>) -> TokenV {
    TokenV {
        token_type: TokenTypeV::EOS,
        line: end.line,
        column: end.col,
        index: end.index,
        width: 0,
        file: file,
        context: Seq::empty(),
    }
}

/// `ts` with every consecutive run of end-of-statement tokens collapsed to
/// its first token; `prev_eos` says whether the token just before `ts` was
/// an EOS.
pub open spec fn spec_collapse(ts: Seq<TokenV>, prev_eos: bool) -> Seq<TokenV>
    decreases ts.len(),
{
    if ts.len() == 0 {
        Seq::empty()
    } else if ts[0].token_type is EOS && prev_eos {
        spec_collapse(ts.skip(1), true)
    } else {
        seq![ts[0]] + spec_collapse(ts.skip(1), ts[0].token_type is EOS)
    }
}

/// The spliced token sequence of the raw runs `ts`: each run of exactly
/// `import "name"` is replaced by the full token sequence of the named file
/// (recursively), every other run is kept with its end-of-statement token,
/// and a trailing run without an end-of-statement token is kept (the
/// zero-width token the pipeline appends terminates it). `None`
/// where an imported file is missing, fails to lex, or the import nesting
/// exceeds `fuel`.
pub open spec fn spec_splice(
    ts: Seq<TokenV>,
    files: Map<Seq<char>, String>,
    fuel: nat,
) -> Option<Seq<TokenV>>
    decreases fuel, 0int, ts.len(),
    via spec_splice_dec
{
    let k = spec_first_eos(ts);
    if k >= ts.len() {
        if is_import_run(ts) {
            let path = ts[1].token_type->Str_0;
            if fuel == 0 {
                None
            } else if !files.contains_key(path) {
                None
            } else {
                spec_tokenise_src(path, files[path]@, files, (fuel - 1) as nat)
            }
        } else {
            Some(ts)
        }
    } else {
        let run = ts.take(k);
        let eos = ts[k];
        let rest = ts.skip(k + 1);
        if is_import_run(run) {
            let name = run[0].token_type->Identifier_0;
            let path = run[1].token_type->Str_0;
            if fuel == 0 {
                None
            } else if !files.contains_key(path) {
                None
            } else {
                match spec_tokenise_src(path, files[path]@, files, (fuel - 1) as nat) {
                    None => None,
                    Some(sub) => match spec_splice(rest, files, fuel) {
                        None => None,
                        Some(r2) => Some(sub + r2),
                    },
                }
            }
        } else {
            match spec_splice(rest, files, fuel) {
                None => None,
                Some(r2) => Some(run + seq![eos] + r2),
            }
        }
    }
}

#[via_fn]
proof fn spec_splice_dec(ts: Seq<TokenV>, files: Map<Seq<char>, String>, fuel: nat) {
    lemma_first_eos(ts);
}

/// Splicing distributes over concatenation at a statement boundary: where
/// `aa` ends with an end-of-statement token (or is empty), splicing
/// `aa + bb` splices each part on its own and concatenates the results,
/// failing exactly when either part fails.
pub proof fn lemma_splice_append(
    aa: Seq<TokenV>,
    bb: Seq<TokenV>,
    files: Map<Seq<char>, String>,
    fuel: nat,
)
    requires
        aa.len() == 0 || aa.last().token_type is EOS,
    ensures
        spec_splice(aa + bb, files, fuel) == (match (
            spec_splice(aa, files, fuel),
            spec_splice(bb, files, fuel),
        ) {
            (Some(a2), Some(b2)) => Some(a2 + b2),
            _ => None::<Seq<TokenV>>,
        }),
    decreases aa.len(),
{
    if aa.len() == 0 {
        assert(aa + bb =~= bb);
        assert(spec_first_eos(aa) == 0);
        assert(!is_import_run(aa));
        assert(spec_splice(aa, files, fuel) == Some(Seq::<TokenV>::empty()));
        if spec_splice(bb, files, fuel) is Some {
            let b2 = spec_splice(bb, files, fuel)->Some_0;
            assert(Seq::<TokenV>::empty() + b2 =~= b2);
        }
    } else {
        lemma_first_eos(aa);
        lemma_first_eos(aa + bb);
        let k = spec_first_eos(aa);
        assert(k < aa.len()) by {
            if k == aa.len() {
                assert(aa[aa.len() - 1].token_type is EOS);
            }
        }
        let kc = spec_first_eos(aa + bb);
        assert(kc == k) by {
            if kc < k {
                assert((aa + bb)[kc] == aa[kc]);
                assert(aa[kc].token_type is EOS);
            }
            if kc > k {
                assert((aa + bb)[k] == aa[k]);
                assert(!((aa + bb)[k].token_type is EOS));
            }
        }
        let run = aa.take(k);
        assert((aa + bb).take(k) =~= run);
        let rest_a = aa.skip(k + 1);
        assert((aa + bb).skip(k + 1) =~= rest_a + bb);
        assert((aa + bb)[k] == aa[k]);
        assert(rest_a.len() == 0 || rest_a.last().token_type is EOS) by {
            if rest_a.len() > 0 {
                assert(rest_a.last() == aa.last());
            }
        }
        lemma_splice_append(rest_a, bb, files, fuel);
        if is_import_run(run) {
            let path = run[1].token_type->Str_0;
            if fuel > 0 && files.contains_key(path) {
                match spec_tokenise_src(path, files[path]@, files, (fuel - 1) as nat) {
                    None => {},
                    Some(sub) => {
                        if spec_splice(rest_a, files, fuel) is Some && spec_splice(
                            bb,
                            files,
                            fuel,
                        ) is Some {
                            let ra2 = spec_splice(rest_a, files, fuel)->Some_0;
                            let b2 = spec_splice(bb, files, fuel)->Some_0;
                            assert(sub + (ra2 + b2) =~= (sub + ra2) + b2);
                        }
                    },
                }
            }
        } else {
            if spec_splice(rest_a, files, fuel) is Some && spec_splice(bb, files, fuel) is Some {
                let ra2 = spec_splice(rest_a, files, fuel)->Some_0;
                let b2 = spec_splice(bb, files, fuel)->Some_0;
                assert(run + seq![aa[k]] + (ra2 + b2) =~= (run + seq![aa[k]] + ra2) + b2);
            }
        }
    }
}

/// The full token sequence of one source text named `file`: the raw scan,
/// import splicing against `files` with nesting depth at most `fuel`, a
/// final zero-width end-of-statement token, and a last collapse of repeated
/// end-of-statement tokens. `None` where the text or an imported file is
/// not lexically valid, an import cannot be resolved, or the text is too
/// large for the scanner's counters.
pub open spec fn spec_tokenise_src(
    file: Seq<char>,
    src: Seq<char>,
    files: Map<Seq<char>, String>,
    fuel: nat,
) -> Option<Seq<TokenV>>
    decreases fuel, 1int, 0int,
{
    if src.len() >= usize::MAX {
        None
    } else {
        match spec_raw(src, file, spec_lines(src), 0, 1, 1, false) {
            None => None,
            Some(pr) => match spec_splice(pr.0, files, fuel) {
                None => None,
                Some(spliced) => Some(
                    spec_collapse(spliced + seq![eos_end(pr.1, file)], false),
                ),
            },
        }
    }
}

impl Lexer {
    /// Whether this token is the identifier `import`.
    fn is_import_ident(t: &Token) -> (r: bool)
        ensures
            r == is_import_name(t@.token_type),
    {
        match &t.token_type {
            TokenType::Identifier(n) => {
                let v = str_to_chars(n.as_str());
                v.len() == 6 && v[0] == 'i' && v[1] == 'm' && v[2] == 'p' && v[3] == 'o' && v[4]
                    == 'r' && v[5] == 't'
            },
            _ => false,
        }
    }

    /// Tokenises the whole source: the raw scan, import splicing against
    /// `files`, a final end-of-statement token, and a last collapse of
    /// repeated end-of-statement tokens. The result is exactly
    /// [`spec_tokenise_src`] of the file name, the source text and the file
    /// set; an error is returned precisely when that function has no result.
    pub fn tokenise(&mut self, files: &FileSet) -> (r: Result<Vec<Token>, Error>)
        requires
            old(self).wf(),
            old(self).index == 0,
            old(self).line == 1,
            old(self).column == 1,
        ensures
            match spec_tokenise_src(
                old(self).filename@,
                old(self).source@,
                files@,
                files@.len(),
            ) {
                Some(ts) => r is Ok && r->Ok_0.deep_view() == ts,
                None => r is Err,
            },
    {
        let fuel = files.len();
        self.tokenise_fueled(files, fuel)
    }

    /// The pipeline of [`Lexer::tokenise`] with an explicit bound on import
    /// nesting.
    fn tokenise_fueled(&mut self, files: &FileSet, fuel: usize) -> (r: Result<Vec<Token>, Error>)
        requires
            old(self).wf(),
            old(self).index == 0,
            old(self).line == 1,
            old(self).column == 1,
        ensures
            match spec_tokenise_src(
                old(self).filename@,
                old(self).source@,
                files@,
                fuel as nat,
            ) {
                Some(ts) => r is Ok && r->Ok_0.deep_view() == ts,
                None => r is Err,
            },
        decreases fuel,
    {
        let ghost s = self.chars@;
        let ghost fileV = self.filename@;
        let ghost linesV = spec_lines(self.source@);
        let ghost spec0 = spec_raw(s, fileV, linesV, 0, 1, 1, false);
        let ghost full = spec_tokenise_src(fileV, self.source@, files@, fuel as nat);

        // Phase 1: the raw scan, collapsing repeated EOS tokens as we go.
        let mut tokens: Vec<Token> = Vec::new();
        let mut prev_eos = false;
        proof {
            assert(tokens.deep_view() =~= Seq::<TokenV>::empty());
            if spec0 is Some {
                assert(Seq::<TokenV>::empty() + spec0->Some_0.0 =~= spec0->Some_0.0);
            }
        }
        loop
            invariant_except_break
                ({
                    let cur = spec_raw(
                        s,
                        fileV,
                        linesV,
                        self.index as int,
                        self.line as int,
                        self.column as int,
                        prev_eos,
                    );
                    &&& (spec0 is Some) == (cur is Some)
                    &&& (cur is Some ==> spec0->Some_0.0 == tokens.deep_view()
                        + cur->Some_0.0 && spec0->Some_0.1 == cur->Some_0.1)
                }),
            invariant
                self.wf(),
                self.same_text(*old(self)),
                s == self.chars@,
                fileV == self.filename@,
                linesV == spec_lines(self.source@),
                spec0 == spec_raw(s, fileV, linesV, 0, 1, 1, false),
                full == spec_tokenise_src(fileV, s, files@, fuel as nat),
            ensures
                self.wf(),
                self.same_text(*old(self)),
                s == self.chars@,
                spec0 is Some,
                spec0->Some_0.0 == tokens.deep_view(),
                spec0->Some_0.1.line == self.line,
                spec0->Some_0.1.col == self.column,
                spec0->Some_0.1.index == self.index,
            decreases self.chars@.len() - self.index,
        {
            let ghost pi = self.index as int;
            let ghost pl = self.line as int;
            let ghost pc = self.column as int;
            let ghost ppe = prev_eos;
            let ghost cur0 = spec_raw(s, fileV, linesV, pi, pl, pc, ppe);
            proof {
                lemma_token_at_advances(s, pi, pl, pc);
            }
            let t = match self.get_token() {
                Ok(t) => t,
                Err(e) => {
                    proof {
                        assert(spec_token_at(s, pi, pl, pc) is None);
                        assert(cur0 is None);
                        assert(spec0 is None);
                        assert(full is None);
                    }
                    return Err(e);
                },
            };
            let ghost st = spec_token_at(s, pi, pl, pc)->Some_0;
            if matches!(t.token_type, TokenType::EOF) {
                proof {
                    assert(t@ == mk_tok(st, fileV, linesV));
                    assert(st.kind is EOF);
                    assert(cur0 is Some);
                    assert(cur0->Some_0.0 =~= Seq::<TokenV>::empty());
                    assert(tokens.deep_view() + Seq::<TokenV>::empty() =~= tokens.deep_view());
                    assert(spec0->Some_0.0 == tokens.deep_view());
                    assert(cur0->Some_0.1.line == st.line2);
                    assert(self.line == st.line2 && self.column == st.col2 && self.index
                        == st.i2);
                }
                break ;
            }
            let is_eos = matches!(t.token_type, TokenType::EOS);
            proof {
                assert(t@ == mk_tok(st, fileV, linesV));
                assert(is_eos == (st.kind is EOS));
                assert(!(st.kind is EOF));
            }
            if prev_eos && is_eos {
                proof {
                    assert(cur0 == spec_raw(
                        s,
                        fileV,
                        linesV,
                        self.index as int,
                        self.line as int,
                        self.column as int,
                        true,
                    ));
                }
                // collapse during the scan: drop this EOS
            } else {
                let ghost pre = tokens.deep_view();
                let ghost cur_next = spec_raw(
                    s,
                    fileV,
                    linesV,
                    self.index as int,
                    self.line as int,
                    self.column as int,
                    is_eos,
                );
                proof {
                    assert(cur0 == (match cur_next {
                        None => None::<(Seq<TokenV>, ScanEnd)>,
                        Some(pr) => Some((seq![mk_tok(st, fileV, linesV)] + pr.0, pr.1)),
                    }));
                    if cur_next is Some {
                        assert(cur0->Some_0.0 == seq![t@] + cur_next->Some_0.0);
                        assert(pre.push(t@) + cur_next->Some_0.0 =~= pre + (seq![t@]
                            + cur_next->Some_0.0));
                    }
                }
                tokens.push(t);
                proof {
                    assert(tokens.deep_view() =~= pre.push(tokens@[tokens@.len() - 1]@));
                }
                prev_eos = is_eos;
            }
        }

        // Phase 2: import splicing over statement runs.
        let ghost rawV = tokens.deep_view();
        let ghost sp = spec_splice(rawV, files@, fuel as nat);
        let mut out: Vec<Token> = Vec::new();
        let mut q: usize = 0;
        proof {
            assert(rawV.skip(0) =~= rawV);
            assert(out.deep_view() =~= Seq::<TokenV>::empty());
            if sp is Some {
                assert(Seq::<TokenV>::empty() + sp->Some_0 =~= sp->Some_0);
            }
        }
        loop
            invariant_except_break
                ({
                    let curs = spec_splice(rawV.skip(q as int), files@, fuel as nat);
                    &&& (sp is Some) == (curs is Some)
                    &&& (curs is Some ==> sp->Some_0 == out.deep_view() + curs->Some_0)
                }),
            invariant
                q <= tokens@.len(),
                rawV == tokens.deep_view(),
                sp == spec_splice(rawV, files@, fuel as nat),
                fileV == self.filename@,
                s == self.chars@,
                self.wf(),
                self.same_text(*old(self)),
                full == spec_tokenise_src(fileV, s, files@, fuel as nat),
                linesV == spec_lines(s),
                spec0 == spec_raw(s, fileV, linesV, 0, 1, 1, false),
                spec0 is Some,
                spec0->Some_0.0 == rawV,
            ensures
                sp is Some,
                sp->Some_0 == out.deep_view(),
            decreases tokens@.len() - q,
        {
            let ghost sub = rawV.skip(q as int);
            // find the end of the current run
            let mut j = q;
            loop
                invariant
                    q <= j <= tokens@.len(),
                    rawV == tokens.deep_view(),
                    forall|x: int| q <= x < j ==> !((#[trigger] rawV[x]).token_type is EOS),
                ensures
                    q <= j <= tokens@.len(),
                    forall|x: int| q <= x < j ==> !((#[trigger] rawV[x]).token_type is EOS),
                    j < tokens@.len() ==> rawV[j as int].token_type is EOS,
                decreases tokens@.len() - j,
            {
                if j >= tokens.len() {
                    break ;
                }
                if matches!(tokens[j].token_type, TokenType::EOS) {
                    proof {
                        assert(rawV[j as int] == tokens@[j as int]@);
                    }
                    break ;
                }
                proof {
                    assert(rawV[j as int] == tokens@[j as int]@);
                }
                j = j + 1;
            }
            proof {
                lemma_first_eos(sub);
                let k = spec_first_eos(sub);
                assert forall|x: int| 0 <= x < j - q implies sub[x] == rawV[q + x] by {}
                if k < j - q {
                    assert(sub[k].token_type is EOS);
                    assert(sub[k] == rawV[q + k]);
                    assert(false);
                }
                if j < tokens@.len() && k > j - q {
                    assert(sub[j - q] == rawV[j as int]);
                    assert(!(sub[j - q].token_type is EOS));
                    assert(false);
                }
            }
            if j >= tokens.len() {
                // a trailing run without an end-of-statement token: spliced
                // if it is an import directive, otherwise kept as it stands
                proof {
                    assert(spec_first_eos(sub) == sub.len());
                    assert(sub =~= rawV.skip(q as int));
                }
                let trailing_import = j - q == 2 && Lexer::is_import_ident(&tokens[q])
                    && tokens[q + 1].is_string();
                proof {
                    assert(sub.len() == j - q);
                    if j - q == 2 {
                        assert(sub[0] == rawV[q as int]);
                        assert(sub[1] == rawV[q + 1]);
                        assert(tokens@[q as int]@ == rawV[q as int]);
                        assert(tokens@[q + 1]@ == rawV[q + 1]);
                    }
                    assert(trailing_import == is_import_run(sub));
                }
                if trailing_import {
                    let path: String = match &tokens[q + 1].token_type {
                        TokenType::Str(p) => p.clone(),
                        _ => {
                            proof {
                                assert(false);
                            }
                            String::new()
                        },
                    };
                    proof {
                        assert(path@ == sub[1].token_type->Str_0);
                    }
                    if fuel == 0 {
                        proof {
                            assert(spec_splice(sub, files@, fuel as nat) is None);
                            assert(sp is None);
                            assert(full is None);
                        }
                        let m = msg_concat("Failed to import file '", path.as_str());
                        return Err(self.error(msg_concat(m.as_str(), "'")));
                    }
                    let content = match files.map.get(path.as_str()) {
                        Some(c) => c.clone(),
                        None => {
                            proof {
                                assert(!files@.contains_key(path@));
                                assert(spec_splice(sub, files@, fuel as nat) is None);
                                assert(sp is None);
                                assert(full is None);
                            }
                            let m = msg_concat("Failed to import file '", path.as_str());
                            return Err(self.error(msg_concat(m.as_str(), "'")));
                        },
                    };
                    let cchars = str_to_chars(content.as_str());
                    if cchars.len() == usize::MAX {
                        proof {
                            assert(content@.len() >= usize::MAX);
                            assert(spec_tokenise_src(
                                path@,
                                files@[path@]@,
                                files@,
                                (fuel - 1) as nat,
                            ) is None);
                            assert(spec_splice(sub, files@, fuel as nat) is None);
                            assert(sp is None);
                            assert(full is None);
                        }
                        let m = msg_concat("Failed to import file '", path.as_str());
                        return Err(self.error(msg_concat(m.as_str(), "'")));
                    }
                    let mut sub_lexer = Lexer::new(path.clone(), content);
                    let sub_tokens = match sub_lexer.tokenise_fueled(files, fuel - 1) {
                        Ok(v) => v,
                        Err(e) => {
                            proof {
                                assert(spec_tokenise_src(
                                    path@,
                                    files@[path@]@,
                                    files@,
                                    (fuel - 1) as nat,
                                ) is None);
                                assert(spec_splice(sub, files@, fuel as nat) is None);
                                assert(sp is None);
                                assert(full is None);
                            }
                            return Err(e);
                        },
                    };
                    let ghost subV = sub_tokens.deep_view();
                    let ghost pre_out = out.deep_view();
                    let mut x: usize = 0;
                    while x < sub_tokens.len()
                        invariant
                            x <= sub_tokens@.len(),
                            subV == sub_tokens.deep_view(),
                            out.deep_view() =~= pre_out + subV.take(x as int),
                        decreases sub_tokens@.len() - x,
                    {
                        let ghost pp = out.deep_view();
                        out.push(sub_tokens[x].dup());
                        x = x + 1;
                        proof {
                            assert(out.deep_view() =~= pp.push(subV[x - 1]));
                            assert(pp.push(subV[x - 1]) =~= pre_out + subV.take(x as int));
                        }
                    }
                    proof {
                        assert(subV.take(sub_tokens@.len() as int) =~= subV);
                        assert(out.deep_view() =~= pre_out + subV);
                        assert(spec_splice(sub, files@, fuel as nat) == Some(subV));
                    }
                } else {
                    let ghost pre_out = out.deep_view();
                    let n3 = tokens.len();
                    let mut x: usize = q;
                    while x < n3
                        invariant
                            q <= x <= n3,
                            n3 == tokens@.len(),
                            rawV == tokens.deep_view(),
                            out.deep_view() =~= pre_out + rawV.subrange(q as int, x as int),
                        decreases n3 - x,
                    {
                        let ghost pp = out.deep_view();
                        out.push(tokens[x].dup());
                        x = x + 1;
                        proof {
                            assert(out.deep_view() =~= pp.push(rawV[x - 1]));
                            assert(pp.push(rawV[x - 1]) =~= pre_out + rawV.subrange(
                                q as int,
                                x as int,
                            ));
                        }
                    }
                    proof {
                        assert(rawV.subrange(q as int, n3 as int) =~= sub);
                        assert(out.deep_view() =~= pre_out + sub);
                        assert(spec_splice(sub, files@, fuel as nat) == Some(sub));
                    }
                }
                break ;
            }
            let ghost k = spec_first_eos(sub);
            let ghost run = sub.take(k);
            let ghost rest = sub.skip(k + 1);
            proof {
                assert(k == j - q);
                assert(rest =~= rawV.skip(j + 1));
                if run.len() == 2 {
                    assert(run[0] == rawV[q as int]);
                    assert(run[1] == rawV[q + 1]);
                }
            }
            let is_import = j - q == 2 && Lexer::is_import_ident(&tokens[q])
                && tokens[q + 1].is_string();
            proof {
                assert(tokens@[q as int]@ == rawV[q as int]);
                if q + 1 < tokens@.len() {
                    assert(tokens@[q + 1]@ == rawV[q + 1]);
                }
                assert(is_import == is_import_run(run));
            }
            if is_import {
                let path: String = match &tokens[q + 1].token_type {
                    TokenType::Str(p) => p.clone(),
                    _ => {
                        proof {
                            assert(false);
                        }
                        String::new()
                    },
                };
                proof {
                    assert(path@ == run[1].token_type->Str_0);
                }
                if fuel == 0 {
                    proof {
                        assert(spec_splice(sub, files@, fuel as nat) is None);
                        assert(sp is None);
                        assert(full is None);
                    }
                    let m = msg_concat("Failed to import file '", path.as_str());
                    return Err(self.error(msg_concat(m.as_str(), "'")));
                }
                let content = match files.map.get(path.as_str()) {
                    Some(c) => c.clone(),
                    None => {
                        proof {
                            assert(!files@.contains_key(path@));
                            assert(spec_splice(sub, files@, fuel as nat) is None);
                            assert(sp is None);
                            assert(full is None);
                        }
                        let m = msg_concat("Failed to import file '", path.as_str());
                        return Err(self.error(msg_concat(m.as_str(), "'")));
                    },
                };
                let cchars = str_to_chars(content.as_str());
                if cchars.len() == usize::MAX {
                    proof {
                        assert(content@.len() >= usize::MAX);
                        assert(spec_tokenise_src(
                            path@,
                            files@[path@]@,
                            files@,
                            (fuel - 1) as nat,
                        ) is None);
                        assert(spec_splice(sub, files@, fuel as nat) is None);
                        assert(sp is None);
                        assert(full is None);
                    }
                    let m = msg_concat("Failed to import file '", path.as_str());
                    return Err(self.error(msg_concat(m.as_str(), "'")));
                }
                let mut sub_lexer = Lexer::new(path.clone(), content);
                let sub_tokens = match sub_lexer.tokenise_fueled(files, fuel - 1) {
                    Ok(v) => v,
                    Err(e) => {
                        proof {
                            assert(spec_tokenise_src(
                                path@,
                                files@[path@]@,
                                files@,
                                (fuel - 1) as nat,
                            ) is None);
                            assert(spec_splice(sub, files@, fuel as nat) is None);
                            assert(sp is None);
                            assert(full is None);
                        }
                        return Err(e);
                    },
                };
                let ghost subV = sub_tokens.deep_view();
                let ghost pre_out = out.deep_view();
                // append the imported file's tokens
                let mut x: usize = 0;
                while x < sub_tokens.len()
                    invariant
                        x <= sub_tokens@.len(),
                        subV == sub_tokens.deep_view(),
                        out.deep_view() =~= pre_out + subV.take(x as int),
                    decreases sub_tokens@.len() - x,
                {
                    let ghost pp = out.deep_view();
                    out.push(sub_tokens[x].dup());
                    x = x + 1;
                    proof {
                        assert(out.deep_view() =~= pp.push(subV[x - 1]));
                        assert(pp.push(subV[x - 1]) =~= pre_out + subV.take(x as int));
                    }
                }
                proof {
                    assert(subV.take(sub_tokens@.len() as int) =~= subV);
                    assert(out.deep_view() =~= pre_out + subV);
                    if spec_splice(rest, files@, fuel as nat) is Some {
                        let r2 = spec_splice(rest, files@, fuel as nat)->Some_0;
                        assert((pre_out + subV) + r2 =~= pre_out + (subV + r2));
                    }
                }
                q = j + 1;
            } else {
                let ghost pre_out = out.deep_view();
                let mut x: usize = q;
                while x < j + 1
                    invariant
                        q <= x <= j + 1,
                        j < tokens@.len(),
                        rawV == tokens.deep_view(),
                        out.deep_view() =~= pre_out + rawV.subrange(q as int, x as int),
                    decreases j + 1 - x,
                {
                    let ghost pp = out.deep_view();
                    out.push(tokens[x].dup());
                    x = x + 1;
                    proof {
                        assert(out.deep_view() =~= pp.push(rawV[x - 1]));
                        assert(pp.push(rawV[x - 1]) =~= pre_out + rawV.subrange(
                            q as int,
                            x as int,
                        ));
                    }
                }
                proof {
                    assert(rawV.subrange(q as int, j + 1) =~= run + seq![sub[k]]);
                    assert(out.deep_view() =~= pre_out + (run + seq![sub[k]]));
                    if spec_splice(rest, files@, fuel as nat) is Some {
                        let r2 = spec_splice(rest, files@, fuel as nat)->Some_0;
                        assert((pre_out + (run + seq![sub[k]])) + r2 =~= pre_out + ((run
                            + seq![sub[k]]) + r2));
                    }
                }
                q = j + 1;
            }
        }

        // Phase 3: the final end-of-statement token and the last collapse.
        let final_eos = Token::new(
            TokenType::EOS,
            self.line,
            self.column,
            self.index,
            0,
            self.filename.clone(),
            String::new(),
        );
        let ghost pre_out = out.deep_view();
        out.push(final_eos);
        proof {
            assert(out.deep_view() =~= pre_out.push(out@[out@.len() - 1]@));
            assert(out@[out@.len() - 1]@.context =~= Seq::<char>::empty());
            assert(out@[out@.len() - 1]@ == eos_end(spec0->Some_0.1, fileV));
            assert(out.deep_view() =~= sp->Some_0 + seq![eos_end(spec0->Some_0.1, fileV)]);
        }
        let ghost outV = out.deep_view();

        let mut result: Vec<Token> = Vec::new();
        let mut skip_eos = false;
        let mut i: usize = 0;
        proof {
            assert(outV.skip(0) =~= outV);
            assert(result.deep_view() =~= Seq::<TokenV>::empty());
            assert(Seq::<TokenV>::empty() + spec_collapse(outV, false) =~= spec_collapse(
                outV,
                false,
            ));
        }
        loop
            invariant
                i <= out@.len(),
                outV == out.deep_view(),
                spec_collapse(outV, false) == result.deep_view() + spec_collapse(
                    outV.skip(i as int),
                    skip_eos,
                ),
            ensures
                spec_collapse(outV, false) == result.deep_view(),
            decreases out@.len() - i,
        {
            if i >= out.len() {
                proof {
                    assert(outV.skip(i as int) =~= Seq::<TokenV>::empty());
                    assert(result.deep_view() + Seq::<TokenV>::empty() =~= result.deep_view());
                }
                break ;
            }
            let ghost tail = outV.skip(i as int);
            proof {
                assert(tail[0] == outV[i as int]);
                assert(tail.skip(1) =~= outV.skip(i + 1));
                assert(outV[i as int] == out@[i as int]@);
            }
            let e = matches!(out[i].token_type, TokenType::EOS);
            if e && skip_eos {
                // a repeated end-of-statement token is dropped
            } else {
                let ghost pre = result.deep_view();
                result.push(out[i].dup());
                proof {
                    assert(result.deep_view() =~= pre.push(outV[i as int]));
                    assert(pre.push(outV[i as int]) =~= pre + seq![outV[i as int]]);
                }
                skip_eos = e;
            }
            i = i + 1;
        }
        proof {
            assert(full is Some);
            assert(full->Some_0 == result.deep_view());
        }
        Ok(result)
    }
}

} // verus!
