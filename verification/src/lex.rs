//! Lexical scanner: turns raw source text into an ordered sequence of
//! positioned tokens, or fails with a positioned [`LexError`] at the first
//! character outside the token grammar.
//!
//! The only token form in this minimal language is a run of decimal digits,
//! so a successful scan of a non-empty input is exactly one `Int` token
//! spanning the whole text; any non-digit character is an immediate failure.
//!
//! Position policy: the absolute offset and the column both advance by one on
//! every consumed character, the line advances on each newline, and the
//! column is deliberately never reset at a line break (it counts consumed
//! characters, monotonically). The offset and the column therefore always
//! agree.

use vstd::prelude::*;
use vstd::string::{StrSliceExecFns, StringExecFns};

verus! {

/// A decimal digit, `'0'` through `'9'` (code points 48 through 57).
pub open spec fn is_digit_char(c: char) -> bool {
    48 <= c as int && c as int <= 57
}

/// Every character of `s` is a decimal digit.
pub open spec fn all_digits(s: Seq<char>) -> bool {
    forall|i: int| 0 <= i < s.len() ==> is_digit_char(#[trigger] s[i])
}

/// Number of newline characters among the first `n` characters of `s`:
/// the line a cursor is on after consuming them.
pub open spec fn line_count(s: Seq<char>, n: int) -> int
    decreases n,
{
    if n <= 0 {
        0
    } else {
        line_count(s, n - 1) + if s[n - 1] == '\n' {
            1int
        } else {
            0int
        }
    }
}

/// A cursor can be on at most as many lines down as it has consumed characters.
pub proof fn lemma_line_count_bound(s: Seq<char>, n: int)
    requires
        0 <= n,
    ensures
        0 <= line_count(s, n) <= n,
    decreases n,
{
    if n > 0 {
        lemma_line_count_bound(s, n - 1);
    }
}

/// Digits contain no newline, so consuming only digits stays on the
/// starting line.
pub proof fn lemma_line_count_digits(s: Seq<char>, n: int)
    requires
        0 <= n <= s.len(),
        forall|i: int| 0 <= i < n ==> is_digit_char(#[trigger] s[i]),
    ensures
        line_count(s, n) == 0,
    decreases n,
{
    if n > 0 {
        lemma_line_count_digits(s, n - 1);
        assert(is_digit_char(s[n - 1]));
        assert(s[n - 1] != '\n');
    }
}

/// A position in the source text: absolute character offset, 0-based line,
/// and 0-based column (monotonic; never reset at a line break, so it always
/// equals the offset).
#[derive(Debug, Clone, Copy, PartialEq, Eq, Structural)]
pub struct SourceOffset {
    pub offset: usize,
    pub line: usize,
    pub column: usize,
}

impl SourceOffset {
    /// Render the position as `"line:column"`.
    pub fn to_text(&self) -> (r: String)
        ensures
            r@ == dec_str(self.line as int) + ":"@ + dec_str(self.column as int),
    {
        let mut s = usize_to_string(self.line);
        s.append(":");
        let c = usize_to_string(self.column);
        s.append(c.as_str());
        s
    }
}

/// A half-open span `[start, end)` over the source text.
#[derive(Debug, Clone, Copy, PartialEq, Eq, Structural)]
pub struct SourceRange {
    pub start: SourceOffset,
    pub end: SourceOffset,
}

impl SourceRange {
    /// The empty span at the origin.
    pub open spec fn spec_empty() -> SourceRange {
        SourceRange {
            start: SourceOffset { offset: 0, line: 0, column: 0 },
            end: SourceOffset { offset: 0, line: 0, column: 0 },
        }
    }

    pub fn empty() -> (r: Self)
        ensures
            r == Self::spec_empty(),
    {
        Self {
            start: SourceOffset { offset: 0, line: 0, column: 0 },
            end: SourceOffset { offset: 0, line: 0, column: 0 },
        }
    }
}

/// The classification of a token. `Nop` is a sentinel that never appears in
/// a successful token sequence; it only lets a caller build a placeholder
/// token (see [`Token::empty`]) that carries a range.
#[derive(Debug, Clone, Copy, PartialEq, Eq, Structural)]
pub enum TokenKind {
    Int,
    Nop,
}

/// A classified, positioned substring of the source text. For an `Int`
/// token, `value` holds the scanned digit run exactly as written.
#[derive(Debug, Clone, PartialEq, Eq)]
pub struct Token {
    pub value: String,
    pub kind: TokenKind,
    pub range: SourceRange,
}

impl Token {
    fn new(kind: TokenKind, value: String, range: SourceRange) -> (r: Self)
        ensures
            r.kind == kind,
            r.value == value,
            r.range == range,
    {
        Self { value, kind, range }
    }

    fn int_token(value: String, range: SourceRange) -> (r: Self)
        ensures
            r.kind == TokenKind::Int,
            r.value == value,
            r.range == range,
    {
        Self::new(TokenKind::Int, value, range)
    }

    /// A `Nop` placeholder token with an empty value, carrying only a range.
    pub fn empty(range: SourceRange) -> (r: Self)
        ensures
            r.kind == TokenKind::Nop,
            r.value@.len() == 0,
            r.range == range,
    {
        proof {
            reveal_strlit("");
        }
        Self::new(TokenKind::Nop, "".to_owned(), range)
    }
}

/// A lexing failure: a message and the line/column the scanner had reached
/// when it met the offending character.
#[derive(Debug, PartialEq, PartialOrd)]
pub struct LexError {
    pub msg: String,
    pub line: usize,
    pub column: usize,
}

/// A cursor over an owned source text: an index plus the cached line and
/// column of the read position. Exposes lookahead by one ([`CharStream::peek`])
/// and position-aware consumption ([`CharStream::next`]); none of its
/// operations fail, absence of input is just `None`.
pub struct CharStream {
    pub source: String,
    pub index: usize,
    pub line: usize,
    pub column: usize,
}

impl CharStream {
    /// The cached line and column agree with the consumed prefix: the column
    /// counts consumed characters and the line counts consumed newlines.
    pub open spec fn wf(&self) -> bool {
        &&& self.index <= self.source@.len()
        &&& self.column == self.index
        &&& self.line == line_count(self.source@, self.index as int)
    }

    pub fn from_string(string: String) -> (r: Self)
        ensures
            r.source == string,
            r.index == 0,
            r.line == 0,
            r.column == 0,
            r.wf(),
    {
        Self { source: string, index: 0, line: 0, column: 0 }
    }

    /// The next character, without consuming it; `None` at end of input.
    pub fn peek(&self) -> (r: Option<char>)
        ensures
            match r {
                Some(c) => self.index < self.source@.len() && c == self.source@[self.index as int],
                None => self.index >= self.source@.len(),
            },
    {
        if self.index < self.source.as_str().unicode_len() {
            Some(self.source.as_str().get_char(self.index))
        } else {
            None
        }
    }

    /// Consume and return the next character, advancing offset and column by
    /// one and the line past a newline; `None` at end of input.
    pub fn next(&mut self) -> (r: Option<char>)
        requires
            old(self).wf(),
        ensures
            final(self).wf(),
            final(self).source == old(self).source,
            match r {
                Some(c) => {
                    &&& old(self).index < old(self).source@.len()
                    &&& c == old(self).source@[old(self).index as int]
                    &&& final(self).index == old(self).index + 1
                    &&& final(self).line == old(self).line + if c == '\n' {
                        1int
                    } else {
                        0int
                    }
                },
                None => old(self).index == old(self).source@.len() && *final(self) == *old(self),
            },
    {
        let n: usize = self.source.as_str().unicode_len();
        if self.index < n {
            let c = self.source.as_str().get_char(self.index);
            proof {
                lemma_line_count_bound(self.source@, self.index as int);
            }
            self.index = self.index + 1;
            self.column = self.column + 1;
            if c == '\n' {
                self.line = self.line + 1;
            }
            Some(c)
        } else {
            None
        }
    }

    /// Consume the maximal run of decimal digits at the cursor and return it;
    /// stops (without consuming) at the first non-digit or at end of input.
    pub fn take_digits(&mut self) -> (r: String)
        requires
            old(self).wf(),
        ensures
            final(self).wf(),
            final(self).source == old(self).source,
            final(self).line == old(self).line,
            old(self).index <= final(self).index <= old(self).source@.len(),
            forall|i: int|
                old(self).index <= i < final(self).index ==> is_digit_char(
                    #[trigger] old(self).source@[i],
                ),
            final(self).index < old(self).source@.len() ==> !is_digit_char(
                old(self).source@[final(self).index as int],
            ),
            r@ == old(self).source@.subrange(old(self).index as int, final(self).index as int),
    {
        let start: usize = self.index;
        let ghost orig: CharStream = *self;
        let ghost src = self.source@;
        loop
            invariant
                self.wf(),
                self.source == orig.source,
                self.line == orig.line,
                start <= self.index <= src.len(),
                src == orig.source@,
                forall|i: int| start <= i < self.index ==> is_digit_char(#[trigger] src[i]),
            ensures
                self.wf(),
                self.source == orig.source,
                self.line == orig.line,
                start <= self.index <= src.len(),
                forall|i: int| start <= i < self.index ==> is_digit_char(#[trigger] src[i]),
                self.index < src.len() ==> !is_digit_char(src[self.index as int]),
            decreases src.len() - self.index,
        {
            match self.peek() {
                Some(c) => {
                    if is_digit(c) {
                        let _ = self.next();
                    } else {
                        break ;
                    }
                },
                None => {
                    break ;
                },
            }
        }
        let run = self.source.as_str().substring_char(start, self.index);
        run.to_owned()
    }

    /// Stamp an error message with the cursor's current line and column.
    pub fn make_error(&self, msg: &str) -> (r: LexError)
        ensures
            r.msg@ == msg@,
            r.line == self.line,
            r.column == self.column,
    {
        LexError { msg: msg.to_owned(), line: self.line, column: self.column }
    }

    /// Snapshot of the current read position, taken before any consumption
    /// for a token (used as a span's start).
    pub fn get_offset(&self) -> (r: SourceOffset)
        ensures
            r.offset == self.index,
            r.line == self.line,
            r.column == self.column,
    {
        SourceOffset { offset: self.index, line: self.line, column: self.column }
    }
}

/// Scan one token: a maximal run of decimal digits starting at the cursor,
/// spanning from the position before the run to the position after it.
/// Never fails; the caller only invokes it when a digit is at the cursor.
fn parse_num(stream: &mut CharStream) -> (r: Result<Token, LexError>)
    requires
        old(stream).wf(),
    ensures
        final(stream).wf(),
        final(stream).source == old(stream).source,
        final(stream).line == old(stream).line,
        old(stream).index <= final(stream).index <= old(stream).source@.len(),
        forall|i: int|
            old(stream).index <= i < final(stream).index ==> is_digit_char(
                #[trigger] old(stream).source@[i],
            ),
        final(stream).index < old(stream).source@.len() ==> !is_digit_char(
            old(stream).source@[final(stream).index as int],
        ),
        match r {
            Ok(t) => {
                &&& t.kind == TokenKind::Int
                &&& t.value@ == old(stream).source@.subrange(
                    old(stream).index as int,
                    final(stream).index as int,
                )
                &&& t.range.start.offset == old(stream).index
                &&& t.range.start.line == old(stream).line
                &&& t.range.start.column == old(stream).column
                &&& t.range.end.offset == final(stream).index
                &&& t.range.end.line == final(stream).line
                &&& t.range.end.column == final(stream).column
            },
            Err(_) => false,
        },
{
    let start = stream.get_offset();
    let res = stream.take_digits();
    let range = SourceRange { start, end: stream.get_offset() };
    Ok(Token::int_token(res, range))
}

/// Scan the whole source text into its token sequence.
///
/// Succeeds exactly when every character is a decimal digit: an empty input
/// yields an empty sequence, and any non-empty all-digit input yields exactly
/// one `Int` token whose value is the input itself and whose range spans the
/// whole text at line 0. Otherwise it fails at the first non-digit character,
/// whose position (all earlier characters being digits) is line 0 and whose
/// column is its index.
pub fn lex(content: &str) -> (r: Result<Vec<Token>, LexError>)
    ensures
        match r {
            Ok(tokens) => {
                &&& all_digits(content@)
                &&& (content@.len() == 0 ==> tokens@.len() == 0)
                &&& (content@.len() > 0 ==> {
                    &&& tokens@.len() == 1
                    &&& tokens@[0].kind == TokenKind::Int
                    &&& tokens@[0].value@ == content@
                    &&& tokens@[0].range.start.offset == 0
                    &&& tokens@[0].range.start.line == 0
                    &&& tokens@[0].range.start.column == 0
                    &&& tokens@[0].range.end.offset == content@.len()
                    &&& tokens@[0].range.end.line == 0
                    &&& tokens@[0].range.end.column == content@.len()
                })
            },
            Err(e) => {
                &&& e.msg@ == "Unexpected token"@
                &&& e.line == 0
                &&& e.column < content@.len()
                &&& !is_digit_char(content@[e.column as int])
                &&& forall|i: int| 0 <= i < e.column ==> is_digit_char(#[trigger] content@[i])
            },
        },
{
    let mut stream = CharStream::from_string(content.to_owned());
    let mut result: Vec<Token> = Vec::new();
    loop
        invariant
            stream.wf(),
            stream.source@ == content@,
            (stream.index == 0 && result@.len() == 0) || (0 < stream.index && result@.len() == 1
                && (forall|i: int|
                0 <= i < stream.index ==> is_digit_char(#[trigger] content@[i])) && (stream.index
                == content@.len() || !is_digit_char(content@[stream.index as int]))
                && result@[0].kind == TokenKind::Int && result@[0].value@ == content@.subrange(
                0,
                stream.index as int,
            ) && result@[0].range.start.offset == 0 && result@[0].range.start.line == 0
                && result@[0].range.start.column == 0 && result@[0].range.end.offset
                == stream.index && result@[0].range.end.line == 0 && result@[0].range.end.column
                == stream.index),
        ensures
            stream.index == content@.len(),
            (stream.index == 0 && result@.len() == 0) || (0 < stream.index && result@.len() == 1
                && (forall|i: int|
                0 <= i < stream.index ==> is_digit_char(#[trigger] content@[i]))
                && result@[0].kind == TokenKind::Int && result@[0].value@ == content@.subrange(
                0,
                stream.index as int,
            ) && result@[0].range.start.offset == 0 && result@[0].range.start.line == 0
                && result@[0].range.start.column == 0 && result@[0].range.end.offset
                == stream.index && result@[0].range.end.line == 0 && result@[0].range.end.column
                == stream.index),
        decreases content@.len() - stream.index,
    {
        match stream.peek() {
            Some(c) => {
                if is_digit(c) {
                    let token = match parse_num(&mut stream) {
                        Ok(t) => t,
                        Err(e) => {
                            return Err(e);
                        },
                    };
                    result.push(token);
                } else {
                    proof {
                        lemma_line_count_digits(content@, stream.index as int);
                    }
                    return Err(stream.make_error("Unexpected token"));
                }
            },
            None => {
                break ;
            },
        }
    }
    proof {
        assert(content@.subrange(0, content@.len() as int) =~= content@);
    }
    Ok(result)
}

/// The digit character for a value below ten.
pub open spec fn digit_char(d: int) -> char {
    ((48 + d) as u8) as char
}

/// The decimal rendering of a non-negative integer, most significant digit
/// first, without leading zeros.
pub open spec fn dec_str(n: int) -> Seq<char>
    recommends
        0 <= n,
    decreases n,
{
    if n < 10 {
        seq![digit_char(n)]
    } else {
        dec_str(n / 10).push(digit_char(n % 10))
    }
}

fn digit_to_str(d: usize) -> (r: &'static str)
    requires
        d < 10,
    ensures
        r@ == seq![digit_char(d as int)],
{
    proof {
        reveal_strlit("0");
        reveal_strlit("1");
        reveal_strlit("2");
        reveal_strlit("3");
        reveal_strlit("4");
        reveal_strlit("5");
        reveal_strlit("6");
        reveal_strlit("7");
        reveal_strlit("8");
        reveal_strlit("9");
    }
    let r: &'static str = match d {
        0 => "0",
        1 => "1",
        2 => "2",
        3 => "3",
        4 => "4",
        5 => "5",
        6 => "6",
        7 => "7",
        8 => "8",
        _ => "9",
    };
    proof {
        assert(r@ =~= seq![digit_char(d as int)]);
    }
    r
}

/// Render a non-negative integer in decimal, without leading zeros.
pub fn usize_to_string(n: usize) -> (r: String)
    ensures
        r@ == dec_str(n as int),
    decreases n,
{
    if n < 10 {
        digit_to_str(n).to_owned()
    } else {
        let mut s = usize_to_string(n / 10);
        s.append(digit_to_str(n % 10));
        proof {
            assert(s@ =~= dec_str(n as int));
        }
        s
    }
}

/// Whether `c` is a decimal digit.
pub(crate) fn is_digit(c: char) -> (b: bool)
    ensures
        b == is_digit_char(c),
{
    let u: u32 = c as u32;
    48 <= u && u <= 57
}

} // verus!
