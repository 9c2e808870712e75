//! Recursive-descent parser: consumes the token sequence with one-token
//! lookahead and builds a module AST, or fails with a positioned
//! [`ParseError`] at the first malformed token.
//!
//! The grammar currently has a single declaration shape, a bare
//! integer-literal expression, so a parse succeeds exactly when every token
//! is an `Int` token whose digit run names a value that fits in a 32-bit
//! signed integer, and the resulting declarations mirror the tokens in
//! order. Alias declarations exist in the AST but no surface syntax produces
//! them yet.

use vstd::prelude::*;
use vstd::string::StrSliceExecFns;

use crate::ast::{Expr, Module, Stmt};
use crate::lex::{
    all_digits, dec_str, digit_char, is_digit, is_digit_char, SourceRange, Token, TokenKind,
};

verus! {

/// Numeric value of a digit character.
pub open spec fn digit_val(c: char) -> int {
    c as int - 48
}

/// Numeric value of a string of decimal digits, most significant first.
pub open spec fn digits_val(s: Seq<char>) -> int
    decreases s.len(),
{
    if s.len() == 0 {
        0
    } else {
        10 * digits_val(s.drop_last()) + digit_val(s.last())
    }
}

/// A token value the parser turns into an integer literal: a non-empty digit
/// run whose numeric value fits in a 32-bit signed integer.
pub open spec fn is_valid_i32_digits(s: Seq<char>) -> bool {
    s.len() > 0 && all_digits(s) && digits_val(s) <= i32::MAX
}

/// A token the parser accepts as a declaration.
pub open spec fn token_ok(t: Token) -> bool {
    t.kind == TokenKind::Int && is_valid_i32_digits(t.value@)
}

/// The diagnostic the parser reports for a token value that does not name a
/// 32-bit signed integer.
pub open spec fn value_error_msg(s: Seq<char>) -> Seq<char> {
    if s.len() == 0 {
        "cannot parse integer from empty string"@
    } else if !all_digits(s) {
        "invalid digit found in string"@
    } else {
        "number too large to fit in target type"@
    }
}

/// The diagnostic the parser reports for a rejected token.
pub open spec fn token_error_msg(t: Token) -> Seq<char> {
    if t.kind == TokenKind::Int {
        value_error_msg(t.value@)
    } else {
        "Unexpected token"@
    }
}

/// A digit string names a non-negative value.
pub proof fn lemma_digits_val_nonneg(s: Seq<char>)
    requires
        all_digits(s),
    ensures
        digits_val(s) >= 0,
    decreases s.len(),
{
    if s.len() > 0 {
        assert forall|i: int| 0 <= i < s.drop_last().len() implies is_digit_char(
            #[trigger] s.drop_last()[i],
        ) by {
            assert(s.drop_last()[i] == s[i]);
        }
        lemma_digits_val_nonneg(s.drop_last());
        assert(is_digit_char(s.last()));
    }
}

/// The value of a digit string only grows as digits are appended, so every
/// prefix names a value no larger than the whole.
pub proof fn lemma_digits_val_prefix_le(s: Seq<char>, i: int)
    requires
        all_digits(s),
        0 <= i <= s.len(),
    ensures
        digits_val(s.take(i)) <= digits_val(s),
    decreases s.len() - i,
{
    if i == s.len() {
        assert(s.take(i) =~= s);
    } else {
        assert(s.take(i + 1).drop_last() =~= s.take(i));
        assert(s.take(i + 1).last() == s[i]);
        assert forall|j: int| 0 <= j < s.take(i).len() implies is_digit_char(
            #[trigger] s.take(i)[j],
        ) by {
            assert(s.take(i)[j] == s[j]);
        }
        lemma_digits_val_nonneg(s.take(i));
        assert(is_digit_char(s[i]));
        assert(digits_val(s.take(i + 1)) == 10 * digits_val(s.take(i)) + digit_val(s[i]));
        lemma_digits_val_prefix_le(s, i + 1);
    }
}

/// Rendering a non-negative integer in decimal and reading the digits back
/// yields the same value: [`dec_str`] produces a non-empty digit string whose
/// [`digits_val`] is the rendered number.
pub proof fn lemma_dec_str_value(n: int)
    requires
        0 <= n,
    ensures
        all_digits(dec_str(n)),
        dec_str(n).len() > 0,
        digits_val(dec_str(n)) == n,
    decreases n,
{
    if n < 10 {
        let s = seq![digit_char(n)];
        assert(is_digit_char(digit_char(n)));
        assert(s.drop_last() =~= Seq::<char>::empty());
        assert(digits_val(s) == 10 * digits_val(s.drop_last()) + digit_val(s.last()));
    } else {
        lemma_dec_str_value(n / 10);
        let a = dec_str(n / 10);
        let c = digit_char(n % 10);
        assert(is_digit_char(c));
        assert(a.push(c).drop_last() =~= a);
        assert(a.push(c).last() == c);
        assert forall|i: int| 0 <= i < a.push(c).len() implies is_digit_char(
            #[trigger] a.push(c)[i],
        ) by {
            if i < a.len() {
                assert(a.push(c)[i] == a[i]);
            }
        }
        vstd::arithmetic::div_mod::lemma_fundamental_div_mod(n, 10);
        assert(digits_val(a.push(c)) == 10 * (n / 10) + (n % 10));
    }
}

/// A parsing failure: a message and the span of the offending token (or the
/// empty span when the token sequence ran out).
#[derive(Debug, PartialEq)]
pub struct ParseError {
    pub msg: String,
    pub range: SourceRange,
}

impl ParseError {
    pub fn new(range: SourceRange, msg: &str) -> (r: Self)
        ensures
            r.range == range,
            r.msg@ == msg@,
    {
        Self { msg: msg.to_owned(), range }
    }
}

/// A one-token-lookahead cursor over the token sequence; the tokens still to
/// be consumed are its `remaining` view.
pub(crate) struct TokenStream {
    pub(crate) tokens: Vec<Token>,
}

impl TokenStream {
    pub(crate) open spec fn remaining(&self) -> Seq<Token> {
        self.tokens@
    }

    pub(crate) fn new(tokens: Vec<Token>) -> (r: Self)
        ensures
            r.remaining() == tokens@,
    {
        Self { tokens }
    }

    /// The span to report at the current position: the next token's range,
    /// or the empty range when the sequence is exhausted.
    pub(crate) fn end_range(&self) -> (r: SourceRange)
        ensures
            self.remaining().len() > 0 ==> r == self.remaining()[0].range,
            self.remaining().len() == 0 ==> r == SourceRange::spec_empty(),
    {
        if self.tokens.len() > 0 {
            self.tokens[0].range
        } else {
            SourceRange::empty()
        }
    }

    /// Consume and return the next token; fails when the sequence is
    /// exhausted at a point where a token is required.
    pub(crate) fn next_token(&mut self) -> (r: Result<Token, ParseError>)
        ensures
            match r {
                Ok(t) => {
                    &&& old(self).remaining().len() > 0
                    &&& t == old(self).remaining()[0]
                    &&& final(self).remaining() == old(self).remaining().drop_first()
                },
                Err(e) => {
                    &&& old(self).remaining().len() == 0
                    &&& *final(self) == *old(self)
                    &&& e.msg@ == "Unexpected end of file"@
                    &&& e.range == SourceRange::spec_empty()
                },
            },
    {
        if self.tokens.len() > 0 {
            let t = self.tokens.remove(0);
            proof {
                assert(self.tokens@ =~= old(self).tokens@.drop_first());
            }
            Ok(t)
        } else {
            let range = self.end_range();
            Err(ParseError::new(range, "Unexpected end of file"))
        }
    }

    /// Look at the next token without consuming it; fails when the sequence
    /// is exhausted at a point where a token is required.
    pub(crate) fn peek_token(&self) -> (r: Result<&Token, ParseError>)
        ensures
            match r {
                Ok(t) => self.remaining().len() > 0 && *t == self.remaining()[0],
                Err(e) => {
                    &&& self.remaining().len() == 0
                    &&& e.msg@ == "Unexpected end of file"@
                    &&& e.range == SourceRange::spec_empty()
                },
            },
    {
        if self.tokens.len() > 0 {
            Ok(&self.tokens[0])
        } else {
            let range = self.end_range();
            Err(ParseError::new(range, "Unexpected end of file"))
        }
    }
}

/// Why a token value failed to name a 32-bit signed integer.
enum NumError {
    Empty,
    InvalidDigit,
    Overflow,
}

/// Parse a digit string as a 32-bit signed integer, scanning left to right:
/// an empty string, then any non-digit character, then overflow of the
/// 32-bit signed range are reported, in that order of precedence.
fn parse_i32_digits(s: &str) -> (r: Result<i32, NumError>)
    ensures
        match r {
            Ok(n) => is_valid_i32_digits(s@) && n as int == digits_val(s@),
            Err(NumError::Empty) => s@.len() == 0,
            Err(NumError::InvalidDigit) => s@.len() > 0 && !all_digits(s@),
            Err(NumError::Overflow) => s@.len() > 0 && all_digits(s@) && digits_val(s@)
                > i32::MAX,
        },
{
    let n: usize = s.unicode_len();
    if n == 0 {
        return Err(NumError::Empty);
    }
    let mut i: usize = 0;
    while i < n
        invariant
            n == s@.len(),
            i <= n,
            forall|j: int| 0 <= j < i ==> is_digit_char(#[trigger] s@[j]),
        decreases n - i,
    {
        let c = s.get_char(i);
        if !is_digit(c) {
            return Err(NumError::InvalidDigit);
        }
        i = i + 1;
    }
    let mut acc: u64 = 0;
    let mut i: usize = 0;
    while i < n
        invariant
            n == s@.len(),
            i <= n,
            all_digits(s@),
            acc == digits_val(s@.take(i as int)),
            acc <= i32::MAX,
        decreases n - i,
    {
        let c = s.get_char(i);
        let d: u64 = (c as u32 - 48) as u64;
        let next_acc: u64 = acc * 10 + d;
        proof {
            assert(s@.take(i as int + 1).drop_last() =~= s@.take(i as int));
            assert(s@.take(i as int + 1).last() == s@[i as int]);
            assert(digits_val(s@.take(i as int + 1)) == 10 * digits_val(s@.take(i as int))
                + digit_val(s@[i as int]));
        }
        if next_acc > 0x7fff_ffff {
            proof {
                lemma_digits_val_prefix_le(s@, i as int + 1);
            }
            return Err(NumError::Overflow);
        }
        acc = next_acc;
        i = i + 1;
    }
    proof {
        assert(s@.take(n as int) =~= s@);
    }
    Ok(acc as i32)
}

/// Consume one token and parse its value text as a 32-bit signed integer
/// literal; a value that does not fit, or is otherwise not a digit run,
/// fails with the numeric diagnostic at the consumed token's range.
fn parse_int(stream: &mut TokenStream) -> (r: Result<Expr, ParseError>)
    ensures
        match r {
            Ok(e) => {
                &&& old(stream).remaining().len() > 0
                &&& is_valid_i32_digits(old(stream).remaining()[0].value@)
                &&& e == Expr::Int(digits_val(old(stream).remaining()[0].value@) as i32)
                &&& final(stream).remaining() == old(stream).remaining().drop_first()
            },
            Err(err) => if old(stream).remaining().len() == 0 {
                &&& err.msg@ == "Unexpected end of file"@
                &&& err.range == SourceRange::spec_empty()
                &&& *final(stream) == *old(stream)
            } else {
                &&& !is_valid_i32_digits(old(stream).remaining()[0].value@)
                &&& err.msg@ == value_error_msg(old(stream).remaining()[0].value@)
                &&& err.range == old(stream).remaining()[0].range
                &&& final(stream).remaining() == old(stream).remaining().drop_first()
            },
        },
{
    let token = match stream.next_token() {
        Ok(t) => t,
        Err(e) => {
            return Err(e);
        },
    };
    match parse_i32_digits(token.value.as_str()) {
        Ok(n) => Ok(Expr::Int(n)),
        Err(NumError::Empty) => Err(
            ParseError::new(token.range, "cannot parse integer from empty string"),
        ),
        Err(NumError::InvalidDigit) => Err(
            ParseError::new(token.range, "invalid digit found in string"),
        ),
        Err(NumError::Overflow) => Err(
            ParseError::new(token.range, "number too large to fit in target type"),
        ),
    }
}

/// Parse one declaration by dispatching on the peeked token's kind: an `Int`
/// token is consumed and becomes an integer literal; any other token fails
/// with "Unexpected token" at the peeked token's range, without consuming
/// it, so the diagnostic points exactly at the offending token.
fn parse_expr(stream: &mut TokenStream) -> (r: Result<Expr, ParseError>)
    ensures
        match r {
            Ok(e) => {
                &&& old(stream).remaining().len() > 0
                &&& token_ok(old(stream).remaining()[0])
                &&& e == Expr::Int(digits_val(old(stream).remaining()[0].value@) as i32)
                &&& final(stream).remaining() == old(stream).remaining().drop_first()
            },
            Err(err) => if old(stream).remaining().len() == 0 {
                &&& err.msg@ == "Unexpected end of file"@
                &&& err.range == SourceRange::spec_empty()
                &&& *final(stream) == *old(stream)
            } else {
                &&& !token_ok(old(stream).remaining()[0])
                &&& err.msg@ == token_error_msg(old(stream).remaining()[0])
                &&& err.range == old(stream).remaining()[0].range
                &&& (old(stream).remaining()[0].kind == TokenKind::Int
                    ==> final(stream).remaining() == old(stream).remaining().drop_first())
                &&& (old(stream).remaining()[0].kind != TokenKind::Int
                    ==> *final(stream) == *old(stream))
            },
        },
{
    let kind: TokenKind;
    let range: SourceRange;
    match stream.peek_token() {
        Ok(t) => {
            kind = t.kind;
            range = t.range;
        },
        Err(e) => {
            return Err(e);
        },
    }
    match kind {
        TokenKind::Int => parse_int(stream),
        TokenKind::Nop => Err(ParseError::new(range, "Unexpected token")),
    }
}

/// Parse the whole token sequence into declarations, in source order.
///
/// Succeeds exactly when every token is accepted (see [`token_ok`]), and
/// then returns one integer literal per token, in order; an empty sequence
/// yields an empty list. Otherwise it fails at the first rejected token,
/// with that token's diagnostic and range.
pub fn parse_tokens(tokens: Vec<Token>) -> (r: Result<Vec<Expr>, ParseError>)
    ensures
        match r {
            Ok(exprs) => {
                &&& forall|i: int| 0 <= i < tokens@.len() ==> token_ok(#[trigger] tokens@[i])
                &&& exprs@.len() == tokens@.len()
                &&& forall|i: int|
                    0 <= i < tokens@.len() ==> exprs@[i] == Expr::Int(
                        digits_val(#[trigger] tokens@[i].value@) as i32,
                    )
            },
            Err(e) => exists|k: int|
                {
                    &&& 0 <= k < tokens@.len()
                    &&& !(#[trigger] token_ok(tokens@[k]))
                    &&& (forall|i: int| 0 <= i < k ==> token_ok(#[trigger] tokens@[i]))
                    &&& e.msg@ == token_error_msg(tokens@[k])
                    &&& e.range == tokens@[k].range
                },
        },
{
    let ghost orig = tokens@;
    let mut stream = TokenStream::new(tokens);
    let mut exprs: Vec<Expr> = Vec::new();
    loop
        invariant
            orig == tokens@,
            exprs@.len() <= orig.len(),
            stream.remaining() == orig.subrange(exprs@.len() as int, orig.len() as int),
            forall|i: int| 0 <= i < exprs@.len() ==> token_ok(#[trigger] orig[i]),
            forall|i: int|
                0 <= i < exprs@.len() ==> exprs@[i] == Expr::Int(
                    digits_val(#[trigger] orig[i].value@) as i32,
                ),
        ensures
            exprs@.len() == orig.len(),
            forall|i: int| 0 <= i < orig.len() ==> token_ok(#[trigger] orig[i]),
            forall|i: int|
                0 <= i < orig.len() ==> exprs@[i] == Expr::Int(
                    digits_val(#[trigger] orig[i].value@) as i32,
                ),
        decreases orig.len() - exprs@.len(),
    {
        match stream.peek_token() {
            Ok(_) => {},
            Err(_) => {
                break ;
            },
        }
        let ghost k = exprs@.len() as int;
        let ghost rem0 = stream.remaining();
        proof {
            assert(rem0[0] == orig[k]);
        }
        match parse_expr(&mut stream) {
            Ok(e) => {
                exprs.push(e);
                proof {
                    assert(stream.remaining() =~= orig.subrange(
                        exprs@.len() as int,
                        orig.len() as int,
                    ));
                }
            },
            Err(err) => {
                proof {
                    assert(!token_ok(tokens@[k]));
                    assert(err.msg@ == token_error_msg(tokens@[k]));
                    assert(err.range == tokens@[k].range);
                }
                return Err(err);
            },
        }
    }
    Ok(exprs)
}

/// Parse a token sequence into a [`Module`] with the caller-supplied name;
/// each accepted token becomes one bare expression declaration, in source
/// order, and the first rejected token aborts the parse with its diagnostic.
pub fn parse_module(name: String, tokens: Vec<Token>) -> (r: Result<Module, ParseError>)
    ensures
        match r {
            Ok(m) => {
                &&& m.name == name
                &&& forall|i: int| 0 <= i < tokens@.len() ==> token_ok(#[trigger] tokens@[i])
                &&& m.declarations@.len() == tokens@.len()
                &&& forall|i: int|
                    0 <= i < tokens@.len() ==> m.declarations@[i] == Stmt::Expr(
                        Expr::Int(digits_val(#[trigger] tokens@[i].value@) as i32),
                    )
            },
            Err(e) => exists|k: int|
                {
                    &&& 0 <= k < tokens@.len()
                    &&& !(#[trigger] token_ok(tokens@[k]))
                    &&& (forall|i: int| 0 <= i < k ==> token_ok(#[trigger] tokens@[i]))
                    &&& e.msg@ == token_error_msg(tokens@[k])
                    &&& e.range == tokens@[k].range
                },
        },
{
    let exprs = match parse_tokens(tokens) {
        Ok(es) => es,
        Err(e) => {
            return Err(e);
        },
    };
    let mut declarations: Vec<Stmt> = Vec::new();
    let n: usize = exprs.len();
    let mut i: usize = 0;
    while i < n
        invariant
            n == exprs@.len(),
            i <= n,
            declarations@.len() == i,
            forall|j: int| 0 <= j < i ==> declarations@[j] == Stmt::Expr(#[trigger] exprs@[j]),
        decreases n - i,
    {
        declarations.push(Stmt::Expr(exprs[i]));
        i = i + 1;
    }
    Ok(Module { name, declarations })
}

/// Law: the parser accepts the lexer's output. A successful scan of a
/// non-empty digit string whose value fits in a 32-bit signed integer yields
/// a single token that satisfies [`token_ok`], so by the contracts of
/// [`parse_tokens`] and [`parse_module`] the parse succeeds and its sole
/// declaration is exactly the integer literal the string spells.
pub proof fn lemma_parser_accepts_lexer_output(s: Seq<char>, toks: Seq<Token>)
    requires
        s.len() > 0,
        all_digits(s),
        digits_val(s) <= i32::MAX,
        toks.len() == 1,
        toks[0].kind == TokenKind::Int,
        toks[0].value@ == s,
    ensures
        forall|i: int| 0 <= i < toks.len() ==> token_ok(#[trigger] toks[i]),
{
    assert(token_ok(toks[0]));
}

} // verus!
