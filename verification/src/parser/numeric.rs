//! Numbers in a quantity: decimals, fractions, mixed numbers and ranges.

use vstd::prelude::*;
use vstd::slice::slice_subrange;
use crate::error::{DiagKind, SourceDiag};
use crate::parser::block_parser::{
    first_where, last_where_end, lemma_first_where, lemma_last_where_end, tokens_span,
    tokens_span_spec, BlockParser,
};
use crate::parser::token_buf::{buf_as_slice, buf_new, buf_push, buffered, TokenBuf};
use crate::quantity::{parse_u32, parse_u32_spec, Decimal, DecimalView, Number, NumberView, Value, ValueView};
use crate::span::Span;
use crate::text::span_text;
use crate::token::{Token, TokenKind};

verus! {

/// Every one of `tokens` lies inside a text of `len` bytes.
pub open spec fn tokens_within(tokens: Seq<Token>, len: nat) -> bool {
    forall|i: int| 0 <= i < tokens.len() ==> (#[trigger] tokens[i]).span.within(len)
}

/// `tokens` without the whitespace and comments at its two ends.
pub open spec fn trim_tokens_spec(tokens: Seq<Token>) -> Seq<Token> {
    let from = first_where(tokens, 0, |k: TokenKind| !k.is_blank());
    if from >= tokens.len() {
        Seq::empty()
    } else {
        tokens.subrange(from, last_where_end(tokens, tokens.len() as int, |k: TokenKind| !k.is_blank()))
    }
}

/// The tokens of `tokens` that are no whitespace and no comment.
pub open spec fn solid_tokens(tokens: Seq<Token>) -> Seq<Token> {
    tokens.filter(|t: Token| !t.kind.is_blank())
}

/// `token` is the punctuation mark `.`.
pub open spec fn is_dot(input: Seq<u8>, token: Token) -> bool {
    token.kind == TokenKind::Punctuation && span_text(input, token.span) == seq![46u8]
}

/// The digits before and after the point, where `tokens` has the shape of a
/// decimal number: an integer without a leading zero; such an integer, a
/// point and a run of digits; or a point and a run of digits.
pub open spec fn decimal_parts(input: Seq<u8>, tokens: Seq<Token>) -> Option<(Seq<u8>, Seq<u8>)> {
    if tokens.len() == 1 && tokens[0].kind == TokenKind::Int {
        Some((span_text(input, tokens[0].span), Seq::empty()))
    } else if tokens.len() == 3 && tokens[0].kind == TokenKind::Int && is_dot(input, tokens[1]) && (
    tokens[2].kind == TokenKind::Int || tokens[2].kind == TokenKind::ZeroInt) {
        Some((span_text(input, tokens[0].span), span_text(input, tokens[2].span)))
    } else if tokens.len() == 2 && is_dot(input, tokens[0]) && (tokens[1].kind == TokenKind::Int
        || tokens[1].kind == TokenKind::ZeroInt) {
        Some((Seq::empty(), span_text(input, tokens[1].span)))
    } else {
        None
    }
}

/// The decimal with the digits `parts`, or the error for `tokens` where
/// they are not digits.
pub open spec fn float_spec(tokens: Seq<Token>, parts: (Seq<u8>, Seq<u8>)) -> Result<
    NumberView,
    SourceDiag,
> {
    let decimal = DecimalView { int_digits: parts.0, frac_digits: parts.1 };
    if decimal.wf() {
        Ok(NumberView::Regular(decimal))
    } else {
        Err(SourceDiag::error_at(DiagKind::InvalidDecimal, tokens_span_spec(tokens)))
    }
}

/// The integer that `token` writes, or the error for it where it writes
/// none that fits in 32 bits.
pub open spec fn int_spec(input: Seq<u8>, token: Token) -> Result<u32, SourceDiag> {
    match parse_u32_spec(span_text(input, token.span)) {
        Some(value) => Ok(value),
        None => Err(SourceDiag::error_at(DiagKind::InvalidInteger, token.span)),
    }
}

/// The fraction `a / b` with no whole part. An integer that cannot be read
/// is an error, the numerator's first; so is a denominator of zero.
pub open spec fn frac_spec(input: Seq<u8>, a: Token, b: Token) -> Result<NumberView, SourceDiag> {
    match int_spec(input, a) {
        Err(e) => Err(e),
        Ok(num) => match int_spec(input, b) {
            Err(e) => Err(e),
            Ok(den) => if den == 0 {
                Err(
                    SourceDiag::error_at(
                        DiagKind::DivisionByZero,
                        Span { start: a.span.start, end: b.span.end },
                    ),
                )
            } else {
                Ok(NumberView::Fraction { whole: 0, num, den })
            },
        },
    }
}

/// The mixed number `i a / b`. An error in the whole part comes before one
/// in the fraction.
pub open spec fn mixed_num_spec(input: Seq<u8>, i: Token, a: Token, b: Token) -> Result<
    NumberView,
    SourceDiag,
> {
    match int_spec(input, i) {
        Err(e) => Err(e),
        Ok(whole) => match frac_spec(input, a, b) {
            Err(e) => Err(e),
            Ok(NumberView::Fraction { num, den, .. }) => Ok(NumberView::Fraction { whole, num, den }),
            Ok(n) => Ok(n),
        },
    }
}

/// A number as a value, an error as it is.
pub open spec fn number_value(result: Result<NumberView, SourceDiag>) -> Result<
    ValueView,
    SourceDiag,
> {
    match result {
        Ok(n) => Ok(ValueView::Number(n)),
        Err(e) => Err(e),
    }
}

/// What `tokens` mean as a number. Whitespace and comments around the
/// number do not count. If what is left has the shape of a decimal, it is
/// that decimal. Else whitespace and comments between the tokens do not
/// count either, and `int / int` is a fraction, `int int / int` a mixed
/// number. Anything else is no number: `None`. A number that has the shape
/// but cannot be read (an integer too large, a division by zero) is `Some`
/// of an error.
pub open spec fn number_spec(input: Seq<u8>, tokens: Seq<Token>) -> Option<
    Result<NumberView, SourceDiag>,
> {
    let trimmed = trim_tokens_spec(tokens);
    if trimmed.len() == 0 {
        None
    } else if decimal_parts(input, trimmed) is Some {
        Some(float_spec(trimmed, decimal_parts(input, trimmed)->0))
    } else {
        let solid = solid_tokens(trimmed);
        if solid.len() == 4 && solid[0].kind == TokenKind::Int && solid[1].kind == TokenKind::Int
            && solid[2].kind == TokenKind::Slash && solid[3].kind == TokenKind::Int {
            Some(mixed_num_spec(input, solid[0], solid[1], solid[3]))
        } else if solid.len() == 3 && solid[0].kind == TokenKind::Int && solid[1].kind
            == TokenKind::Slash && solid[2].kind == TokenKind::Int {
            Some(frac_spec(input, solid[0], solid[2]))
        } else {
            None
        }
    }
}

/// What `tokens` mean as a numeric value: the number of [`number_spec`], as
/// a value.
pub open spec fn numeric_value_spec(input: Seq<u8>, tokens: Seq<Token>) -> Option<
    Result<ValueView, SourceDiag>,
> {
    match number_spec(input, tokens) {
        None => None,
        Some(number) => Some(number_value(number)),
    }
}

/// Index of the first `-` among `tokens`, or their number where there is none.
pub open spec fn first_minus(tokens: Seq<Token>) -> int {
    first_where(tokens, 0, |k: TokenKind| k == TokenKind::Minus)
}

/// What `tokens` mean as a range, with the extension for ranges on or off.
/// With it off, or without a `-`, they are no range. Else the tokens before
/// the first `-` and those after it must each be a number: where either is
/// none, there is no range; where either is an error, the range is that
/// error, the start's first.
pub open spec fn range_value_spec(input: Seq<u8>, tokens: Seq<Token>, enabled: bool) -> Option<
    Result<ValueView, SourceDiag>,
> {
    let mid = first_minus(tokens);
    if !enabled || mid >= tokens.len() {
        None
    } else {
        match number_spec(input, tokens.subrange(0, mid)) {
            None => None,
            Some(Err(e)) => Some(Err(e)),
            Some(Ok(start)) => match number_spec(
                input,
                tokens.subrange(mid + 1, tokens.len() as int),
            ) {
                None => None,
                Some(Err(e)) => Some(Err(e)),
                Some(Ok(end)) => Some(Ok(ValueView::Range { start, end })),
            },
        }
    }
}

/// The outcome of reading a number that may be none, by view.
pub open spec fn number_option_view(outcome: Option<Result<Number, SourceDiag>>) -> Option<
    Result<NumberView, SourceDiag>,
> {
    match outcome {
        None => None,
        Some(r) => Some(number_outcome_view(r)),
    }
}

/// The outcome of reading a value, by view.
pub open spec fn outcome_view(outcome: Option<Result<Value, SourceDiag>>) -> Option<
    Result<ValueView, SourceDiag>,
> {
    match outcome {
        None => None,
        Some(Err(e)) => Some(Err(e)),
        Some(Ok(v)) => Some(Ok(v@)),
    }
}

/// The outcome of reading a number, by view.
pub open spec fn number_outcome_view(outcome: Result<Number, SourceDiag>) -> Result<
    NumberView,
    SourceDiag,
> {
    match outcome {
        Err(e) => Err(e),
        Ok(n) => Ok(n@),
    }
}

/// True for a token that is no whitespace and no comment.
pub fn not_ws_comment(t: &Token) -> (solid: bool)
    ensures
        solid == !t.kind.is_blank(),
{
    match t.kind {
        TokenKind::Whitespace | TokenKind::LineComment | TokenKind::BlockComment => false,
        _ => true,
    }
}

/// The tokens of `s` without the whitespace and comments at its two ends.
pub fn trim_tokens(s: &[Token]) -> (trimmed: &[Token])
    ensures
        trimmed@ == trim_tokens_spec(s@),
{
    let ghost solid = |k: TokenKind| !k.is_blank();
    let mut from: usize = 0;
    while from < s.len() && !not_ws_comment(&s[from])
        invariant
            from <= s@.len(),
            solid == (|k: TokenKind| !k.is_blank()),
            first_where(s@, 0, solid) == first_where(s@, from as int, solid),
        decreases s@.len() - from,
    {
        from += 1;
    }
    if from >= s.len() {
        return slice_subrange(s, 0, 0);
    }
    let mut to: usize = s.len();
    while to > from + 1 && !not_ws_comment(&s[to - 1])
        invariant
            from < to <= s@.len(),
            solid == (|k: TokenKind| !k.is_blank()),
            last_where_end(s@, s@.len() as int, solid) == last_where_end(s@, to as int, solid),
        decreases to,
    {
        to -= 1;
    }
    slice_subrange(s, from, to)
}

/// Reads the integer that `tok` writes.
pub fn integer(tok: Token, block: &BlockParser) -> (value: Result<u32, SourceDiag>)
    requires
        tok.span.within(block.input@.len()),
    ensures
        value == int_spec(block.input@, tok),
{
    match parse_u32(block.token_str(tok)) {
        Some(value) => Ok(value),
        None => Err(SourceDiag::error(DiagKind::InvalidInteger, tok.span)),
    }
}

/// Reads the fraction `a / b`.
pub fn frac(a: Token, b: Token, line: &BlockParser) -> (number: Result<Number, SourceDiag>)
    requires
        a.span.within(line.input@.len()),
        b.span.within(line.input@.len()),
    ensures
        number_outcome_view(number) == frac_spec(line.input@, a, b),
{
    let span = Span::new(a.span.start(), b.span.end());
    let num: u32 = match integer(a, line) {
        Ok(num) => num,
        Err(e) => {
            return Err(e);
        },
    };
    let den: u32 = match integer(b, line) {
        Ok(den) => den,
        Err(e) => {
            return Err(e);
        },
    };
    if den == 0 {
        Err(SourceDiag::error(DiagKind::DivisionByZero, span))
    } else {
        Ok(Number::Fraction { whole: 0, num, den })
    }
}

/// Reads the mixed number `i a / b`.
pub fn mixed_num(i: Token, a: Token, b: Token, bp: &BlockParser) -> (number: Result<
    Number,
    SourceDiag,
>)
    requires
        i.span.within(bp.input@.len()),
        a.span.within(bp.input@.len()),
        b.span.within(bp.input@.len()),
    ensures
        number_outcome_view(number) == mixed_num_spec(bp.input@, i, a, b),
{
    let whole: u32 = match integer(i, bp) {
        Ok(whole) => whole,
        Err(e) => {
            return Err(e);
        },
    };
    match frac(a, b, bp) {
        Ok(Number::Fraction { num, den, .. }) => Ok(Number::Fraction { whole, num, den }),
        Ok(n) => Ok(n),
        Err(e) => Err(e),
    }
}

/// Trimmed tokens are a stretch of the tokens they were trimmed from: they
/// lie where those lie, and where there are any, the first and the last are
/// no whitespace and no comment.
pub proof fn lemma_trim_tokens(tokens: Seq<Token>)
    ensures
        forall|i: int|
            0 <= i < trim_tokens_spec(tokens).len() ==> tokens.contains(
                #[trigger] trim_tokens_spec(tokens)[i],
            ),
        trim_tokens_spec(tokens).len() > 0 ==> !trim_tokens_spec(tokens).first().kind.is_blank()
            && !trim_tokens_spec(tokens).last().kind.is_blank(),
{
    let solid = |k: TokenKind| !k.is_blank();
    let from = first_where(tokens, 0, solid);
    lemma_first_where(tokens, 0, solid);
    if from < tokens.len() {
        lemma_last_where_end(tokens, tokens.len() as int, solid, from);
    }
}

/// Tokens taken from among tokens that lie inside a text lie inside it too.
pub proof fn lemma_within_part(part: Seq<Token>, tokens: Seq<Token>, len: nat)
    requires
        tokens_within(tokens, len),
        forall|i: int| 0 <= i < part.len() ==> tokens.contains(#[trigger] part[i]),
    ensures
        tokens_within(part, len),
{
    assert forall|i: int| 0 <= i < part.len() implies (#[trigger] part[i]).span.within(len) by {
        let k = choose|k: int| 0 <= k < tokens.len() && tokens[k] == part[i];
        assert(tokens[k].span.within(len));
    }
}

/// Decides whether `token` is the punctuation mark `.`.
fn token_is_dot(token: Token, bp: &BlockParser) -> (yes: bool)
    requires
        token.span.within(bp.input@.len()),
    ensures
        yes == is_dot(bp.input@, token),
{
    match token.kind {
        TokenKind::Punctuation => {
            let bytes: &[u8] = bp.token_str(token);
            let yes: bool = bytes.len() == 1 && bytes[0] == 46u8;
            proof {
                if yes {
                    assert(bytes@ =~= seq![46u8]);
                }
            }
            yes
        },
        _ => false,
    }
}

/// True for an integer token, with or without a leading zero.
fn is_digits_kind(kind: TokenKind) -> (yes: bool)
    ensures
        yes == (kind == TokenKind::Int || kind == TokenKind::ZeroInt),
{
    match kind {
        TokenKind::Int | TokenKind::ZeroInt => true,
        _ => false,
    }
}

/// Builds the decimal with the given digits, or the error for `tokens`.
fn decimal_of(int_digits: &[u8], frac_digits: &[u8], tokens: &[Token]) -> (number: Result<
    Number,
    SourceDiag,
>)
    requires
        tokens@.len() > 0,
    ensures
        number_outcome_view(number) == float_spec(tokens@, (int_digits@, frac_digits@)),
{
    match Decimal::from_digits(int_digits, frac_digits) {
        Some(decimal) => Ok(Number::Regular(decimal)),
        None => Err(SourceDiag::error(DiagKind::InvalidDecimal, tokens_span(tokens))),
    }
}

/// Reads `tokens` as a decimal number, where they have the shape of one.
pub fn decimal(tokens: &[Token], bp: &BlockParser) -> (number: Option<Result<Number, SourceDiag>>)
    requires
        tokens_within(tokens@, bp.input@.len()),
    ensures
        number is Some <==> decimal_parts(bp.input@, tokens@) is Some,
        number is Some ==> number_outcome_view(number->0) == float_spec(
            tokens@,
            decimal_parts(bp.input@, tokens@)->0,
        ),
{
    let n: usize = tokens.len();
    if n == 1 && tokens[0].kind == TokenKind::Int {
        let empty: Vec<u8> = Vec::new();
        Some(decimal_of(bp.token_str(tokens[0]), empty.as_slice(), tokens))
    } else if n == 3 && tokens[0].kind == TokenKind::Int && token_is_dot(tokens[1], bp)
        && is_digits_kind(tokens[2].kind) {
        Some(decimal_of(bp.token_str(tokens[0]), bp.token_str(tokens[2]), tokens))
    } else if n == 2 && token_is_dot(tokens[0], bp) && is_digits_kind(tokens[1].kind) {
        let empty: Vec<u8> = Vec::new();
        Some(decimal_of(empty.as_slice(), bp.token_str(tokens[1]), tokens))
    } else {
        None
    }
}

/// Reads `tokens` as a numeric value: a decimal, a fraction or a mixed
/// number. `None` where they are no number.
pub fn numeric_value(tokens: &[Token], bp: &BlockParser) -> (outcome: Option<
    Result<Value, SourceDiag>,
>)
    requires
        tokens_within(tokens@, bp.input@.len()),
    ensures
        outcome_view(outcome) == numeric_value_spec(bp.input@, tokens@),
{
    match number(tokens, bp) {
        None => None,
        Some(Ok(n)) => Some(Ok(Value::Number(n))),
        Some(Err(e)) => Some(Err(e)),
    }
}

/// Reads `tokens` as a number: a decimal, a fraction or a mixed number.
/// `None` where they are no number.
pub fn number(tokens: &[Token], bp: &BlockParser) -> (outcome: Option<Result<Number, SourceDiag>>)
    requires
        tokens_within(tokens@, bp.input@.len()),
    ensures
        number_option_view(outcome) == number_spec(bp.input@, tokens@),
{
    let trimmed_tokens: &[Token] = trim_tokens(tokens);
    if trimmed_tokens.len() == 0 {
        return None;
    }
    proof {
        lemma_trim_tokens(tokens@);
        lemma_within_part(trimmed_tokens@, tokens@, bp.input@.len());
    }
    match decimal(trimmed_tokens, bp) {
        Some(number) => {
            return Some(number);
        },
        None => {},
    }
    // a number has at most four tokens that count
    let ghost solid = |t: Token| !t.kind.is_blank();
    let mut filtered_tokens: TokenBuf = buf_new();
    let mut count: usize = 0;
    let mut i: usize = 0;
    proof {
        reveal(Seq::filter);
    }
    while i < trimmed_tokens.len()
        invariant
            i <= trimmed_tokens@.len(),
            solid == (|t: Token| !t.kind.is_blank()),
            buffered(filtered_tokens) == trimmed_tokens@.subrange(0, i as int).filter(solid),
            count == buffered(filtered_tokens).len(),
            count <= 4,
            trimmed_tokens@ == trim_tokens_spec(tokens@),
            trimmed_tokens@.len() > 0,
            decimal_parts(bp.input@, trimmed_tokens@) is None,
        decreases trimmed_tokens@.len() - i,
    {
        let token: Token = trimmed_tokens[i];
        proof {
            let prefix = trimmed_tokens@.subrange(0, i as int);
            assert(trimmed_tokens@.subrange(0, i + 1) =~= prefix.push(token));
            prefix.lemma_filter_push(token, solid);
        }
        if not_ws_comment(&token) {
            if count == 4 {
                proof {
                    trimmed_tokens@.lemma_filter_take_len(solid, i + 1);
                }
                return None;
            }
            buf_push(&mut filtered_tokens, token);
            count += 1;
        }
        i += 1;
    }
    assert(trimmed_tokens@.subrange(0, i as int) =~= trimmed_tokens@);
    let solid_tokens: &[Token] = buf_as_slice(&filtered_tokens);
    proof {
        assert forall|k: int| 0 <= k < solid_tokens@.len() implies trimmed_tokens@.contains(
            #[trigger] solid_tokens@[k],
        ) by {
            trimmed_tokens@.lemma_filter_contains_rev(solid, solid_tokens@[k]);
        }
        lemma_within_part(solid_tokens@, trimmed_tokens@, bp.input@.len());
    }
    if solid_tokens.len() == 4 && solid_tokens[0].kind == TokenKind::Int && solid_tokens[1].kind
        == TokenKind::Int && solid_tokens[2].kind == TokenKind::Slash && solid_tokens[3].kind
        == TokenKind::Int {
        Some(mixed_num(solid_tokens[0], solid_tokens[1], solid_tokens[3], bp))
    } else if solid_tokens.len() == 3 && solid_tokens[0].kind == TokenKind::Int
        && solid_tokens[1].kind == TokenKind::Slash && solid_tokens[2].kind == TokenKind::Int {
        Some(frac(solid_tokens[0], solid_tokens[2], bp))
    } else {
        None
    }
}

/// Reads `tokens` as a range `start-end`, if the extension for ranges is on.
/// `None` where they are no range.
pub fn range_value(tokens: &[Token], bp: &BlockParser) -> (outcome: Option<
    Result<Value, SourceDiag>,
>)
    requires
        tokens_within(tokens@, bp.input@.len()),
    ensures
        outcome_view(outcome) == range_value_spec(
            bp.input@,
            tokens@,
            bp.extensions.range_values,
        ),
{
    if !bp.extensions.range_values {
        return None;
    }
    let ghost minus = |k: TokenKind| k == TokenKind::Minus;
    let mut mid: usize = 0;
    while mid < tokens.len() && tokens[mid].kind != TokenKind::Minus
        invariant
            mid <= tokens@.len(),
            minus == (|k: TokenKind| k == TokenKind::Minus),
            first_where(tokens@, 0, minus) == first_where(tokens@, mid as int, minus),
        decreases tokens@.len() - mid,
    {
        mid += 1;
    }
    if mid >= tokens.len() {
        return None;
    }
    let start_tokens: &[Token] = slice_subrange(tokens, 0, mid);
    let end_tokens: &[Token] = slice_subrange(tokens, mid + 1, tokens.len());
    let start: Number = match number(start_tokens, bp) {
        None => {
            return None;
        },
        Some(Err(e)) => {
            return Some(Err(e));
        },
        Some(Ok(start)) => start,
    };
    let end: Number = match number(end_tokens, bp) {
        None => {
            return None;
        },
        Some(Err(e)) => {
            return Some(Err(e));
        },
        Some(Ok(end)) => end,
    };
    Some(Ok(Value::Range { start, end }))
}

} // verus!
