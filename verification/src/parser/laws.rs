//! What holds of every quantity of a given shape.

use vstd::prelude::*;
use crate::error::{DiagKind, SourceDiag};
use crate::extensions::Extensions;
use crate::located::Located;
use crate::parser::block_parser::{
    first_where, lemma_first_where, lemma_first_where_is, tokens_span_spec,
};
use crate::parser::model::{QuantityValueView, QuantityView};
use crate::parser::numeric::{
    first_minus, frac_spec, mixed_num_spec, number_spec, numeric_value_spec, range_value_spec,
    solid_tokens, trim_tokens_spec,
};
use crate::parser::quantity::{
    advanced_quantity_spec, is_marker, parse_value_spec, quantity_spec, values_from,
    ParsedQuantityView,
};
use crate::quantity::{
    all_digits, digits_value, parse_u32_spec, DecimalView, NumberView, ValueView,
};
use crate::span::Span;
use crate::text::{span_text, tokens_text, trimmed};
use crate::token::{Token, TokenKind};

verus! {

/// The quantity that is one value and nothing else: no auto scale marker, no
/// unit, no separator. The value and the quantity both cover `span`.
pub open spec fn lone_value(value: ValueView, span: Span) -> ParsedQuantityView {
    ParsedQuantityView {
        quantity: Located {
            inner: QuantityView {
                value: QuantityValueView::Single {
                    value: Located { inner: value, span },
                    auto_scale: None,
                },
                unit: None,
            },
            span,
        },
        unit_separator: None,
    }
}

/// Tokens that hold no marker, no word and no `-` are one value of the
/// regular grammar, whatever the extensions: the number they write, the
/// stand-in and an error where that number cannot be read, or else text.
pub proof fn lemma_lone_value(input: Seq<u8>, tokens: Seq<Token>, ext: Extensions)
    requires
        tokens.len() > 0,
        forall|i: int|
            0 <= i < tokens.len() ==> !is_marker((#[trigger] tokens[i]).kind) && tokens[i].kind
                != TokenKind::Word && tokens[i].kind != TokenKind::Minus,
    ensures
        quantity_spec(input, tokens, ext) == (
            lone_value(
                parse_value_spec(input, tokens, ext, tokens.last().span.end).0.inner,
                tokens_span_spec(tokens),
            ),
            parse_value_spec(input, tokens, ext, tokens.last().span.end).1,
        ),
        range_value_spec(input, tokens, ext.range_values) is None,
{
    let len = tokens.len() as int;
    let marker = |k: TokenKind| is_marker(k);
    let is_word = |k: TokenKind| k == TokenKind::Word;
    let solid = |k: TokenKind| !k.is_blank();
    let minus = |k: TokenKind| k == TokenKind::Minus;
    let percent = |k: TokenKind| k == TokenKind::Percent;
    lemma_first_where_is(tokens, 0, marker, len);
    lemma_first_where_is(tokens, 0, minus, len);
    lemma_first_where(tokens, 0, solid);
    let from = first_where(tokens, 0, solid);
    lemma_first_where_is(tokens, from, is_word, len);
    assert(tokens.subrange(0, len) =~= tokens);
    lemma_first_where_is(tokens, len, percent, len);
}

/// A plain integer: one integer token without a leading zero, whose text is
/// the digits of `n`. It parses to the decimal with those digits and none
/// after the point, which is `n`; nothing is reported.
pub proof fn law_plain_integer(input: Seq<u8>, token: Token, ext: Extensions)
    requires
        token.kind == TokenKind::Int,
        span_text(input, token.span).len() > 0,
        all_digits(span_text(input, token.span)),
    ensures
        ({
            let number = DecimalView {
                int_digits: span_text(input, token.span),
                frac_digits: Seq::empty(),
            };
            &&& quantity_spec(input, seq![token], ext) == (
                lone_value(ValueView::Number(NumberView::Regular(number)), token.span),
                Seq::<SourceDiag>::empty(),
            )
            &&& number.scale() == 0
            &&& number.mantissa() == digits_value(span_text(input, token.span))
        }),
{
    let tokens = seq![token];
    lemma_lone_value(input, tokens, ext);
    lemma_trim_nothing(tokens);
}

/// Tokens that start and end with a token that is no whitespace and no
/// comment stay as they are when trimmed.
pub proof fn lemma_trim_nothing(tokens: Seq<Token>)
    requires
        tokens.len() > 0,
        !tokens.first().kind.is_blank(),
        !tokens.last().kind.is_blank(),
    ensures
        trim_tokens_spec(tokens) == tokens,
{
}

/// Among tokens of which none is whitespace or a comment, all count.
pub proof fn lemma_all_solid(tokens: Seq<Token>)
    requires
        forall|i: int| 0 <= i < tokens.len() ==> !(#[trigger] tokens[i]).kind.is_blank(),
    ensures
        solid_tokens(tokens) == tokens,
    decreases tokens.len(),
{
    let solid = |t: Token| !t.kind.is_blank();
    if tokens.len() == 0 {
        reveal(Seq::filter);
    } else {
        lemma_all_solid(tokens.drop_last());
        tokens.drop_last().lemma_filter_push(tokens.last(), solid);
        assert(tokens.drop_last().push(tokens.last()) =~= tokens);
    }
}

/// An integer, `/` and an integer are read as a fraction.
pub proof fn lemma_fraction_tokens(input: Seq<u8>, a: Token, slash: Token, b: Token)
    requires
        a.kind == TokenKind::Int,
        slash.kind == TokenKind::Slash,
        b.kind == TokenKind::Int,
    ensures
        number_spec(input, seq![a, slash, b]) == Some(frac_spec(input, a, b)),
{
    let tokens = seq![a, slash, b];
    lemma_trim_nothing(tokens);
    lemma_all_solid(tokens);
}

/// An integer, whitespace, an integer, `/` and an integer are read as a
/// mixed number.
pub proof fn lemma_mixed_number_tokens(
    input: Seq<u8>,
    w: Token,
    gap: Token,
    a: Token,
    slash: Token,
    b: Token,
)
    requires
        w.kind == TokenKind::Int,
        gap.kind == TokenKind::Whitespace,
        a.kind == TokenKind::Int,
        slash.kind == TokenKind::Slash,
        b.kind == TokenKind::Int,
    ensures
        number_spec(input, seq![w, gap, a, slash, b]) == Some(mixed_num_spec(input, w, a, b)),
{
    let tokens = seq![w, gap, a, slash, b];
    let solid = |t: Token| !t.kind.is_blank();
    lemma_trim_nothing(tokens);
    let head = seq![w];
    lemma_all_solid(head);
    head.lemma_filter_push(gap, solid);
    head.push(gap).lemma_filter_push(a, solid);
    head.push(gap).push(a).lemma_filter_push(slash, solid);
    head.push(gap).push(a).push(slash).lemma_filter_push(b, solid);
    assert(head.push(gap).push(a).push(slash).push(b) =~= tokens);
}

/// A fraction `a/b`: an integer, `/` and an integer, where both integers
/// fit in 32 bits. With `b` other than zero it parses to the fraction with
/// no whole part, numerator `a` and denominator `b`, and nothing is
/// reported. With `b` zero the division by zero is reported, at the span of
/// the fraction, and the stand-in value takes its place.
pub proof fn law_fraction(input: Seq<u8>, a: Token, slash: Token, b: Token, ext: Extensions)
    requires
        a.kind == TokenKind::Int,
        slash.kind == TokenKind::Slash,
        b.kind == TokenKind::Int,
        parse_u32_spec(span_text(input, a.span)) is Some,
        parse_u32_spec(span_text(input, b.span)) is Some,
    ensures
        ({
            let num = parse_u32_spec(span_text(input, a.span))->0;
            let den = parse_u32_spec(span_text(input, b.span))->0;
            let span = Span { start: a.span.start, end: b.span.end };
            quantity_spec(input, seq![a, slash, b], ext) == if den != 0 {
                (
                    lone_value(
                        ValueView::Number(NumberView::Fraction { whole: 0, num, den }),
                        span,
                    ),
                    Seq::<SourceDiag>::empty(),
                )
            } else {
                (
                    lone_value(ValueView::recover(), span),
                    seq![SourceDiag::error_at(DiagKind::DivisionByZero, span)],
                )
            }
        }),
{
    let tokens = seq![a, slash, b];
    lemma_lone_value(input, tokens, ext);
    lemma_fraction_tokens(input, a, slash, b);
}

/// A mixed number `w a/b`: an integer, whitespace, an integer, `/` and an
/// integer, where the integers fit in 32 bits. With `b` other than zero it
/// parses to the fraction with whole part `w`, numerator `a` and
/// denominator `b`, and nothing is reported. With `b` zero the division by
/// zero is reported, at the span of `a/b`, and the stand-in value takes the
/// place of the number.
pub proof fn law_mixed_number(
    input: Seq<u8>,
    w: Token,
    gap: Token,
    a: Token,
    slash: Token,
    b: Token,
    ext: Extensions,
)
    requires
        w.kind == TokenKind::Int,
        gap.kind == TokenKind::Whitespace,
        a.kind == TokenKind::Int,
        slash.kind == TokenKind::Slash,
        b.kind == TokenKind::Int,
        parse_u32_spec(span_text(input, w.span)) is Some,
        parse_u32_spec(span_text(input, a.span)) is Some,
        parse_u32_spec(span_text(input, b.span)) is Some,
    ensures
        ({
            let whole = parse_u32_spec(span_text(input, w.span))->0;
            let num = parse_u32_spec(span_text(input, a.span))->0;
            let den = parse_u32_spec(span_text(input, b.span))->0;
            let span = Span { start: w.span.start, end: b.span.end };
            quantity_spec(input, seq![w, gap, a, slash, b], ext) == if den != 0 {
                (
                    lone_value(ValueView::Number(NumberView::Fraction { whole, num, den }), span),
                    Seq::<SourceDiag>::empty(),
                )
            } else {
                (
                    lone_value(ValueView::recover(), span),
                    seq![
                        SourceDiag::error_at(
                            DiagKind::DivisionByZero,
                            Span { start: a.span.start, end: b.span.end },
                        ),
                    ],
                )
            }
        }),
{
    let tokens = seq![w, gap, a, slash, b];
    lemma_lone_value(input, tokens, ext);
    lemma_mixed_number_tokens(input, w, gap, a, slash, b);
}

/// Tokens that, whitespace and comments aside, start with an integer with a
/// leading zero are no number.
pub proof fn law_leading_zero_is_no_number(input: Seq<u8>, tokens: Seq<Token>)
    requires
        trim_tokens_spec(tokens).len() > 0,
        trim_tokens_spec(tokens).first().kind == TokenKind::ZeroInt,
    ensures
        number_spec(input, tokens) is None,
        numeric_value_spec(input, tokens) is None,
{
    let trimmed = trim_tokens_spec(tokens);
    let solid = |t: Token| !t.kind.is_blank();
    let rest = trimmed.drop_first();
    assert(seq![trimmed.first()] + rest =~= trimmed);
    rest.lemma_filter_prepend(trimmed.first(), solid);
}

/// An integer with a leading zero, alone, is a text value: the text of the
/// token without the blanks at its ends.
pub proof fn law_leading_zero_is_text(input: Seq<u8>, token: Token, ext: Extensions)
    requires
        token.kind == TokenKind::ZeroInt,
    ensures
        quantity_spec(input, seq![token], ext).0 == lone_value(
            ValueView::Text(trimmed(span_text(input, token.span))),
            token.span,
        ),
{
    let tokens = seq![token];
    lemma_lone_value(input, tokens, ext);
    lemma_trim_nothing(tokens);
    law_leading_zero_is_no_number(input, tokens);
    reveal_with_fuel(tokens_text, 2);
}

/// A number that is read is well formed.
pub proof fn lemma_number_well_formed(input: Seq<u8>, tokens: Seq<Token>)
    ensures
        number_spec(input, tokens) matches Some(Ok(n)) ==> n.wf(),
{
}

/// A value that is read, or stands in for one that could not be read, is
/// well formed.
pub proof fn lemma_value_well_formed(
    input: Seq<u8>,
    tokens: Seq<Token>,
    ext: Extensions,
    offset: usize,
)
    ensures
        parse_value_spec(input, tokens, ext, offset).0.inner.wf(),
{
    let mid = first_minus(tokens);
    lemma_number_well_formed(input, tokens);
    lemma_number_well_formed(input, tokens.subrange(0, mid));
    lemma_number_well_formed(input, tokens.subrange(mid + 1, tokens.len() as int));
    lemma_recover_well_formed();
}

/// The value that stands in for one that could not be read is well formed.
pub proof fn lemma_recover_well_formed()
    ensures
        ValueView::recover().wf(),
{
}

/// The values that are read from a cursor on are well formed.
pub proof fn lemma_values_well_formed(
    input: Seq<u8>,
    tokens: Seq<Token>,
    ext: Extensions,
    cursor: int,
)
    requires
        0 <= cursor <= tokens.len(),
    ensures
        forall|i: int|
            0 <= i < values_from(input, tokens, ext, cursor).values.len() ==> (
            #[trigger] values_from(input, tokens, ext, cursor).values[i]).inner.wf(),
    decreases tokens.len() - cursor,
{
    let stop = first_where(tokens, cursor, |k: TokenKind| is_marker(k));
    lemma_first_where(tokens, cursor, |k: TokenKind| is_marker(k));
    lemma_value_well_formed(
        input,
        tokens.subrange(cursor, stop),
        ext,
        crate::parser::block_parser::offset_at(tokens, stop),
    );
    if crate::parser::block_parser::kind_at(tokens, stop) == TokenKind::Pipe {
        lemma_values_well_formed(input, tokens, ext, stop + 1);
    }
}

/// Whatever the tokens, the quantity that they are read as is well formed:
/// its decimals are made of digits and none of its fractions divides by
/// zero.
pub proof fn law_parsed_quantity_well_formed(input: Seq<u8>, tokens: Seq<Token>, ext: Extensions)
    ensures
        quantity_spec(input, tokens, ext).0.quantity.inner.value.wf(),
{
    lemma_values_well_formed(input, tokens, ext, 0);
    lemma_recover_well_formed();
    if ext.advanced_units && advanced_quantity_spec(input, tokens, ext) is Some {
        let from = first_where(tokens, 0, |k: TokenKind| !k.is_blank());
        let word = first_where(tokens, from, |k: TokenKind| k == TokenKind::Word);
        let before = tokens.subrange(from, word);
        let value_tokens = before.subrange(
            0,
            crate::parser::block_parser::last_where_end(
                before,
                before.len() as int,
                |k: TokenKind| k != TokenKind::Whitespace && k != TokenKind::BlockComment,
            ),
        );
        lemma_value_well_formed(input, value_tokens, ext, 0);
    }
}

} // verus!
