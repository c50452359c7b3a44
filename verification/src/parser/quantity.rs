//! The grammar of quantities: `value [| value ...] [*] [% unit]`, or a
//! value, a blank and a unit.

use vstd::prelude::*;
use vstd::slice::slice_subrange;
use crate::error::{DiagKind, SourceDiag};
use crate::extensions::Extensions;
use crate::located::Located;
use crate::parser::block_parser::{
    first_where, kind_at, last_where_end, lemma_first_where, lemma_first_where_is,
    lemma_last_where_end, offset_at, tokens_span, tokens_span_spec, BlockParser,
};
use crate::parser::laws::law_parsed_quantity_well_formed;
use crate::parser::model::{located_views, Quantity, QuantityValue, QuantityValueView, QuantityView};
use crate::parser::numeric::{
    numeric_value, numeric_value_spec, range_value, range_value_spec, tokens_within,
};
use crate::quantity::{Value, ValueView};
use crate::span::Span;
use crate::text::{is_blank, trimmed, Text, TextView};
use crate::token::{tokens_ordered, Token, TokenKind};

verus! {

/// A quantity as parsed, with the place of the separator between value and
/// unit, if there was one.
#[derive(Debug, PartialEq)]
pub struct ParsedQuantity {
    pub quantity: Located<Quantity>,
    pub unit_separator: Option<Span>,
}

/// What a [`ParsedQuantity`] holds, as a value.
pub struct ParsedQuantityView {
    pub quantity: Located<QuantityView>,
    pub unit_separator: Option<Span>,
}

impl View for ParsedQuantity {
    type V = ParsedQuantityView;

    open spec fn view(&self) -> ParsedQuantityView {
        ParsedQuantityView { quantity: self.quantity@, unit_separator: self.unit_separator }
    }
}

/// A token that ends a value: `|`, `*` or `%`.
pub open spec fn is_marker(kind: TokenKind) -> bool {
    kind == TokenKind::Pipe || kind == TokenKind::Star || kind == TokenKind::Percent
}

/// The tokens, read as text: the text without the blanks at its ends, and
/// an error at the place of the text where nothing else is left.
pub open spec fn text_value_spec(input: Seq<u8>, tokens: Seq<Token>, offset: usize) -> (
    ValueView,
    Seq<SourceDiag>,
) {
    let text = TextView::of_tokens(input, offset, tokens);
    (
        ValueView::Text(trimmed(text.content)),
        if is_blank(text.content) {
            seq![SourceDiag::error_at(DiagKind::EmptyQuantityValue, text.span())]
        } else {
            Seq::empty()
        },
    )
}

/// What the tokens of one value mean, first as a range, then as a number,
/// last as text. The source stands at `offset` after them. The value runs
/// from the start of its first token, or from `offset` where it has no
/// token, to `offset`. A range or number that cannot be read is reported
/// and replaced.
pub open spec fn parse_value_spec(
    input: Seq<u8>,
    tokens: Seq<Token>,
    ext: Extensions,
    offset: usize,
) -> (Located<ValueView>, Seq<SourceDiag>) {
    let start = if tokens.len() > 0 {
        tokens[0].span.start
    } else {
        offset
    };
    let span = Span { start, end: offset };
    let outcome = match range_value_spec(input, tokens, ext.range_values) {
        Some(r) => Some(r),
        None => numeric_value_spec(input, tokens),
    };
    match outcome {
        Some(Ok(value)) => (Located { inner: value, span }, Seq::empty()),
        Some(Err(e)) => (Located { inner: ValueView::recover(), span }, seq![e]),
        None => (
            Located { inner: text_value_spec(input, tokens, start).0, span },
            text_value_spec(input, tokens, start).1,
        ),
    }
}

/// The values read from the cursor on, what was reported on the way, the
/// place of the auto scale marker and where the cursor stands after them.
pub struct ValuesView {
    pub values: Seq<Located<ValueView>>,
    pub diags: Seq<SourceDiag>,
    pub auto_scale: Option<Span>,
    pub cursor: int,
}

/// The values that start at `cursor`. A value runs up to the next `|`, `*`
/// or `%`, or to the end. After a `|` comes another value. A `*` is read
/// and ends the values; anything else ends them and is left unread.
pub open spec fn values_from(input: Seq<u8>, tokens: Seq<Token>, ext: Extensions, cursor: int) -> ValuesView
    decreases tokens.len() - cursor,
    when 0 <= cursor <= tokens.len()
{
    let stop = first_where(tokens, cursor, |k: TokenKind| is_marker(k));
    let value = parse_value_spec(input, tokens.subrange(cursor, stop), ext, offset_at(tokens, stop));
    if kind_at(tokens, stop) == TokenKind::Pipe {
        proof {
            lemma_first_where(tokens, cursor, |k: TokenKind| is_marker(k));
        }
        let rest = values_from(input, tokens, ext, stop + 1);
        ValuesView {
            values: seq![value.0] + rest.values,
            diags: value.1 + rest.diags,
            auto_scale: rest.auto_scale,
            cursor: rest.cursor,
        }
    } else if kind_at(tokens, stop) == TokenKind::Star {
        ValuesView {
            values: seq![value.0],
            diags: value.1,
            auto_scale: Some(tokens[stop].span),
            cursor: stop + 1,
        }
    } else {
        ValuesView { values: seq![value.0], diags: value.1, auto_scale: None, cursor: stop }
    }
}

/// The value part of a quantity, read from `cursor` on: one value with its
/// auto scale marker, or many values. The marker after many values is
/// reported as an error, after what the values reported. Last comes the
/// place of the cursor after the values.
pub open spec fn many_values_spec(
    input: Seq<u8>,
    tokens: Seq<Token>,
    ext: Extensions,
    cursor: int,
) -> (QuantityValueView, Seq<SourceDiag>, int) {
    let read = values_from(input, tokens, ext, cursor);
    if read.values.len() == 1 {
        (
            QuantityValueView::Single { value: read.values[0], auto_scale: read.auto_scale },
            read.diags,
            read.cursor,
        )
    } else {
        (
            QuantityValueView::Many(read.values),
            match read.auto_scale {
                Some(span) => read.diags.push(
                    SourceDiag::error_at(DiagKind::AutoScaleWithManyValues, span),
                ),
                None => read.diags,
            },
            read.cursor,
        )
    }
}

/// The unit that follows the separator at index `at`: the text of all the
/// tokens after it.
pub open spec fn unit_after(input: Seq<u8>, tokens: Seq<Token>, at: int) -> TextView {
    TextView::of_tokens(input, tokens[at].span.end, tokens.subrange(at + 1, tokens.len() as int))
}

/// A quantity in the regular grammar: values, then `%` and a unit, or the
/// end. Where something else follows the values, all the tokens up to the
/// first `%` are one text value instead, and the unit is looked for after
/// it. A separator with no unit after it is reported, after what the
/// values reported.
pub open spec fn regular_quantity_spec(input: Seq<u8>, tokens: Seq<Token>, ext: Extensions) -> (
    ParsedQuantityView,
    Seq<SourceDiag>,
) {
    let many = many_values_spec(input, tokens, ext, 0);
    let next = kind_at(tokens, many.2);
    let percent = first_where(tokens, many.2, |k: TokenKind| k == TokenKind::Percent);
    let whole = TextView::of_tokens(input, tokens[0].span.start, tokens.subrange(0, percent));
    let value = if next == TokenKind::Percent || next == TokenKind::Eof {
        many.0
    } else {
        QuantityValueView::Single {
            value: Located { inner: ValueView::Text(trimmed(whole.content)), span: whole.span() },
            auto_scale: None,
        }
    };
    let separator: Option<int> = if next == TokenKind::Eof || percent >= tokens.len() {
        None
    } else {
        Some(percent)
    };
    match separator {
        None => (
            ParsedQuantityView {
                quantity: Located {
                    inner: QuantityView { value, unit: None },
                    span: tokens_span_spec(tokens),
                },
                unit_separator: None,
            },
            many.1,
        ),
        Some(at) => (
            ParsedQuantityView {
                quantity: Located {
                    inner: QuantityView { value, unit: Some(unit_after(input, tokens, at)) },
                    span: tokens_span_spec(tokens),
                },
                unit_separator: Some(tokens[at].span),
            },
            if is_blank(unit_after(input, tokens, at).content) {
                many.1.push(
                    SourceDiag::empty_unit(unit_after(input, tokens, at).span(), tokens[at].span),
                )
            } else {
                many.1
            },
        ),
    }
}

/// Where the regular grammar leaves the cursor: after the values where
/// nothing but an end of input follows them, at the end of the block
/// otherwise.
pub open spec fn regular_quantity_end(input: Seq<u8>, tokens: Seq<Token>, ext: Extensions) -> int {
    let after_values = many_values_spec(input, tokens, ext, 0).2;
    if kind_at(tokens, after_values) == TokenKind::Eof {
        after_values
    } else {
        tokens.len() as int
    }
}

/// A quantity in the grammar without a separator: a range or number, a
/// blank, and a unit that starts with a word. `None` where the tokens are
/// not of that shape: where one of them is `|`, `*` or `%`; where nothing
/// stands before the first word, or no whitespace right before it; where
/// there is no word; where what stands before the word is no range and no
/// number. A range or number that cannot be read is reported and replaced.
pub open spec fn advanced_quantity_spec(input: Seq<u8>, tokens: Seq<Token>, ext: Extensions) -> Option<
    (ParsedQuantityView, Seq<SourceDiag>),
> {
    let from = first_where(tokens, 0, |k: TokenKind| !k.is_blank());
    let word = first_where(tokens, from, |k: TokenKind| k == TokenKind::Word);
    let before = tokens.subrange(from, word);
    let value_tokens = before.subrange(
        0,
        last_where_end(
            before,
            before.len() as int,
            |k: TokenKind| k != TokenKind::Whitespace && k != TokenKind::BlockComment,
        ),
    );
    let outcome = match range_value_spec(input, value_tokens, ext.range_values) {
        Some(r) => Some(r),
        None => numeric_value_spec(input, value_tokens),
    };
    let unit = TextView::of_tokens(
        input,
        tokens[word].span.start,
        tokens.subrange(word, tokens.len() as int),
    );
    if first_where(tokens, 0, |k: TokenKind| is_marker(k)) < tokens.len() {
        None
    } else if from >= word || tokens[word - 1].kind != TokenKind::Whitespace {
        None
    } else if word >= tokens.len() {
        None
    } else if outcome is None {
        None
    } else {
        Some(
            (
                ParsedQuantityView {
                    quantity: Located {
                        inner: QuantityView {
                            value: QuantityValueView::Single {
                                value: Located {
                                    inner: match outcome->0 {
                                        Ok(value) => value,
                                        Err(_) => ValueView::recover(),
                                    },
                                    span: tokens_span_spec(value_tokens),
                                },
                                auto_scale: None,
                            },
                            unit: Some(unit),
                        },
                        span: tokens_span_spec(tokens),
                    },
                    unit_separator: None,
                },
                match outcome->0 {
                    Ok(_) => Seq::empty(),
                    Err(e) => seq![e],
                },
            ),
        )
    }
}

/// What the tokens between the braces of a component mean as a quantity,
/// and what is reported on the way: the grammar without a separator where
/// its extension is on and the tokens fit it, the regular grammar otherwise.
pub open spec fn quantity_spec(input: Seq<u8>, tokens: Seq<Token>, ext: Extensions) -> (
    ParsedQuantityView,
    Seq<SourceDiag>,
) {
    if ext.advanced_units && advanced_quantity_spec(input, tokens, ext) is Some {
        advanced_quantity_spec(input, tokens, ext)->0
    } else {
        regular_quantity_spec(input, tokens, ext)
    }
}

/// Reads `tokens` as a text value; reports it where it is empty.
pub fn text_value(tokens: &[Token], offset: usize, bp: &mut BlockParser) -> (value: Value)
    requires
        tokens_within(tokens@, old(bp).input@.len()),
    ensures
        final(bp).same_block(old(bp)),
        final(bp).current == old(bp).current,
        value@ == text_value_spec(old(bp).input@, tokens@, offset).0,
        final(bp).events@ == old(bp).events@ + text_value_spec(old(bp).input@, tokens@, offset).1,
{
    let text: Text = bp.text(offset, tokens);
    if text.is_text_empty() {
        bp.error(SourceDiag::error(DiagKind::EmptyQuantityValue, text.span()));
    }
    Value::Text(text.text_trimmed())
}

/// Reads the tokens of one value, which the parser has just read past.
pub fn parse_value(tokens: &[Token], bp: &mut BlockParser) -> (value: Located<Value>)
    requires
        old(bp).wf(),
        tokens_within(tokens@, old(bp).input@.len()),
    ensures
        final(bp).same_block(old(bp)),
        final(bp).current == old(bp).current,
        value@ == parse_value_spec(
            old(bp).input@,
            tokens@,
            old(bp).extensions,
            offset_at(old(bp).tokens@, old(bp).current as int),
        ).0,
        final(bp).events@ == old(bp).events@ + parse_value_spec(
            old(bp).input@,
            tokens@,
            old(bp).extensions,
            offset_at(old(bp).tokens@, old(bp).current as int),
        ).1,
{
    let end: usize = bp.current_offset();
    let start: usize = if tokens.len() > 0 {
        tokens[0].span.start()
    } else {
        end
    };
    let span = Span::new(start, end);
    let outcome: Option<Result<Value, SourceDiag>> = match range_value(tokens, bp) {
        Some(r) => Some(r),
        None => numeric_value(tokens, bp),
    };
    let val: Value = match outcome {
        Some(Ok(value)) => value,
        Some(Err(err)) => {
            bp.error(err);
            Value::recover()
        },
        None => text_value(tokens, start, bp),
    };
    Located::new(val, span)
}

/// True for a token that ends a value: `|`, `*` or `%`.
fn is_marker_kind(kind: TokenKind) -> (yes: bool)
    ensures
        yes == is_marker(kind),
{
    match kind {
        TokenKind::Pipe | TokenKind::Star | TokenKind::Percent => true,
        _ => false,
    }
}

/// The values read from `cursor` on are at least one, and the cursor ends
/// up at or after `cursor`, within the tokens.
pub proof fn lemma_values_from(input: Seq<u8>, tokens: Seq<Token>, ext: Extensions, cursor: int)
    requires
        0 <= cursor <= tokens.len(),
    ensures
        values_from(input, tokens, ext, cursor).values.len() >= 1,
        cursor <= values_from(input, tokens, ext, cursor).cursor <= tokens.len(),
    decreases tokens.len() - cursor,
{
    let stop = first_where(tokens, cursor, |k: TokenKind| is_marker(k));
    lemma_first_where(tokens, cursor, |k: TokenKind| is_marker(k));
    if kind_at(tokens, stop) == TokenKind::Pipe {
        lemma_values_from(input, tokens, ext, stop + 1);
    }
}

/// Reads the values of a quantity, `|` between them, up to the unit
/// separator, the auto scale marker or the end.
pub fn many_values(bp: &mut BlockParser) -> (value: QuantityValue)
    requires
        old(bp).wf(),
    ensures
        final(bp).wf(),
        final(bp).same_block(old(bp)),
        value@ == many_values_spec(
            old(bp).input@,
            old(bp).tokens@,
            old(bp).extensions,
            old(bp).current as int,
        ).0,
        final(bp).events@ == old(bp).events@ + many_values_spec(
            old(bp).input@,
            old(bp).tokens@,
            old(bp).extensions,
            old(bp).current as int,
        ).1,
        final(bp).current == many_values_spec(
            old(bp).input@,
            old(bp).tokens@,
            old(bp).extensions,
            old(bp).current as int,
        ).2,
{
    let mut values: Vec<Located<Value>> = Vec::new();
    let mut auto_scale: Option<Span> = None;
    let ghost input = bp.input@;
    let ghost tokens = bp.tokens@;
    let ghost ext = bp.extensions;
    let ghost full = values_from(input, tokens, ext, bp.current as int);
    let ghost marker = |k: TokenKind| is_marker(k);

    loop
        invariant_except_break
            full.values == located_views(values@) + values_from(
                input,
                tokens,
                ext,
                bp.current as int,
            ).values,
            old(bp).events@ + full.diags == bp.events@ + values_from(
                input,
                tokens,
                ext,
                bp.current as int,
            ).diags,
            full.auto_scale == values_from(input, tokens, ext, bp.current as int).auto_scale,
            full.cursor == values_from(input, tokens, ext, bp.current as int).cursor,
            auto_scale is None,
        invariant
            bp.wf(),
            bp.same_block(old(bp)),
            input == bp.input@,
            tokens == bp.tokens@,
            ext == bp.extensions,
            marker == (|k: TokenKind| is_marker(k)),
        ensures
            full.values == located_views(values@),
            old(bp).events@ + full.diags == bp.events@,
            full.auto_scale == auto_scale,
            full.cursor == bp.current,
        decreases bp.tokens@.len() - bp.current,
    {
        let ghost cursor = bp.current as int;
        let value_tokens: &[Token] = bp.consume_while(|k: TokenKind| -> (keep: bool)
            ensures keep == !is_marker(k),
        {
            let marker: bool = is_marker_kind(k);
            !marker
        });
        proof {
            lemma_first_where_is(tokens, cursor, marker, bp.current as int);
        }
        values.push(parse_value(value_tokens, bp));

        match bp.peek() {
            TokenKind::Pipe => {
                bp.bump_any();
            },
            TokenKind::Star => {
                let tok: Token = bp.bump_any();
                auto_scale = Some(tok.span);
                break;
            },
            _ => {
                break;
            },
        }
    }

    proof {
        lemma_values_from(input, tokens, ext, old(bp).current as int);
    }
    if values.len() == 1 {
        let value: Located<Value> = values.pop().unwrap();
        QuantityValue::Single { value, auto_scale }
    } else {
        match auto_scale {
            Some(span) => {
                bp.error(SourceDiag::error(DiagKind::AutoScaleWithManyValues, span));
            },
            None => {},
        }
        QuantityValue::Many(values)
    }
}

/// Reads the unit after the separator `sep`, which the parser has just read.
fn unit_text(bp: &mut BlockParser, sep: Token) -> (unit: Text)
    requires
        old(bp).wf(),
        old(bp).current > 0,
        sep == old(bp).tokens@[old(bp).current - 1],
    ensures
        final(bp).wf(),
        final(bp).same_block(old(bp)),
        final(bp).events@ == old(bp).events@,
        final(bp).current == old(bp).tokens@.len(),
        unit@ == unit_after(old(bp).input@, old(bp).tokens@, old(bp).current - 1),
{
    let unit: &[Token] = bp.consume_rest();
    bp.text(sep.span.end(), unit)
}

/// Reads a quantity in the regular grammar, from the start of the block.
pub fn parse_regular_quantity(bp: &mut BlockParser) -> (parsed: ParsedQuantity)
    requires
        old(bp).wf(),
        old(bp).current == 0,
    ensures
        final(bp).wf(),
        final(bp).same_block(old(bp)),
        parsed@ == regular_quantity_spec(old(bp).input@, old(bp).tokens@, old(bp).extensions).0,
        final(bp).events@ == old(bp).events@ + regular_quantity_spec(
            old(bp).input@,
            old(bp).tokens@,
            old(bp).extensions,
        ).1,
        final(bp).current == regular_quantity_end(
            old(bp).input@,
            old(bp).tokens@,
            old(bp).extensions,
        ),
{
    let ghost input = bp.input@;
    let ghost tokens = bp.tokens@;
    let mut value: QuantityValue = many_values(bp);
    let ghost cursor = bp.current as int;
    let ghost percent = |k: TokenKind| k == TokenKind::Percent;
    proof {
        lemma_values_from(input, tokens, bp.extensions, 0);
    }
    let unit: Option<(Span, Text)> = match bp.peek() {
        // the values, then a unit
        TokenKind::Percent => {
            proof {
                lemma_first_where_is(tokens, cursor, percent, cursor);
            }
            let sep: Token = bp.bump_any();
            let unit: Text = unit_text(bp, sep);
            Some((sep.span, unit))
        },
        // the values and no unit
        TokenKind::Eof => None,
        // something else after the values: all of it is text
        _ => {
            bp.consume_while(|k: TokenKind| -> (keep: bool)
                ensures keep == (k != TokenKind::Percent),
            {
                let keep: bool = k != TokenKind::Percent;
                keep
            });
            proof {
                lemma_first_where_is(tokens, cursor, percent, bp.current as int);
            }
            let start: usize = bp.span().start();
            let text: Text = bp.text(start, bp.parsed());
            value =
            QuantityValue::Single {
                value: Located::new(Value::Text(text.text_trimmed()), text.span()),
                auto_scale: None,
            };
            match bp.consume(TokenKind::Percent) {
                Some(sep) => {
                    let unit: Text = unit_text(bp, sep);
                    Some((sep.span, unit))
                },
                None => None,
            }
        },
    };

    let span: Span = tokens_span(bp.tokens());
    match unit {
        Some((sep, unit)) => {
            if unit.is_text_empty() {
                bp.error(SourceDiag::error(DiagKind::EmptyQuantityUnit, unit.span()).with_related(sep));
            }
            ParsedQuantity {
                quantity: Located::new(Quantity { value, unit: Some(unit) }, span),
                unit_separator: Some(sep),
            }
        },
        None => ParsedQuantity {
            quantity: Located::new(Quantity { value, unit: None }, span),
            unit_separator: None,
        },
    }
}

/// True for whitespace and block comments: what may stand between a value
/// and the unit that follows it.
fn is_gap_kind(kind: TokenKind) -> (yes: bool)
    ensures
        yes == (kind == TokenKind::Whitespace || kind == TokenKind::BlockComment),
{
    match kind {
        TokenKind::Whitespace | TokenKind::BlockComment => true,
        _ => false,
    }
}

/// Reads a quantity in the grammar without a separator, from the start of
/// the block. `None` where the tokens are not of that shape; nothing is
/// reported then.
pub fn parse_advanced_quantity(bp: &mut BlockParser) -> (parsed: Option<ParsedQuantity>)
    requires
        old(bp).wf(),
        old(bp).current == 0,
    ensures
        final(bp).wf(),
        final(bp).same_block(old(bp)),
        parsed is Some <==> advanced_quantity_spec(
            old(bp).input@,
            old(bp).tokens@,
            old(bp).extensions,
        ) is Some,
        parsed is None ==> final(bp).events@ == old(bp).events@,
        parsed is Some ==> final(bp).current == old(bp).tokens@.len(),
        parsed is Some ==> parsed->0@ == advanced_quantity_spec(
            old(bp).input@,
            old(bp).tokens@,
            old(bp).extensions,
        ).unwrap().0 && final(bp).events@ == old(bp).events@ + advanced_quantity_spec(
            old(bp).input@,
            old(bp).tokens@,
            old(bp).extensions,
        ).unwrap().1,
{
    let ghost input = bp.input@;
    let ghost tokens = bp.tokens@;
    let ghost marker = |k: TokenKind| is_marker(k);
    let ghost solid = |k: TokenKind| !k.is_blank();
    let ghost is_word = |k: TokenKind| k == TokenKind::Word;
    let ghost no_gap = |k: TokenKind| k != TokenKind::Whitespace && k != TokenKind::BlockComment;

    let all: &[Token] = bp.tokens();
    let mut i: usize = 0;
    while i < all.len()
        invariant
            i <= all@.len(),
            all@ == tokens,
            tokens == old(bp).tokens@,
            bp.wf(),
            bp.same_block(old(bp)),
            bp.events@ == old(bp).events@,
            marker == (|k: TokenKind| is_marker(k)),
            first_where(tokens, 0, marker) == first_where(tokens, i as int, marker),
        decreases all@.len() - i,
    {
        if is_marker_kind(all[i].kind) {
            return None;
        }
        i += 1;
    }

    bp.ws_comments();
    let ghost from = bp.current as int;
    let before: &[Token] = bp.consume_while(|k: TokenKind| -> (keep: bool)
        ensures keep == (k != TokenKind::Word),
    {
        let keep: bool = k != TokenKind::Word;
        keep
    });
    let ghost word = bp.current as int;
    proof {
        lemma_first_where(tokens, 0, solid);
        lemma_first_where_is(tokens, from, is_word, word);
    }
    if before.len() == 0 || before[before.len() - 1].kind != TokenKind::Whitespace {
        return None;
    }
    // the start is trimmed already
    let mut end_pos: usize = before.len();
    while end_pos > 1 && is_gap_kind(before[end_pos - 1].kind)
        invariant
            1 <= end_pos <= before@.len(),
            no_gap == (|k: TokenKind| k != TokenKind::Whitespace && k != TokenKind::BlockComment),
            last_where_end(before@, before@.len() as int, no_gap) == last_where_end(
                before@,
                end_pos as int,
                no_gap,
            ),
        decreases end_pos,
    {
        end_pos -= 1;
    }
    proof {
        lemma_last_where_end(before@, end_pos as int, no_gap, 0);
    }
    let value_tokens: &[Token] = slice_subrange(before, 0, end_pos);

    let unit_tokens: &[Token] = bp.consume_rest();
    if unit_tokens.len() == 0 {
        return None;
    }
    let value_span: Span = tokens_span(value_tokens);

    let outcome: Option<Result<Value, SourceDiag>> = match range_value(value_tokens, bp) {
        Some(r) => Some(r),
        None => numeric_value(value_tokens, bp),
    };
    let value: Value = match outcome {
        None => {
            return None;
        },
        Some(Ok(value)) => value,
        Some(Err(err)) => {
            bp.error(err);
            Value::recover()
        },
    };
    let value: Located<Value> = Located::new(value, value_span);

    let unit: Text = bp.text(unit_tokens[0].span.start(), unit_tokens);
    Some(
        ParsedQuantity {
            quantity: Located::new(
                Quantity {
                    value: QuantityValue::Single { value, auto_scale: None },
                    unit: Some(unit),
                },
                tokens_span(bp.tokens()),
            ),
            unit_separator: None,
        },
    )
}

/// Reads the tokens between the braces of a component as a quantity. The
/// tokens are read in a parser of their own: `bp` only lends its source
/// and extensions and takes what is reported; its cursor stays.
pub fn parse_quantity(bp: &mut BlockParser, tokens: &[Token]) -> (parsed: ParsedQuantity)
    requires
        tokens@.len() > 0,
        tokens_ordered(tokens@, old(bp).input@.len()),
    ensures
        final(bp).same_block(old(bp)),
        final(bp).current == old(bp).current,
        parsed@ == quantity_spec(old(bp).input@, tokens@, old(bp).extensions).0,
        parsed@.quantity.inner.value.wf(),
        final(bp).events@ == old(bp).events@ + quantity_spec(
            old(bp).input@,
            tokens@,
            old(bp).extensions,
        ).1,
{
    proof {
        law_parsed_quantity_well_formed(bp.input@, tokens@, bp.extensions);
    }
    // a parser for the tokens of the quantity alone
    let mut bp2 = BlockParser::new(tokens, bp.input, bp.extensions);

    let advanced: Option<ParsedQuantity> = if bp2.extensions.advanced_units {
        bp2.with_recover(parse_advanced_quantity)
    } else {
        None
    };

    let parsed: ParsedQuantity = match advanced {
        Some(parsed) => parsed,
        None => parse_regular_quantity(&mut bp2),
    };
    bp.report_all(bp2.finish());
    parsed
}

} // verus!
