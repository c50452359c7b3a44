use cooklang::error::{DiagKind, SourceDiag};
use cooklang::extensions::Extensions;
use cooklang::located::Located;
use cooklang::parser::block_parser::BlockParser;
use cooklang::parser::model::{Quantity, QuantityValue};
use cooklang::parser::quantity::parse_quantity;
use cooklang::quantity::{Decimal, Number, Value};
use cooklang::span::Span;
use cooklang::text::Text;
use cooklang::token::{check_tokens, Token, TokenKind};

fn symbol(b: u8) -> Option<TokenKind> {
    Some(match b {
        b'%' => TokenKind::Percent,
        b'|' => TokenKind::Pipe,
        b'*' => TokenKind::Star,
        b'-' => TokenKind::Minus,
        b'/' => TokenKind::Slash,
        b'@' => TokenKind::At,
        b'#' => TokenKind::Hash,
        b'~' => TokenKind::Tilde,
        b'{' => TokenKind::OpenBrace,
        b'}' => TokenKind::CloseBrace,
        b'(' => TokenKind::OpenParen,
        b')' => TokenKind::CloseParen,
        _ => return None,
    })
}

/// Splits `input` into tokens, as a lexer for the markup does.
fn lex(input: &str) -> Vec<Token> {
    let b = input.as_bytes();
    let mut tokens = Vec::new();
    let mut i = 0;
    while i < b.len() {
        let start = i;
        let kind = if b[i] == b' ' || b[i] == b'\t' {
            while i < b.len() && (b[i] == b' ' || b[i] == b'\t') {
                i += 1;
            }
            TokenKind::Whitespace
        } else if b[i] == b'\n' {
            i += 1;
            TokenKind::Newline
        } else if b[i..].starts_with(b"--") {
            while i < b.len() && b[i] != b'\n' {
                i += 1;
            }
            TokenKind::LineComment
        } else if b[i..].starts_with(b"[-") {
            i += 2;
            while i < b.len() && !b[..i].ends_with(b"-]") {
                i += 1;
            }
            TokenKind::BlockComment
        } else if b[i].is_ascii_digit() {
            while i < b.len() && b[i].is_ascii_digit() {
                i += 1;
            }
            if b[start] == b'0' && i - start > 1 {
                TokenKind::ZeroInt
            } else {
                TokenKind::Int
            }
        } else if let Some(kind) = symbol(b[i]) {
            i += 1;
            kind
        } else if b[i].is_ascii_punctuation() {
            i += 1;
            TokenKind::Punctuation
        } else {
            while i < b.len()
                && !b[i].is_ascii_whitespace()
                && !b[i].is_ascii_punctuation()
                && !b[i].is_ascii_digit()
            {
                i += 1;
            }
            TokenKind::Word
        };
        tokens.push(Token::new(kind, start, i));
    }
    tokens
}

fn parse_tokens(
    input: &str,
    tokens: &[Token],
    extensions: Extensions,
) -> (Quantity, Option<Span>, Vec<SourceDiag>) {
    let bytes = input.as_bytes();
    assert!(!tokens.is_empty());
    assert!(check_tokens(tokens, bytes.len()));
    let mut bp = BlockParser::new(tokens, bytes, extensions);
    let q = parse_quantity(&mut bp, tokens);
    bp.consume_rest();
    let events = bp.finish();
    (q.quantity.into_inner(), q.unit_separator, events)
}

fn t(input: &str) -> (Quantity, Option<Span>, Vec<SourceDiag>) {
    t_ext(input, Extensions::all())
}

fn t_ext(input: &str, extensions: Extensions) -> (Quantity, Option<Span>, Vec<SourceDiag>) {
    parse_tokens(input, &lex(input), extensions)
}

fn errors(events: &[SourceDiag]) -> usize {
    events.iter().filter(|d| d.is_error()).count()
}

fn warnings(events: &[SourceDiag]) -> usize {
    events.iter().filter(|d| d.is_warning()).count()
}

fn number_value(n: &Number) -> f64 {
    match n {
        Number::Regular(d) => String::from_utf8(d.to_text()).unwrap().parse::<f64>().unwrap(),
        Number::Fraction { whole, num, den } => *whole as f64 + *num as f64 / *den as f64,
    }
}

/// What a value is expected to be, numbers by what they are worth.
#[derive(Debug)]
enum Expect {
    Num(f64),
    Range(f64, f64),
    Text(&'static str),
}

fn matches_value(value: &Value, expected: &Expect) -> bool {
    match (value, expected) {
        (Value::Number(n), Expect::Num(x)) => number_value(n) == *x,
        (Value::Range { start, end }, Expect::Range(a, b)) => {
            number_value(start) == *a && number_value(end) == *b
        }
        (Value::Text(t), Expect::Text(s)) => t.as_slice() == s.as_bytes(),
        _ => false,
    }
}

fn assert_located(value: &Located<Value>, expected: Expect, start: usize, end: usize) {
    assert!(
        matches_value(value.value(), &expected),
        "{:?} is not {:?}",
        value,
        expected
    );
    assert_eq!(value.span(), Span::new(start, end));
}

fn assert_single(value: &QuantityValue, expected: Expect, start: usize, end: usize) {
    match value {
        QuantityValue::Single { value, auto_scale } => {
            assert_located(value, expected, start, end);
            assert_eq!(*auto_scale, None);
        }
        QuantityValue::Many(_) => panic!("not single value"),
    }
}

fn regular(int_digits: &str, frac_digits: &str) -> Number {
    Number::Regular(Decimal::from_digits(int_digits.as_bytes(), frac_digits.as_bytes()).unwrap())
}

#[test]
fn basic_quantity() {
    let (q, s, _) = t("100%ml");
    assert_single(&q.value, Expect::Num(100.0), 0, 3);
    assert_eq!(s, Some(Span::new(3, 4)));
    assert_eq!(q.unit.unwrap().text(), b"ml");
}

#[test]
fn no_separator_ext() {
    let (q, s, ctx) = t("100 ml");
    assert_single(&q.value, Expect::Num(100.0), 0, 3);
    assert_eq!(s, None);
    assert_eq!(q.unit.unwrap().text(), b"ml");
    assert!(ctx.is_empty());

    let advanced = Extensions {
        advanced_units: true,
        ..Extensions::empty()
    };
    let (q, s, ctx) = t_ext("100 ml", Extensions::all().difference(advanced));
    assert_single(&q.value, Expect::Text("100 ml"), 0, 6);
    assert_eq!(
        q.value,
        QuantityValue::Single {
            value: Located::new(Value::Text(b"100 ml".to_vec()), Span::new(0, 6)),
            auto_scale: None
        }
    );
    assert_eq!(s, None);
    assert_eq!(q.unit, None);
    assert!(ctx.is_empty());
}

#[test]
fn no_separator_range() {
    let (q, s, ctx) = t("100-200 ml");
    assert_single(&q.value, Expect::Range(100.0, 200.0), 0, 7);
    assert_eq!(s, None);
    assert_eq!(q.unit.unwrap().text(), b"ml");
    assert!(ctx.is_empty());

    let (q, s, ctx) = t("1 - 2 1 / 2 ml");
    assert_eq!(
        q.value,
        QuantityValue::Single {
            value: Located::new(
                Value::Range {
                    start: regular("1", ""),
                    end: Number::Fraction {
                        whole: 2,
                        num: 1,
                        den: 2,
                    }
                },
                Span::new(0, 11)
            ),
            auto_scale: None
        }
    );
    assert_single(&q.value, Expect::Range(1.0, 2.5), 0, 11);
    assert_eq!(s, None);
    assert_eq!(q.unit.unwrap().text(), b"ml");
    assert!(ctx.is_empty());
}

#[test]
fn many_values() {
    let (q, s, ctx) = t("100|200|300%ml");
    match &q.value {
        QuantityValue::Many(values) => {
            assert_eq!(values.len(), 3);
            assert_located(&values[0], Expect::Num(100.0), 0, 3);
            assert_located(&values[1], Expect::Num(200.0), 4, 7);
            assert_located(&values[2], Expect::Num(300.0), 8, 11);
        }
        QuantityValue::Single { .. } => panic!("not many values"),
    }
    assert_eq!(s, Some(Span::new(11, 12)));
    assert_eq!(q.unit.unwrap(), Text::from_bytes(b"ml", 12));
    assert!(ctx.is_empty());

    let (q, s, ctx) = t("100|2-3|str*%ml");
    match &q.value {
        QuantityValue::Many(values) => {
            assert_eq!(values.len(), 3);
            assert_located(&values[0], Expect::Num(100.0), 0, 3);
            assert_located(&values[1], Expect::Range(2.0, 3.0), 4, 7);
            assert_located(&values[2], Expect::Text("str"), 8, 11);
        }
        QuantityValue::Single { .. } => panic!("not many values"),
    }
    assert_eq!(s, Some(Span::new(12, 13)));
    assert_eq!(q.unit.unwrap(), Text::from_bytes(b"ml", 13));
    assert_eq!(errors(&ctx), 1);
    assert_eq!(warnings(&ctx), 0);

    let (q, _, ctx) = t("100|");
    match &q.value {
        QuantityValue::Many(values) => {
            assert_eq!(values.len(), 2);
            assert_located(&values[0], Expect::Num(100.0), 0, 3);
            assert_located(&values[1], Expect::Text(""), 4, 4);
        }
        QuantityValue::Single { .. } => panic!("not many values"),
    }
    assert_eq!(errors(&ctx), 1);
    assert_eq!(warnings(&ctx), 0);
}

#[test]
fn range_value() {
    let (q, _, _) = t("2-3");
    assert_single(&q.value, Expect::Range(2.0, 3.0), 0, 3);
    assert_eq!(q.unit, None);
}

#[test]
fn range_value_no_extension() {
    let (q, _, _) = t_ext("2-3", Extensions::empty());
    assert_single(&q.value, Expect::Text("2-3"), 0, 3);
    assert_eq!(q.unit, None);
}

#[test]
fn range_mixed_value() {
    let (q, _, _) = t("2 1/2-3");
    assert_single(&q.value, Expect::Range(2.5, 3.0), 0, 7);
    assert_eq!(q.unit, None);

    let (q, _, _) = t("2-3 1/2");
    assert_single(&q.value, Expect::Range(2.0, 3.5), 0, 7);
    assert_eq!(q.unit, None);

    let (q, _, _) = t("2 1/2-3 1/2");
    assert_single(&q.value, Expect::Range(2.5, 3.5), 0, 11);
    assert_eq!(q.unit, None);
}

fn fractional_val(s: &str) -> Option<(u32, u32, u32)> {
    let (q, _, _) = t(s);
    match q.value {
        QuantityValue::Single { value, .. } => match value.into_inner() {
            Value::Number(Number::Fraction { whole, num, den }) => Some((whole, num, den)),
            _ => None,
        },
        QuantityValue::Many(_) => None,
    }
}

#[test]
fn fractional_val_fraction() {
    assert_eq!(fractional_val("1/2"), Some((0, 1, 2)));
}

#[test]
fn fractional_val_zero_whole() {
    assert_eq!(fractional_val("0 1/2"), Some((0, 1, 2)));
}

#[test]
fn fractional_val_bad_fraction() {
    assert_eq!(fractional_val("01/2"), None);
    let (q, _, ctx) = t("01/2");
    assert_single(&q.value, Expect::Text("01/2"), 0, 4);
    assert!(ctx.is_empty());
}

#[test]
fn fractional_val_mixed_value() {
    assert_eq!(fractional_val("2 1/2"), Some((2, 1, 2)));
}

fn simple_number(s: &str) -> Option<f64> {
    let (q, _, r) = t(s);
    assert!(r.is_empty(), "source error");
    match q.value {
        QuantityValue::Single { value, .. } => match value.into_inner() {
            Value::Number(n @ Number::Regular(_)) => Some(number_value(&n)),
            _ => None,
        },
        QuantityValue::Many(_) => None,
    }
}

#[test]
fn simple_numbers() {
    assert_eq!(simple_number("1"), Some(1.0));
    assert_eq!(simple_number("1.0"), Some(1.0));
    assert_eq!(simple_number("10"), Some(10.0));
    assert_eq!(simple_number("10.0000000"), Some(10.0));
    assert_eq!(simple_number("10.05"), Some(10.05));
    assert_eq!(simple_number("01"), None);
    assert_eq!(simple_number("01.0"), None);
}

#[test]
fn plain_integer_keeps_its_digits() {
    let (q, s, ctx) = t("340282366920938463463374607431768211456");
    assert_eq!(
        q.value,
        QuantityValue::Single {
            value: Located::new(
                Value::Number(regular("340282366920938463463374607431768211456", "")),
                Span::new(0, 39)
            ),
            auto_scale: None
        }
    );
    assert_eq!(s, None);
    assert_eq!(q.unit, None);
    assert!(ctx.is_empty());
}

#[test]
fn decimal_without_integer_part() {
    let (q, _, ctx) = t(".5");
    assert_eq!(
        q.value,
        QuantityValue::Single {
            value: Located::new(Value::Number(regular("", "5")), Span::new(0, 2)),
            auto_scale: None
        }
    );
    assert_single(&q.value, Expect::Num(0.5), 0, 2);
    assert!(ctx.is_empty());
}

#[test]
fn leading_zero_is_text() {
    let (q, _, ctx) = t("01");
    assert_eq!(
        q.value,
        QuantityValue::Single {
            value: Located::new(Value::Text(b"01".to_vec()), Span::new(0, 2)),
            auto_scale: None
        }
    );
    assert!(ctx.is_empty());
}

#[test]
fn division_by_zero_is_reported() {
    let (q, _, ctx) = t("1/0");
    assert_eq!(
        ctx,
        vec![SourceDiag::error(DiagKind::DivisionByZero, Span::new(0, 3))]
    );
    assert_eq!(
        ctx[0].hint(),
        Some("Change this please, we don't want an infinite amount of anything")
    );
    assert_eq!(
        q.value,
        QuantityValue::Single {
            value: Located::new(Value::recover(), Span::new(0, 3)),
            auto_scale: None
        }
    );
    assert_single(&q.value, Expect::Num(1.0), 0, 3);
}

#[test]
fn division_by_zero_in_mixed_number() {
    let (q, _, ctx) = t("2 1/0%kg");
    assert_eq!(
        ctx,
        vec![SourceDiag::error(DiagKind::DivisionByZero, Span::new(2, 5))]
    );
    assert_single(&q.value, Expect::Num(1.0), 0, 5);
    assert_eq!(q.unit.unwrap().text(), b"kg");
}

#[test]
fn integer_too_large_is_reported() {
    let (q, _, ctx) = t("4294967296/2");
    assert_eq!(
        ctx,
        vec![SourceDiag::error(DiagKind::InvalidInteger, Span::new(0, 10))]
    );
    assert_eq!(ctx[0].message(), "Error parsing integer number");
    assert_single(&q.value, Expect::Num(1.0), 0, 12);

    assert_eq!(fractional_val("4294967295/2"), Some((0, 4294967295, 2)));
}

#[test]
fn decimal_not_made_of_digits_is_reported() {
    // a token that claims to be an integer and is none
    let input = "1x";
    let tokens = [Token::new(TokenKind::Int, 0, 2)];
    let (q, _, ctx) = parse_tokens(input, &tokens, Extensions::all());
    assert_eq!(
        ctx,
        vec![SourceDiag::error(DiagKind::InvalidDecimal, Span::new(0, 2))]
    );
    assert_eq!(ctx[0].message(), "Error parsing decimal number");
    assert_single(&q.value, Expect::Num(1.0), 0, 2);
}

#[test]
fn empty_unit_is_reported() {
    let (q, s, ctx) = t("100%");
    assert_eq!(
        ctx,
        vec![
            SourceDiag::error(DiagKind::EmptyQuantityUnit, Span::new(4, 4))
                .with_related(Span::new(3, 4))
        ]
    );
    assert_eq!(ctx[0].message(), "Empty quantity unit");
    assert_eq!(ctx[0].label(), Some("add unit here"));
    assert_eq!(ctx[0].related_label(), Some("or remove this"));
    assert_single(&q.value, Expect::Num(100.0), 0, 3);
    assert_eq!(s, Some(Span::new(3, 4)));
    assert_eq!(q.unit.unwrap(), Text::empty(4));
}

#[test]
fn empty_value_is_reported() {
    let (q, _, ctx) = t("100|");
    assert_eq!(
        ctx,
        vec![SourceDiag::error(
            DiagKind::EmptyQuantityValue,
            Span::new(4, 4)
        )]
    );
    assert_eq!(ctx[0].message(), "Empty quantity value");
    assert_eq!(ctx[0].label(), Some("add value here"));
    assert!(matches!(q.value, QuantityValue::Many(_)));
}

#[test]
fn auto_scale_with_many_values_is_reported() {
    let (q, s, ctx) = t("1|str*");
    assert_eq!(
        ctx,
        vec![SourceDiag::error(
            DiagKind::AutoScaleWithManyValues,
            Span::new(5, 6)
        )]
    );
    assert_eq!(
        ctx[0].message(),
        "Invalid quantity value: auto scale is not compatible with multiple values"
    );
    assert_eq!(ctx[0].label(), Some("remove this"));
    assert!(ctx[0].hint().is_some());
    match &q.value {
        QuantityValue::Many(values) => {
            assert_eq!(values.len(), 2);
            assert_located(&values[0], Expect::Num(1.0), 0, 1);
            assert_located(&values[1], Expect::Text("str"), 2, 5);
        }
        QuantityValue::Single { .. } => panic!("not many values"),
    }
    assert_eq!(s, None);
    assert_eq!(q.unit, None);
}

#[test]
fn auto_scale_on_a_single_value() {
    let (q, s, ctx) = t("2*%kg");
    match &q.value {
        QuantityValue::Single { value, auto_scale } => {
            assert_located(value, Expect::Num(2.0), 0, 1);
            assert_eq!(*auto_scale, Some(Span::new(1, 2)));
        }
        QuantityValue::Many(_) => panic!("not single value"),
    }
    assert_eq!(s, Some(Span::new(2, 3)));
    assert_eq!(q.unit.unwrap(), Text::from_bytes(b"kg", 3));
    assert!(ctx.is_empty());
}

#[test]
fn text_after_auto_scale_makes_all_of_it_text() {
    let (q, s, ctx) = t("2*3%kg");
    assert_single(&q.value, Expect::Text("2*3"), 0, 3);
    assert_eq!(s, Some(Span::new(3, 4)));
    assert_eq!(q.unit.unwrap(), Text::from_bytes(b"kg", 4));
    assert!(ctx.is_empty());

    let (q, s, ctx) = t("2*3");
    assert_single(&q.value, Expect::Text("2*3"), 0, 3);
    assert_eq!(s, None);
    assert_eq!(q.unit, None);
    assert!(ctx.is_empty());
}

#[test]
fn comments_are_left_out_of_text() {
    let (q, s, ctx) = t("a [- note -]pinch%of [- x -]salt");
    assert_single(&q.value, Expect::Text("a pinch"), 0, 17);
    assert_eq!(s, Some(Span::new(17, 18)));
    let unit = q.unit.unwrap();
    assert_eq!(unit.text(), b"of salt");
    assert_eq!(unit.span(), Span::new(18, 32));
    assert!(ctx.is_empty());
}

#[test]
fn spaces_and_comments_inside_a_mixed_number() {
    assert_eq!(fractional_val(" 3 [- three -] 1 / 4 "), Some((3, 1, 4)));
    // more than one number is no number
    assert_eq!(fractional_val("3 1 1/4"), None);
    let (q, _, _) = t("3 1 1 1 1/4");
    assert_single(&q.value, Expect::Text("3 1 1 1 1/4"), 0, 11);
}

#[test]
fn advanced_units_need_a_blank_before_the_unit() {
    let (q, s, ctx) = t("100ml");
    assert_single(&q.value, Expect::Text("100ml"), 0, 5);
    assert_eq!(s, None);
    assert_eq!(q.unit, None);
    assert!(ctx.is_empty());
}

#[test]
fn advanced_units_report_a_bad_number() {
    let (q, s, ctx) = t("1/0 ml");
    assert_eq!(
        ctx,
        vec![SourceDiag::error(DiagKind::DivisionByZero, Span::new(0, 3))]
    );
    assert_single(&q.value, Expect::Num(1.0), 0, 3);
    assert_eq!(s, None);
    assert_eq!(q.unit.unwrap(), Text::from_bytes(b"ml", 4));
}

#[test]
fn advanced_units_give_way_to_a_text_value() {
    let (q, s, ctx) = t("some ml");
    assert_single(&q.value, Expect::Text("some ml"), 0, 7);
    assert_eq!(s, None);
    assert_eq!(q.unit, None);
    assert!(ctx.is_empty());
}

#[test]
fn outer_parser_keeps_its_place_and_gets_the_errors() {
    let input = "1/0";
    let tokens = lex(input);
    let mut bp = BlockParser::new(&tokens, input.as_bytes(), Extensions::all());
    bp.bump_any();
    let _ = parse_quantity(&mut bp, &tokens);
    let _ = parse_quantity(&mut bp, &tokens);
    assert_eq!(bp.current_offset(), 1);
    assert_eq!(bp.peek(), TokenKind::Slash);
    assert_eq!(bp.finish().len(), 2);
}
