use cooklang::located::Located;
use cooklang::parser::model::QuantityValue;
use cooklang::quantity::{Decimal, Number, Value};
use cooklang::scale::{ScalableValue, ScaleError, Scaling};
use cooklang::span::Span;

fn num(digits: &str) -> Value {
    Value::Number(Number::Regular(
        Decimal::from_digits(digits.as_bytes(), b"").unwrap(),
    ))
}

fn at(value: Value, start: usize, end: usize) -> Located<Value> {
    Located::new(value, Span::new(start, end))
}

#[test]
fn parsed_values_become_scalable_values() {
    assert_eq!(
        ScalableValue::from_parsed(QuantityValue::Single {
            value: at(num("2"), 0, 1),
            auto_scale: None
        }),
        ScalableValue::Fixed(num("2"))
    );
    assert_eq!(
        ScalableValue::from_parsed(QuantityValue::Single {
            value: at(num("2"), 0, 1),
            auto_scale: Some(Span::new(1, 2))
        }),
        ScalableValue::Linear(num("2"))
    );
    assert_eq!(
        ScalableValue::from_parsed(QuantityValue::Many(vec![
            at(num("1"), 0, 1),
            at(num("2"), 2, 3),
            at(Value::Text(b"some".to_vec()), 4, 8),
        ])),
        ScalableValue::ByServings(vec![num("1"), num("2"), Value::Text(b"some".to_vec())])
    );
}

#[test]
fn tiers_select_by_position() {
    let by_servings = ScalableValue::ByServings(vec![num("100"), num("200"), num("300")]);
    assert_eq!(by_servings.at_tier(0, 3), Ok(Scaling::Take(&num("100"))));
    assert_eq!(by_servings.at_tier(2, 3), Ok(Scaling::Take(&num("300"))));
    assert_eq!(
        by_servings.at_tier(3, 3),
        Err(ScaleError::NoSuchTier { tier: 3, tiers: 3 })
    );
    assert_eq!(
        by_servings.at_tier(0, 2),
        Err(ScaleError::TierCountMismatch {
            tiers: 2,
            values: 3
        })
    );
    assert_eq!(
        by_servings.at_tier(5, 4),
        Err(ScaleError::TierCountMismatch {
            tiers: 4,
            values: 3
        })
    );
}

#[test]
fn fixed_and_linear_values_do_not_look_at_tiers() {
    let fixed = ScalableValue::Fixed(num("1"));
    let linear = ScalableValue::Linear(num("1"));
    assert_eq!(fixed.at_tier(7, 2), Ok(Scaling::Take(&num("1"))));
    assert_eq!(linear.at_tier(7, 2), Ok(Scaling::Multiply(&num("1"))));
}

#[test]
fn fractions_with_one_denominator_add_exactly() {
    let half = Number::Fraction {
        whole: 1,
        num: 1,
        den: 2,
    };
    let three_halves = Number::Fraction {
        whole: 0,
        num: 3,
        den: 2,
    };
    assert_eq!(
        half.add_exact(&three_halves),
        Some(Number::Fraction {
            whole: 1,
            num: 4,
            den: 2
        })
    );
    let third = Number::Fraction {
        whole: 0,
        num: 1,
        den: 3,
    };
    assert_eq!(half.add_exact(&third), None);
    let regular = Number::Regular(Decimal::from_digits(b"1", b"5").unwrap());
    assert_eq!(half.add_exact(&regular), None);
    assert_eq!(regular.add_exact(&half), None);
    assert_eq!(regular.add_exact(&regular.clone()), None);
    let large = Number::Fraction {
        whole: u32::MAX,
        num: 0,
        den: 2,
    };
    assert_eq!(large.add_exact(&half), None);
    let many = Number::Fraction {
        whole: 0,
        num: u32::MAX,
        den: 2,
    };
    assert_eq!(many.add_exact(&half), None);
}

#[test]
fn decimal_digits_and_text() {
    assert_eq!(Decimal::from_digits(b"", b""), None);
    assert_eq!(Decimal::from_digits(b"1a", b""), None);
    assert_eq!(Decimal::from_digits(b"1", b"-5"), None);
    let d = Decimal::from_digits(b"10", b"05").unwrap();
    assert_eq!(d.int_digits(), b"10");
    assert_eq!(d.frac_digits(), b"05");
    assert_eq!(d.to_text(), b"10.05");
    assert_eq!(Decimal::one().to_text(), b"1");
    assert_eq!(
        Decimal::from_digits(b"", b"5").unwrap().to_text(),
        b".5"
    );
}
