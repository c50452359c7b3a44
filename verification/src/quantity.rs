//! Numbers and values of quantities.

use vstd::prelude::*;
use vstd::slice::slice_to_vec;

verus! {

/// An ASCII decimal digit.
pub open spec fn is_digit(b: u8) -> bool {
    48 <= b && b <= 57
}

/// Every byte of `s` is an ASCII decimal digit.
pub open spec fn all_digits(s: Seq<u8>) -> bool {
    forall|i: int| 0 <= i < s.len() ==> is_digit(#[trigger] s[i])
}

/// What a digit stands for; zero for a byte that is no digit.
pub open spec fn digit_value(b: u8) -> nat {
    if is_digit(b) {
        (b - 48) as nat
    } else {
        0
    }
}

/// The number that the digits `s` write in base ten.
pub open spec fn digits_value(s: Seq<u8>) -> nat
    decreases s.len(),
{
    if s.len() == 0 {
        0
    } else {
        digits_value(s.drop_last()) * 10 + digit_value(s.last())
    }
}

/// Ten to the power `n`.
pub open spec fn pow10(n: nat) -> nat
    decreases n,
{
    if n == 0 {
        1
    } else {
        10 * pow10((n - 1) as nat)
    }
}

/// The 32-bit integer that `s` writes: there is one when `s` is a
/// non-empty run of digits whose value fits.
pub open spec fn parse_u32_spec(s: Seq<u8>) -> Option<u32> {
    if s.len() > 0 && all_digits(s) && digits_value(s) <= u32::MAX {
        Some(digits_value(s) as u32)
    } else {
        None
    }
}

/// A longer run of digits writes a number at least as large as its start.
pub proof fn lemma_digits_value_prefix(s: Seq<u8>, n: int)
    requires
        0 <= n <= s.len(),
    ensures
        digits_value(s.subrange(0, n)) <= digits_value(s),
    decreases s.len() - n,
{
    if n == s.len() {
        assert(s.subrange(0, n) =~= s);
    } else {
        lemma_digits_value_prefix(s.drop_last(), n);
        assert(s.drop_last().subrange(0, n) =~= s.subrange(0, n));
    }
}

/// Reads a 32-bit integer written in decimal digits.
pub fn parse_u32(s: &[u8]) -> (value: Option<u32>)
    ensures
        value == parse_u32_spec(s@),
{
    if s.len() == 0 {
        return None;
    }
    let mut acc: u32 = 0;
    let mut i: usize = 0;
    while i < s.len()
        invariant
            i <= s@.len(),
            all_digits(s@.subrange(0, i as int)),
            acc == digits_value(s@.subrange(0, i as int)),
        decreases s@.len() - i,
    {
        let b: u8 = s[i];
        let ghost next = s@.subrange(0, i + 1);
        assert(next.drop_last() =~= s@.subrange(0, i as int));
        if !(48 <= b && b <= 57) {
            return None;
        }
        let d: u32 = (b - 48) as u32;
        if acc > (u32::MAX - d) / 10 {
            proof {
                lemma_digits_value_prefix(s@, i + 1);
            }
            return None;
        }
        acc = acc * 10 + d;
        assert forall|k: int| 0 <= k < next.len() implies is_digit(#[trigger] next[k]) by {
            if k < i {
                assert(next[k] == s@.subrange(0, i as int)[k]);
            }
        }
        i += 1;
    }
    assert(s@.subrange(0, i as int) =~= s@);
    Some(acc)
}

/// A number written in decimal digits: the digits before the point and the
/// digits after it, as they stand in the source. Either run may be empty,
/// not both.
#[derive(Debug, PartialEq, Eq)]
pub struct Decimal {
    int_digits: Vec<u8>,
    frac_digits: Vec<u8>,
}

/// What a [`Decimal`] holds, as a value.
pub struct DecimalView {
    pub int_digits: Seq<u8>,
    pub frac_digits: Seq<u8>,
}

impl DecimalView {
    /// Both runs are made of digits and there is at least one digit.
    pub open spec fn wf(self) -> bool {
        &&& all_digits(self.int_digits)
        &&& all_digits(self.frac_digits)
        &&& self.int_digits.len() + self.frac_digits.len() > 0
    }

    /// All the digits, read as one integer.
    pub open spec fn mantissa(self) -> nat {
        digits_value(self.int_digits + self.frac_digits)
    }

    /// How many of the digits stand after the point. The number is
    /// `mantissa / 10^scale`.
    pub open spec fn scale(self) -> nat {
        self.frac_digits.len()
    }

    /// The number is a whole number equal to `n`.
    pub open spec fn is_integer(self, n: nat) -> bool {
        self.mantissa() == n * pow10(self.scale())
    }

    /// The decimal `1`.
    pub open spec fn one() -> DecimalView {
        DecimalView { int_digits: seq![49u8], frac_digits: Seq::empty() }
    }

    /// The number as text: the digits with a point before the fractional
    /// ones, if there are any.
    pub open spec fn text(self) -> Seq<u8> {
        if self.frac_digits.len() == 0 {
            self.int_digits
        } else {
            self.int_digits + seq![46u8] + self.frac_digits
        }
    }
}

impl View for Decimal {
    type V = DecimalView;

    closed spec fn view(&self) -> DecimalView {
        DecimalView { int_digits: self.int_digits@, frac_digits: self.frac_digits@ }
    }
}

/// Decides [`all_digits`].
pub fn is_all_digits(s: &[u8]) -> (yes: bool)
    ensures
        yes == all_digits(s@),
{
    let mut i: usize = 0;
    while i < s.len()
        invariant
            i <= s@.len(),
            forall|k: int| 0 <= k < i ==> is_digit(#[trigger] s@[k]),
        decreases s@.len() - i,
    {
        let b: u8 = s[i];
        if !(48 <= b && b <= 57) {
            return false;
        }
        i += 1;
    }
    true
}

impl Clone for Decimal {
    fn clone(&self) -> (copy: Decimal)
        ensures
            copy@ == self@,
    {
        Decimal { int_digits: self.int_digits.clone(), frac_digits: self.frac_digits.clone() }
    }
}

impl Decimal {
    /// The decimal with the given digits before and after the point, where
    /// they are digits and at least one is there.
    pub fn from_digits(int_digits: &[u8], frac_digits: &[u8]) -> (decimal: Option<Decimal>)
        ensures
            decimal is Some <==> (DecimalView {
                int_digits: int_digits@,
                frac_digits: frac_digits@,
            }).wf(),
            decimal is Some ==> decimal->0@ == (DecimalView {
                int_digits: int_digits@,
                frac_digits: frac_digits@,
            }),
    {
        if int_digits.len() == 0 && frac_digits.len() == 0 {
            return None;
        }
        if is_all_digits(int_digits) && is_all_digits(frac_digits) {
            Some(Decimal { int_digits: slice_to_vec(int_digits), frac_digits: slice_to_vec(frac_digits) })
        } else {
            None
        }
    }

    /// The decimal `1`.
    pub fn one() -> (decimal: Decimal)
        ensures
            decimal@ == DecimalView::one(),
    {
        let mut int_digits: Vec<u8> = Vec::new();
        int_digits.push(49u8);
        Decimal { int_digits, frac_digits: Vec::new() }
    }

    /// The digits before the point.
    pub fn int_digits(&self) -> (digits: &[u8])
        ensures
            digits@ == self@.int_digits,
    {
        self.int_digits.as_slice()
    }

    /// The digits after the point.
    pub fn frac_digits(&self) -> (digits: &[u8])
        ensures
            digits@ == self@.frac_digits,
    {
        self.frac_digits.as_slice()
    }

    /// The number as text: the digits with a point before the fractional
    /// ones, if there are any.
    pub fn to_text(&self) -> (text: Vec<u8>)
        ensures
            text@ == self@.text(),
    {
        let mut text: Vec<u8> = self.int_digits.clone();
        if self.frac_digits.len() > 0 {
            text.push(46u8);
            text.extend_from_slice(self.frac_digits.as_slice());
        }
        text
    }
}

/// A number: a decimal, or a whole part and a fraction.
#[derive(Debug, PartialEq, Eq)]
pub enum Number {
    /// A number written with decimal digits.
    Regular(Decimal),
    /// `whole + num / den`, with `den` other than zero.
    Fraction { whole: u32, num: u32, den: u32 },
}

/// What a [`Number`] holds, as a value.
pub enum NumberView {
    Regular(DecimalView),
    Fraction { whole: u32, num: u32, den: u32 },
}

impl View for Number {
    type V = NumberView;

    open spec fn view(&self) -> NumberView {
        match self {
            Number::Regular(d) => NumberView::Regular(d@),
            Number::Fraction { whole, num, den } => NumberView::Fraction {
                whole: *whole,
                num: *num,
                den: *den,
            },
        }
    }
}

impl NumberView {
    /// A decimal is made of digits; a fraction does not divide by zero.
    pub open spec fn wf(self) -> bool {
        match self {
            NumberView::Regular(d) => d.wf(),
            NumberView::Fraction { den, .. } => den != 0,
        }
    }
}

impl NumberView {
    /// The sum of two numbers where it can be had without rounding: the
    /// sum of two fractions with the same denominator, whose whole parts
    /// and numerators are added and each fit in 32 bits.
    pub open spec fn add_exact(self, other: NumberView) -> Option<NumberView> {
        match (self, other) {
            (
                NumberView::Fraction { whole: w1, num: n1, den: d1 },
                NumberView::Fraction { whole: w2, num: n2, den: d2 },
            ) => if d1 == d2 && w1 + w2 <= u32::MAX && n1 + n2 <= u32::MAX {
                Some(
                    NumberView::Fraction {
                        whole: (w1 + w2) as u32,
                        num: (n1 + n2) as u32,
                        den: d1,
                    },
                )
            } else {
                None
            },
            _ => None,
        }
    }
}

impl Number {
    /// Adds two numbers where the sum can be had without rounding: two
    /// fractions with the same denominator. `None` where it takes
    /// arithmetic that rounds.
    pub fn add_exact(&self, other: &Number) -> (sum: Option<Number>)
        ensures
            sum is Some <==> self@.add_exact(other@) is Some,
            sum is Some ==> sum->0@ == self@.add_exact(other@)->0,
    {
        match (self, other) {
            (
                Number::Fraction { whole: w1, num: n1, den: d1 },
                Number::Fraction { whole: w2, num: n2, den: d2 },
            ) => {
                if *d1 != *d2 {
                    return None;
                }
                match (w1.checked_add(*w2), n1.checked_add(*n2)) {
                    (Some(whole), Some(num)) => Some(Number::Fraction { whole, num, den: *d1 }),
                    _ => None,
                }
            },
            _ => None,
        }
    }
}

impl Clone for Number {
    fn clone(&self) -> (copy: Number)
        ensures
            copy@ == self@,
    {
        match self {
            Number::Regular(d) => Number::Regular(d.clone()),
            Number::Fraction { whole, num, den } => Number::Fraction {
                whole: *whole,
                num: *num,
                den: *den,
            },
        }
    }
}

/// The value of a quantity: a number, a range of numbers or plain text.
#[derive(Debug, PartialEq, Eq)]
pub enum Value {
    /// One number.
    Number(Number),
    /// Any number from `start` to `end`.
    Range { start: Number, end: Number },
    /// Text that is no number.
    Text(Vec<u8>),
}

/// What a [`Value`] holds, as a value.
pub enum ValueView {
    Number(NumberView),
    Range { start: NumberView, end: NumberView },
    Text(Seq<u8>),
}

impl View for Value {
    type V = ValueView;

    open spec fn view(&self) -> ValueView {
        match self {
            Value::Number(n) => ValueView::Number(n@),
            Value::Range { start, end } => ValueView::Range { start: start@, end: end@ },
            Value::Text(t) => ValueView::Text(t@),
        }
    }
}

impl ValueView {
    /// The value is text.
    pub open spec fn is_text(self) -> bool {
        self is Text
    }

    /// The numbers in the value are well formed.
    pub open spec fn wf(self) -> bool {
        match self {
            ValueView::Number(n) => n.wf(),
            ValueView::Range { start, end } => start.wf() && end.wf(),
            ValueView::Text(_) => true,
        }
    }

    /// The value that stands in for one that could not be read: the number one.
    pub open spec fn recover() -> ValueView {
        ValueView::Number(NumberView::Regular(DecimalView::one()))
    }
}

impl Clone for Value {
    fn clone(&self) -> (copy: Value)
        ensures
            copy@ == self@,
    {
        match self {
            Value::Number(n) => Value::Number(n.clone()),
            Value::Range { start, end } => Value::Range { start: start.clone(), end: end.clone() },
            Value::Text(t) => Value::Text(t.clone()),
        }
    }
}

impl Value {
    /// The value that stands in for one that could not be read: the number one.
    pub fn recover() -> (value: Value)
        ensures
            value@ == ValueView::recover(),
    {
        Value::Number(Number::Regular(Decimal::one()))
    }

    /// True for text, false for a number or a range.
    pub fn is_text(&self) -> (yes: bool)
        ensures
            yes == self@.is_text(),
    {
        match self {
            Value::Text(_) => true,
            _ => false,
        }
    }
}

} // verus!

verus! {

/// A quantity of a recipe: a value and, if one is given, a unit.
#[derive(Debug, PartialEq)]
pub struct Quantity<V> {
    pub value: V,
    pub unit: Option<String>,
}

impl<V> Quantity<V> {
    /// The quantity with the given value and unit.
    pub fn new(value: V, unit: Option<String>) -> (quantity: Quantity<V>)
        ensures
            quantity == (Quantity { value, unit }),
    {
        Quantity { value, unit }
    }

    /// The unit, if the quantity has one.
    pub fn unit(&self) -> (unit: Option<&str>)
        ensures
            unit is Some <==> self.unit is Some,
            unit is Some ==> unit->0@ == self.unit->0@,
    {
        match &self.unit {
            Some(unit) => Some(unit.as_str()),
            None => None,
        }
    }
}

/// `copy` is a clone of `quantity`: its value is a clone and its unit is
/// the same.
pub open spec fn quantity_cloned<V: Clone>(quantity: Quantity<V>, copy: Quantity<V>) -> bool {
    cloned(quantity.value, copy.value) && copy.unit == quantity.unit
}

impl<V: Clone> Clone for Quantity<V> {
    fn clone(&self) -> (copy: Self)
        ensures
            quantity_cloned(*self, copy),
    {
        let unit: Option<String> = match &self.unit {
            Some(unit) => Some(unit.clone()),
            None => None,
        };
        Quantity { value: self.value.clone(), unit }
    }
}

} // verus!
