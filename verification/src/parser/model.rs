//! What the quantity grammar produces.

use vstd::prelude::*;
use crate::located::Located;
use crate::quantity::{Value, ValueView};
use crate::span::Span;
use crate::text::{Text, TextView};

verus! {

/// The value part of a quantity as written: one value, which may carry the
/// auto scale marker, or several values, one for each serving size.
#[derive(Debug, PartialEq)]
pub enum QuantityValue {
    Single { value: Located<Value>, auto_scale: Option<Span> },
    Many(Vec<Located<Value>>),
}

/// What a [`QuantityValue`] holds, as a value.
pub enum QuantityValueView {
    Single { value: Located<ValueView>, auto_scale: Option<Span> },
    Many(Seq<Located<ValueView>>),
}

/// The values of `values`, each with its span.
pub open spec fn located_views(values: Seq<Located<Value>>) -> Seq<Located<ValueView>> {
    values.map_values(|v: Located<Value>| v@)
}

impl View for QuantityValue {
    type V = QuantityValueView;

    open spec fn view(&self) -> QuantityValueView {
        match self {
            QuantityValue::Single { value, auto_scale } => QuantityValueView::Single {
                value: value@,
                auto_scale: *auto_scale,
            },
            QuantityValue::Many(values) => QuantityValueView::Many(located_views(values@)),
        }
    }
}

impl QuantityValueView {
    /// Every number in the value is well formed: a decimal is made of
    /// digits, and no fraction divides by zero.
    pub open spec fn wf(self) -> bool {
        match self {
            QuantityValueView::Single { value, .. } => value.inner.wf(),
            QuantityValueView::Many(values) => forall|i: int|
                0 <= i < values.len() ==> (#[trigger] values[i]).inner.wf(),
        }
    }
}

/// A quantity as written: its value and, if one is given, its unit.
#[derive(Debug, PartialEq)]
pub struct Quantity {
    pub value: QuantityValue,
    pub unit: Option<Text>,
}

/// What a [`Quantity`] holds, as a value.
pub struct QuantityView {
    pub value: QuantityValueView,
    pub unit: Option<TextView>,
}

impl View for Quantity {
    type V = QuantityView;

    open spec fn view(&self) -> QuantityView {
        QuantityView {
            value: self.value@,
            unit: match self.unit {
                Some(unit) => Some(unit@),
                None => None,
            },
        }
    }
}

} // verus!
