//! Scaling: from values that still depend on the number of servings to
//! values that do not.

use vstd::prelude::*;
use crate::located::Located;
use crate::model::Recipe;
use crate::parser::model::{located_views, QuantityValue, QuantityValueView};
use crate::quantity::{Value, ValueView};

verus! {

/// A value that may still have to be scaled.
#[derive(Debug, PartialEq)]
pub enum ScalableValue {
    /// The same whatever the servings.
    Fixed(Value),
    /// Grows with the servings: written with the auto scale marker.
    Linear(Value),
    /// One value for each tier of servings that the recipe declares.
    ByServings(Vec<Value>),
}

/// What a [`ScalableValue`] holds, as a value.
pub enum ScalableValueView {
    Fixed(ValueView),
    Linear(ValueView),
    ByServings(Seq<ValueView>),
}

impl View for ScalableValue {
    type V = ScalableValueView;

    open spec fn view(&self) -> ScalableValueView {
        match self {
            ScalableValue::Fixed(v) => ScalableValueView::Fixed(v@),
            ScalableValue::Linear(v) => ScalableValueView::Linear(v@),
            ScalableValue::ByServings(vs) => ScalableValueView::ByServings(
                vs@.map_values(|v: Value| v@),
            ),
        }
    }
}

/// The mark of a recipe that was scaled: the tier of servings chosen.
#[derive(Clone, Copy, Debug, PartialEq, Eq, Structural, Hash)]
pub struct Scaled {
    pub tier: usize,
}

/// A recipe before being scaled
pub type ScalableRecipe = Recipe<(), ScalableValue>;

/// A recipe after being scaled. It cannot be scaled again.
pub type ScaledRecipe = Recipe<Scaled, Value>;

/// Why a value cannot be scaled.
#[derive(Clone, Copy, Debug, PartialEq, Eq, Structural, Hash)]
pub enum ScaleError {
    /// The recipe declares no tier with this number.
    NoSuchTier { tier: usize, tiers: usize },
    /// The value has another number of entries than the recipe has tiers.
    TierCountMismatch { tiers: usize, values: usize },
}

/// What to do with a value to scale it.
#[derive(Debug, PartialEq)]
pub enum Scaling<'a> {
    /// Take this value as it is.
    Take(&'a Value),
    /// Multiply this value by the scale factor.
    Multiply(&'a Value),
}

impl ScalableValueView {
    /// The scalable value that a parsed value stands for: many values are
    /// one for each tier, a single value with the auto scale marker grows
    /// with the servings, and any other value is fixed. Spans are dropped.
    pub open spec fn of_parsed(value: QuantityValueView) -> ScalableValueView {
        match value {
            QuantityValueView::Single { value, auto_scale: None } => ScalableValueView::Fixed(
                value.inner,
            ),
            QuantityValueView::Single { value, auto_scale: Some(_) } => ScalableValueView::Linear(
                value.inner,
            ),
            QuantityValueView::Many(values) => ScalableValueView::ByServings(
                values.map_values(|v: Located<ValueView>| v.inner),
            ),
        }
    }
}

impl ScalableValue {
    /// Turns a parsed value into a scalable value.
    pub fn from_parsed(value: QuantityValue) -> (scalable: ScalableValue)
        ensures
            scalable@ == ScalableValueView::of_parsed(value@),
    {
        match value {
            QuantityValue::Single { value, auto_scale: None } => ScalableValue::Fixed(
                value.into_inner(),
            ),
            QuantityValue::Single { value, auto_scale: Some(_) } => ScalableValue::Linear(
                value.into_inner(),
            ),
            QuantityValue::Many(values) => {
                let mut plain: Vec<Value> = Vec::new();
                let mut i: usize = 0;
                while i < values.len()
                    invariant
                        i <= values@.len(),
                        plain@.len() == i,
                        forall|k: int| 0 <= k < i ==> (#[trigger] plain@[k])@ == values@[k].inner@,
                    decreases values@.len() - i,
                {
                    plain.push(values[i].value().clone());
                    i += 1;
                }
                assert(plain@.map_values(|v: Value| v@) =~= located_views(values@).map_values(
                    |v: Located<ValueView>| v.inner,
                ));
                ScalableValue::ByServings(plain)
            },
        }
    }

    /// What scaling to tier number `tier` of `tiers` does to the value. A
    /// fixed value is taken as it is and a linear one is multiplied. Of a
    /// value by servings the entry at `tier` is taken; it must have as many
    /// entries as there are tiers, and `tier` must be one of them.
    pub open spec fn at_tier_spec(&self, tier: usize, tiers: usize) -> Result<
        Scaling<'_>,
        ScaleError,
    > {
        match self {
            ScalableValue::Fixed(v) => Ok(Scaling::Take(v)),
            ScalableValue::Linear(v) => Ok(Scaling::Multiply(v)),
            ScalableValue::ByServings(vs) => if vs@.len() != tiers {
                Err(ScaleError::TierCountMismatch { tiers, values: vs@.len() as usize })
            } else if tier >= tiers {
                Err(ScaleError::NoSuchTier { tier, tiers })
            } else {
                Ok(Scaling::Take(&vs@[tier as int]))
            },
        }
    }

    /// Decides what scaling to tier number `tier` of `tiers` does to the
    /// value: which value to take, or which to multiply by the factor.
    pub fn at_tier(&self, tier: usize, tiers: usize) -> (scaling: Result<Scaling<'_>, ScaleError>)
        ensures
            scaling == self.at_tier_spec(tier, tiers),
    {
        match self {
            ScalableValue::Fixed(v) => Ok(Scaling::Take(v)),
            ScalableValue::Linear(v) => Ok(Scaling::Multiply(v)),
            ScalableValue::ByServings(vs) => {
                if vs.len() != tiers {
                    Err(ScaleError::TierCountMismatch { tiers, values: vs.len() })
                } else if tier >= tiers {
                    Err(ScaleError::NoSuchTier { tier, tiers })
                } else {
                    Ok(Scaling::Take(&vs[tier]))
                }
            },
        }
    }
}

} // verus!
