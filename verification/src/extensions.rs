//! Switches for the optional parts of the grammar and the model.

use vstd::prelude::*;

verus! {

/// The optional features, each on or off.
#[derive(Clone, Copy, Debug, PartialEq, Eq, Structural, Hash)]
pub struct Extensions {
    /// A quantity may be written as a value, a blank and a unit, with no
    /// separator between them.
    pub advanced_units: bool,
    /// A value may be a range, `start-end`.
    pub range_values: bool,
    /// An ingredient may refer to an earlier step or section.
    pub intermediate_preparations: bool,
    /// A timer must have a time.
    pub timer_requires_time: bool,
}

impl Extensions {
    /// Every extension switched on.
    pub fn all() -> (ext: Extensions)
        ensures
            ext.advanced_units,
            ext.range_values,
            ext.intermediate_preparations,
            ext.timer_requires_time,
    {
        Extensions {
            advanced_units: true,
            range_values: true,
            intermediate_preparations: true,
            timer_requires_time: true,
        }
    }

    /// Every extension switched off.
    pub fn empty() -> (ext: Extensions)
        ensures
            !ext.advanced_units,
            !ext.range_values,
            !ext.intermediate_preparations,
            !ext.timer_requires_time,
    {
        Extensions {
            advanced_units: false,
            range_values: false,
            intermediate_preparations: false,
            timer_requires_time: false,
        }
    }

    /// The extensions on in `self` and not in `other`.
    pub fn difference(self, other: Extensions) -> (ext: Extensions)
        ensures
            ext.advanced_units == (self.advanced_units && !other.advanced_units),
            ext.range_values == (self.range_values && !other.range_values),
            ext.intermediate_preparations == (self.intermediate_preparations
                && !other.intermediate_preparations),
            ext.timer_requires_time == (self.timer_requires_time && !other.timer_requires_time),
    {
        Extensions {
            advanced_units: self.advanced_units && !other.advanced_units,
            range_values: self.range_values && !other.range_values,
            intermediate_preparations: self.intermediate_preparations
                && !other.intermediate_preparations,
            timer_requires_time: self.timer_requires_time && !other.timer_requires_time,
        }
    }
}

} // verus!
