//! Diagnostics: what the parser reports instead of giving up.

use vstd::prelude::*;
use crate::span::Span;

verus! {

/// How serious a diagnostic is.
#[derive(Clone, Copy, Debug, PartialEq, Eq, Structural, Hash)]
pub enum Severity {
    /// The input is wrong; a substitute value was used.
    Error,
    /// The input is accepted but questionable.
    Warning,
}

/// What went wrong.
#[derive(Clone, Copy, Debug, PartialEq, Eq, Structural, Hash)]
pub enum DiagKind {
    /// A unit separator with nothing but blanks after it.
    EmptyQuantityUnit,
    /// A value with nothing but blanks in it.
    EmptyQuantityValue,
    /// The auto scale marker after more than one value.
    AutoScaleWithManyValues,
    /// A fraction with denominator zero.
    DivisionByZero,
    /// An integer that does not fit in 32 bits or is not made of digits.
    InvalidInteger,
    /// A decimal number that is not made of digits.
    InvalidDecimal,
}

/// A diagnostic: its kind, the span it is about and, for some kinds, a second
/// span that offers another way to mend the input.
#[derive(Clone, Copy, Debug, PartialEq, Eq, Structural, Hash)]
pub struct SourceDiag {
    pub severity: Severity,
    pub kind: DiagKind,
    pub span: Span,
    pub related: Option<Span>,
}

impl DiagKind {
    /// The headline of a diagnostic of this kind.
    pub open spec fn message_text(self) -> Seq<char> {
        match self {
            DiagKind::EmptyQuantityUnit => "Empty quantity unit"@,
            DiagKind::EmptyQuantityValue => "Empty quantity value"@,
            DiagKind::AutoScaleWithManyValues => "Invalid quantity value: auto scale is not compatible with multiple values"@,
            DiagKind::DivisionByZero => "Division by zero"@,
            DiagKind::InvalidInteger => "Error parsing integer number"@,
            DiagKind::InvalidDecimal => "Error parsing decimal number"@,
        }
    }

    /// The text shown at the main span of a diagnostic of this kind, if any.
    pub open spec fn label_text(self) -> Option<Seq<char>> {
        match self {
            DiagKind::EmptyQuantityUnit => Some("add unit here"@),
            DiagKind::EmptyQuantityValue => Some("add value here"@),
            DiagKind::AutoScaleWithManyValues => Some("remove this"@),
            _ => None,
        }
    }

    /// The text shown at the second span of a diagnostic of this kind, if any.
    pub open spec fn related_label_text(self) -> Option<Seq<char>> {
        match self {
            DiagKind::EmptyQuantityUnit => Some("or remove this"@),
            _ => None,
        }
    }

    /// Advice that goes with a diagnostic of this kind, if any.
    pub open spec fn hint_text(self) -> Option<Seq<char>> {
        match self {
            DiagKind::AutoScaleWithManyValues => Some(
                "A quantity cannot have the auto scaling marker (*) and have many values at the same time"@,
            ),
            DiagKind::DivisionByZero => Some(
                "Change this please, we don't want an infinite amount of anything"@,
            ),
            _ => None,
        }
    }
}

impl SourceDiag {
    /// An error of `kind` about `span`.
    pub open spec fn error_at(kind: DiagKind, span: Span) -> SourceDiag {
        SourceDiag { severity: Severity::Error, kind, span, related: None }
    }

    /// The error for a unit separator at `separator` followed by no unit; the
    /// unit was expected at `unit`.
    pub open spec fn empty_unit(unit: Span, separator: Span) -> SourceDiag {
        SourceDiag {
            severity: Severity::Error,
            kind: DiagKind::EmptyQuantityUnit,
            span: unit,
            related: Some(separator),
        }
    }

    /// An error of `kind` about `span`.
    pub fn error(kind: DiagKind, span: Span) -> (diag: SourceDiag)
        ensures
            diag == SourceDiag::error_at(kind, span),
    {
        SourceDiag { severity: Severity::Error, kind, span, related: None }
    }

    /// A warning of `kind` about `span`.
    pub fn warning(kind: DiagKind, span: Span) -> (diag: SourceDiag)
        ensures
            diag == (SourceDiag { severity: Severity::Warning, kind, span, related: None }),
    {
        SourceDiag { severity: Severity::Warning, kind, span, related: None }
    }

    /// Adds a second span to the diagnostic.
    pub fn with_related(self, related: Span) -> (diag: SourceDiag)
        ensures
            diag == (SourceDiag { related: Some(related), ..self }),
    {
        SourceDiag { related: Some(related), ..self }
    }

    /// True for an error, false for a warning.
    pub fn is_error(&self) -> (yes: bool)
        ensures
            yes == (self.severity == Severity::Error),
    {
        match self.severity {
            Severity::Error => true,
            Severity::Warning => false,
        }
    }

    /// True for a warning, false for an error.
    pub fn is_warning(&self) -> (yes: bool)
        ensures
            yes == (self.severity == Severity::Warning),
    {
        !self.is_error()
    }

    /// The headline of the diagnostic.
    pub fn message(&self) -> (text: &'static str)
        ensures
            text@ == self.kind.message_text(),
    {
        match self.kind {
            DiagKind::EmptyQuantityUnit => "Empty quantity unit",
            DiagKind::EmptyQuantityValue => "Empty quantity value",
            DiagKind::AutoScaleWithManyValues => "Invalid quantity value: auto scale is not compatible with multiple values",
            DiagKind::DivisionByZero => "Division by zero",
            DiagKind::InvalidInteger => "Error parsing integer number",
            DiagKind::InvalidDecimal => "Error parsing decimal number",
        }
    }

    /// The text to show at the main span, if the kind has one.
    pub fn label(&self) -> (text: Option<&'static str>)
        ensures
            text is Some <==> self.kind.label_text() is Some,
            text is Some ==> text->0@ == self.kind.label_text()->0,
    {
        match self.kind {
            DiagKind::EmptyQuantityUnit => Some("add unit here"),
            DiagKind::EmptyQuantityValue => Some("add value here"),
            DiagKind::AutoScaleWithManyValues => Some("remove this"),
            _ => None,
        }
    }

    /// The text to show at the second span, if the kind has one.
    pub fn related_label(&self) -> (text: Option<&'static str>)
        ensures
            text is Some <==> self.kind.related_label_text() is Some,
            text is Some ==> text->0@ == self.kind.related_label_text()->0,
    {
        match self.kind {
            DiagKind::EmptyQuantityUnit => Some("or remove this"),
            _ => None,
        }
    }

    /// Advice on how to mend the input, if the kind has any.
    pub fn hint(&self) -> (text: Option<&'static str>)
        ensures
            text is Some <==> self.kind.hint_text() is Some,
            text is Some ==> text->0@ == self.kind.hint_text()->0,
    {
        match self.kind {
            DiagKind::AutoScaleWithManyValues => Some(
                "A quantity cannot have the auto scaling marker (*) and have many values at the same time",
            ),
            DiagKind::DivisionByZero => Some(
                "Change this please, we don't want an infinite amount of anything",
            ),
            _ => None,
        }
    }
}

/// How many of `diags` are errors.
pub open spec fn error_count(diags: Seq<SourceDiag>) -> nat {
    diags.filter(|d: SourceDiag| d.severity == Severity::Error).len()
}

} // verus!
