//! Values paired with the place in the source they were read from.

use vstd::prelude::*;
use crate::span::Span;

verus! {

/// A value together with the span of source text it was parsed from.
#[derive(Clone, Debug, PartialEq)]
pub struct Located<T> {
    pub inner: T,
    pub span: Span,
}

impl<T: View> View for Located<T> {
    type V = Located<T::V>;

    open spec fn view(&self) -> Located<T::V> {
        Located { inner: self.inner@, span: self.span }
    }
}

impl<T> Located<T> {
    /// Attaches `span` to `inner`.
    pub fn new(inner: T, span: Span) -> (located: Located<T>)
        ensures
            located == (Located { inner, span }),
    {
        Located { inner, span }
    }

    /// The place the value was read from.
    pub fn span(&self) -> (span: Span)
        ensures
            span == self.span,
    {
        self.span
    }

    /// The value, by reference.
    pub fn value(&self) -> (inner: &T)
        ensures
            *inner == self.inner,
    {
        &self.inner
    }

    /// The value, dropping the span.
    pub fn into_inner(self) -> (inner: T)
        ensures
            inner == self.inner,
    {
        self.inner
    }
}

} // verus!
