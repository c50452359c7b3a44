//! A short inline buffer of tokens.

use vstd::prelude::*;
use smallvec::SmallVec;
use crate::token::Token;

verus! {

/// A buffer for the few tokens of a number: a `SmallVec` with room for four
/// tokens inline.
#[verifier::external_body]
pub struct TokenBuf {
    inner: SmallVec<[Token; 4]>,
}

/// The tokens that a buffer holds, in the order they were pushed.
pub uninterp spec fn buffered(buf: TokenBuf) -> Seq<Token>;

/// `SmallVec::new`: a buffer that holds nothing.
#[verifier::external_body]
pub(crate) fn buf_new() -> (buf: TokenBuf)
    ensures
        buffered(buf) == Seq::<Token>::empty(),
{
    TokenBuf { inner: SmallVec::new() }
}

/// `SmallVec::push`: appends `token`. Asked for only while the buffer holds
/// fewer tokens than fit inline, where the push writes in place and cannot
/// fail to allocate.
#[verifier::external_body]
pub(crate) fn buf_push(buf: &mut TokenBuf, token: Token)
    requires
        buffered(*old(buf)).len() < 4,
    ensures
        buffered(*final(buf)) == buffered(*old(buf)).push(token),
{
    buf.inner.push(token)
}

/// `SmallVec::as_slice`: the tokens held, as a slice.
#[verifier::external_body]
pub(crate) fn buf_as_slice(buf: &TokenBuf) -> (tokens: &[Token])
    ensures
        tokens@ == buffered(*buf),
{
    buf.inner.as_slice()
}

} // verus!
