//! A cursor over the tokens of one block.

use vstd::prelude::*;
use vstd::slice::slice_subrange;
use crate::error::SourceDiag;
use crate::extensions::Extensions;
use crate::span::Span;
use crate::text::{span_text, Text, TextView};
use crate::token::{tokens_ordered, Token, TokenKind};

verus! {

/// Index of the first token at or after `from` whose kind meets `stop`, or
/// the number of tokens where there is none.
pub open spec fn first_where(tokens: Seq<Token>, from: int, stop: spec_fn(TokenKind) -> bool) -> int
    decreases tokens.len() - from,
{
    if from < 0 || from >= tokens.len() {
        tokens.len() as int
    } else if stop(tokens[from].kind) {
        from
    } else {
        first_where(tokens, from + 1, stop)
    }
}

/// One past the index of the last token before `to` whose kind meets
/// `keep`, or zero where there is none.
pub open spec fn last_where_end(tokens: Seq<Token>, to: int, keep: spec_fn(TokenKind) -> bool) -> int
    decreases to,
{
    if to <= 0 || to > tokens.len() {
        0
    } else if keep(tokens[to - 1].kind) {
        to
    } else {
        last_where_end(tokens, to - 1, keep)
    }
}

/// The kind of the token at `at`, or [`TokenKind::Eof`] past the last token.
pub open spec fn kind_at(tokens: Seq<Token>, at: int) -> TokenKind {
    if 0 <= at < tokens.len() {
        tokens[at].kind
    } else {
        TokenKind::Eof
    }
}

/// Where the source stands once the first `at` tokens are read: the end of
/// the last of them, or the start of the block when none is read yet.
pub open spec fn offset_at(tokens: Seq<Token>, at: int) -> usize {
    if 0 < at <= tokens.len() {
        tokens[at - 1].span.end
    } else if tokens.len() > 0 {
        tokens[0].span.start
    } else {
        0
    }
}

/// The span from the start of the first token to the end of the last.
pub open spec fn tokens_span_spec(tokens: Seq<Token>) -> Span {
    Span { start: tokens.first().span.start, end: tokens.last().span.end }
}

/// The span from the start of the first token to the end of the last.
pub fn tokens_span(tokens: &[Token]) -> (span: Span)
    requires
        tokens@.len() > 0,
    ensures
        span == tokens_span_spec(tokens@),
{
    Span { start: tokens[0].span.start, end: tokens[tokens.len() - 1].span.end }
}

/// `first_where` answers with an index from `from` on, at most the number
/// of tokens; no token between `from` and the answer meets `stop`, and the
/// token at the answer, if there is one, does.
pub proof fn lemma_first_where(tokens: Seq<Token>, from: int, stop: spec_fn(TokenKind) -> bool)
    requires
        0 <= from <= tokens.len(),
    ensures
        from <= first_where(tokens, from, stop) <= tokens.len(),
        forall|k: int|
            from <= k < first_where(tokens, from, stop) ==> !stop((#[trigger] tokens[k]).kind),
        first_where(tokens, from, stop) < tokens.len() ==> stop(
            tokens[first_where(tokens, from, stop)].kind,
        ),
    decreases tokens.len() - from,
{
    if from < tokens.len() && !stop(tokens[from].kind) {
        lemma_first_where(tokens, from + 1, stop);
    }
}

/// The one index from `from` on that no token whose kind meets `stop`
/// stands before, and that either is the number of tokens or has such a
/// token, is what `first_where` answers.
pub proof fn lemma_first_where_is(
    tokens: Seq<Token>,
    from: int,
    stop: spec_fn(TokenKind) -> bool,
    at: int,
)
    requires
        0 <= from <= at <= tokens.len(),
        forall|k: int| from <= k < at ==> !stop((#[trigger] tokens[k]).kind),
        at < tokens.len() ==> stop(tokens[at].kind),
    ensures
        first_where(tokens, from, stop) == at,
    decreases at - from,
{
    if from < at {
        lemma_first_where_is(tokens, from + 1, stop, at);
    }
}

/// `last_where_end` answers with an index up to `to`, with one past any
/// token before `to` whose kind meets `keep`, and, unless it answers zero,
/// with one past a token whose kind meets `keep`.
pub proof fn lemma_last_where_end(
    tokens: Seq<Token>,
    to: int,
    keep: spec_fn(TokenKind) -> bool,
    at: int,
)
    requires
        0 <= to <= tokens.len(),
    ensures
        0 <= last_where_end(tokens, to, keep) <= to,
        0 <= at < to && keep(tokens[at].kind) ==> at < last_where_end(tokens, to, keep),
        last_where_end(tokens, to, keep) > 0 ==> keep(
            tokens[last_where_end(tokens, to, keep) - 1].kind,
        ),
    decreases to,
{
    if to > 0 && !keep(tokens[to - 1].kind) {
        lemma_last_where_end(tokens, to - 1, keep, at);
    }
}

/// A cursor over the tokens of one block of source text. It reads tokens
/// from the front, gathers diagnostics and never gives up on an error.
pub struct BlockParser<'t, 'i> {
    /// The tokens of the block.
    pub tokens: &'t [Token],
    /// How many of the tokens are read.
    pub current: usize,
    /// The whole source text; the spans of the tokens point into it.
    pub input: &'i [u8],
    /// The diagnostics reported so far, oldest first.
    pub events: Vec<SourceDiag>,
    /// The extensions in force.
    pub extensions: Extensions,
}

impl<'t, 'i> BlockParser<'t, 'i> {
    /// The block has a token, the tokens lie in the source in order, and the
    /// cursor is at one of them or just past the last.
    pub open spec fn wf(&self) -> bool {
        &&& self.tokens@.len() > 0
        &&& self.current <= self.tokens@.len()
        &&& tokens_ordered(self.tokens@, self.input@.len())
    }

    /// The same block, source and extensions as `before`, whatever the cursor
    /// and the diagnostics.
    pub open spec fn same_block(&self, before: &BlockParser<'t, 'i>) -> bool {
        &&& self.tokens@ == before.tokens@
        &&& self.input@ == before.input@
        &&& self.extensions == before.extensions
    }

    /// A parser at the start of `tokens`, with no diagnostics yet.
    pub fn new(tokens: &'t [Token], input: &'i [u8], extensions: Extensions) -> (bp: Self)
        requires
            tokens@.len() > 0,
            tokens_ordered(tokens@, input@.len()),
        ensures
            bp.wf(),
            bp.tokens@ == tokens@,
            bp.input@ == input@,
            bp.extensions == extensions,
            bp.current == 0,
            bp.events@ == Seq::<SourceDiag>::empty(),
    {
        BlockParser { tokens, current: 0, input, events: Vec::new(), extensions }
    }

    /// All the tokens of the block.
    pub fn tokens(&self) -> (tokens: &'t [Token])
        ensures
            tokens@ == self.tokens@,
    {
        self.tokens
    }

    /// The tokens read so far.
    pub fn parsed(&self) -> (tokens: &'t [Token])
        requires
            self.wf(),
        ensures
            tokens@ == self.tokens@.subrange(0, self.current as int),
    {
        slice_subrange(self.tokens, 0, self.current)
    }

    /// The span of the whole block.
    pub fn span(&self) -> (span: Span)
        requires
            self.wf(),
        ensures
            span == tokens_span_spec(self.tokens@),
    {
        tokens_span(self.tokens)
    }

    /// Where the source stands: the end of the last token read, or the start
    /// of the block when none is read yet.
    pub fn current_offset(&self) -> (offset: usize)
        requires
            self.wf(),
        ensures
            offset == offset_at(self.tokens@, self.current as int),
    {
        if self.current > 0 {
            self.tokens[self.current - 1].span.end
        } else {
            self.tokens[0].span.start
        }
    }

    /// The kind of the next token, [`TokenKind::Eof`] at the end of the block.
    pub fn peek(&self) -> (kind: TokenKind)
        requires
            self.wf(),
        ensures
            kind == kind_at(self.tokens@, self.current as int),
    {
        if self.current < self.tokens.len() {
            self.tokens[self.current].kind
        } else {
            TokenKind::Eof
        }
    }

    /// Reads the next token, whatever it is.
    pub fn bump_any(&mut self) -> (token: Token)
        requires
            old(self).wf(),
            old(self).current < old(self).tokens@.len(),
        ensures
            final(self).wf(),
            final(self).same_block(old(self)),
            final(self).events@ == old(self).events@,
            final(self).current == old(self).current + 1,
            token == old(self).tokens@[old(self).current as int],
    {
        let token: Token = self.tokens[self.current];
        self.current = self.current + 1;
        token
    }

    /// Reads the next token if it is of `kind`.
    pub fn consume(&mut self, kind: TokenKind) -> (token: Option<Token>)
        requires
            old(self).wf(),
        ensures
            final(self).wf(),
            final(self).same_block(old(self)),
            final(self).events@ == old(self).events@,
            token is Some <==> (old(self).current < old(self).tokens@.len() && kind_at(
                old(self).tokens@,
                old(self).current as int,
            ) == kind),
            token is Some ==> token->0 == old(self).tokens@[old(self).current as int]
                && final(self).current == old(self).current + 1,
            token is None ==> final(self).current == old(self).current,
    {
        if self.current < self.tokens.len() && self.tokens[self.current].kind == kind {
            Some(self.bump_any())
        } else {
            None
        }
    }

    /// Reads tokens for as long as `keep` holds of their kind, and hands back
    /// the tokens read.
    pub fn consume_while<F: Fn(TokenKind) -> bool>(&mut self, keep: F) -> (tokens: &'t [Token])
        requires
            old(self).wf(),
            forall|k: TokenKind| #[trigger] keep.requires((k,)),
        ensures
            final(self).wf(),
            final(self).same_block(old(self)),
            final(self).events@ == old(self).events@,
            old(self).current <= final(self).current,
            tokens@ == old(self).tokens@.subrange(
                old(self).current as int,
                final(self).current as int,
            ),
            forall|i: int|
                old(self).current <= i < final(self).current ==> keep.ensures(
                    ((#[trigger] old(self).tokens@[i]).kind,),
                    true,
                ),
            final(self).current < old(self).tokens@.len() ==> keep.ensures(
                (old(self).tokens@[final(self).current as int].kind,),
                false,
            ),
    {
        let start: usize = self.current;
        loop
            invariant
                self.wf(),
                self.same_block(old(self)),
                self.events@ == old(self).events@,
                start <= self.current,
                start == old(self).current,
                forall|k: TokenKind| #[trigger] keep.requires((k,)),
                forall|i: int|
                    start <= i < self.current ==> keep.ensures(
                        ((#[trigger] self.tokens@[i]).kind,),
                        true,
                    ),
            ensures
                self.current < self.tokens@.len() ==> keep.ensures(
                    (self.tokens@[self.current as int].kind,),
                    false,
                ),
            decreases self.tokens@.len() - self.current,
        {
            if self.current >= self.tokens.len() {
                break;
            }
            if !keep(self.tokens[self.current].kind) {
                break;
            }
            self.current = self.current + 1;
        }
        slice_subrange(self.tokens, start, self.current)
    }

    /// Reads the whitespace and comments that come next and hands them back.
    pub fn ws_comments(&mut self) -> (tokens: &'t [Token])
        requires
            old(self).wf(),
        ensures
            final(self).wf(),
            final(self).same_block(old(self)),
            final(self).events@ == old(self).events@,
            final(self).current == first_where(
                old(self).tokens@,
                old(self).current as int,
                |k: TokenKind| !k.is_blank(),
            ),
            tokens@ == old(self).tokens@.subrange(
                old(self).current as int,
                final(self).current as int,
            ),
    {
        let start: usize = self.current;
        let ghost stop = |k: TokenKind| !k.is_blank();
        while self.current < self.tokens.len() && is_blank_kind(self.tokens[self.current].kind)
            invariant
                self.wf(),
                self.same_block(old(self)),
                self.events@ == old(self).events@,
                start <= self.current,
                start == old(self).current,
                stop == (|k: TokenKind| !k.is_blank()),
                first_where(self.tokens@, start as int, stop) == first_where(
                    self.tokens@,
                    self.current as int,
                    stop,
                ),
            decreases self.tokens@.len() - self.current,
        {
            self.current = self.current + 1;
        }
        slice_subrange(self.tokens, start, self.current)
    }

    /// Reads all the tokens that are left and hands them back.
    pub fn consume_rest(&mut self) -> (tokens: &'t [Token])
        requires
            old(self).wf(),
        ensures
            final(self).wf(),
            final(self).same_block(old(self)),
            final(self).events@ == old(self).events@,
            final(self).current == old(self).tokens@.len(),
            tokens@ == old(self).tokens@.subrange(
                old(self).current as int,
                old(self).tokens@.len() as int,
            ),
    {
        let start: usize = self.current;
        self.current = self.tokens.len();
        slice_subrange(self.tokens, start, self.current)
    }

    /// The text of `tokens`, comments left out, for a text that starts at `offset`.
    pub fn text(&self, offset: usize, tokens: &[Token]) -> (text: Text)
        requires
            forall|i: int|
                0 <= i < tokens@.len() ==> (#[trigger] tokens@[i]).span.within(self.input@.len()),
        ensures
            text@ == TextView::of_tokens(self.input@, offset, tokens@),
    {
        Text::from_tokens(self.input, offset, tokens)
    }

    /// The bytes of the source that `token` covers.
    pub fn token_str(&self, token: Token) -> (bytes: &'i [u8])
        requires
            token.span.within(self.input@.len()),
        ensures
            bytes@ == span_text(self.input@, token.span),
    {
        slice_subrange(self.input, token.span.start, token.span.end)
    }

    /// Runs the attempt `f` on the parser. Where `f` gives up and answers
    /// `None`, the cursor goes back to where it stood, so that what `f` has
    /// read is read again; what `f` has reported stays. The attempt must
    /// be one that may run on the parser as it stands, and that keeps to
    /// the block.
    pub fn with_recover<O, F: FnOnce(&mut BlockParser<'t, 'i>) -> Option<O>>(&mut self, f: F) -> (out:
        Option<O>)
        requires
            old(self).wf(),
            forall|b: &mut BlockParser<'t, 'i>| *b == *old(self) ==> #[trigger] f.requires((b,)),
            forall|b: &mut BlockParser<'t, 'i>, o: Option<O>| #[trigger]
                f.ensures((b,), o) ==> final(b).wf() && final(b).same_block(&*b),
        ensures
            final(self).wf(),
            final(self).same_block(old(self)),
            exists|b: &mut BlockParser<'t, 'i>|
                *b == *old(self) && #[trigger] f.ensures((b,), out) && final(self).events@
                    == final(b).events@ && final(self).current == if out is Some {
                    final(b).current
                } else {
                    old(self).current
                },
    {
        let start: usize = self.current;
        let out: Option<O> = f(self);
        if out.is_none() {
            self.current = start;
        }
        out
    }

    /// Reports all of `diags`, in their order.
    pub fn report_all(&mut self, diags: Vec<SourceDiag>)
        ensures
            final(self).same_block(old(self)),
            final(self).current == old(self).current,
            final(self).events@ == old(self).events@ + diags@,
    {
        let mut diags = diags;
        self.events.append(&mut diags);
    }

    /// Reports `diag`.
    pub fn error(&mut self, diag: SourceDiag)
        ensures
            final(self).same_block(old(self)),
            final(self).current == old(self).current,
            final(self).events@ == old(self).events@.push(diag),
    {
        self.events.push(diag);
    }

    /// Ends the parse and hands over the diagnostics, oldest first.
    pub fn finish(self) -> (events: Vec<SourceDiag>)
        ensures
            events@ == self.events@,
    {
        self.events
    }
}

/// Decides [`TokenKind::is_blank`].
pub fn is_blank_kind(kind: TokenKind) -> (yes: bool)
    ensures
        yes == kind.is_blank(),
{
    match kind {
        TokenKind::Whitespace | TokenKind::LineComment | TokenKind::BlockComment => true,
        _ => false,
    }
}

} // verus!
