//! Tokens as handed over by the lexer.

use vstd::prelude::*;
use crate::span::Span;

verus! {

/// The kinds of token the block grammar tells apart.
#[derive(Clone, Copy, Debug, PartialEq, Eq, Structural, Hash)]
pub enum TokenKind {
    /// A run of letters and other word characters.
    Word,
    /// A run of digits that does not start with `0`, or the single digit `0`.
    Int,
    /// A run of digits with a leading `0`.
    ZeroInt,
    /// A punctuation character with no meaning of its own in the grammar.
    Punctuation,
    /// Spaces and tabs.
    Whitespace,
    /// A line break.
    Newline,
    /// `-- ...` up to the end of the line.
    LineComment,
    /// `[- ... -]`.
    BlockComment,
    /// `%`
    Percent,
    /// `|`
    Pipe,
    /// `*`
    Star,
    /// `-`
    Minus,
    /// `/`
    Slash,
    /// `@`
    At,
    /// `#`
    Hash,
    /// `~`
    Tilde,
    /// `{`
    OpenBrace,
    /// `}`
    CloseBrace,
    /// `(`
    OpenParen,
    /// `)`
    CloseParen,
    /// End of input; also what peeking past the last token yields.
    Eof,
}

/// A token: its kind and the bytes of the source it covers.
#[derive(Clone, Copy, Debug, PartialEq, Eq, Structural, Hash)]
pub struct Token {
    pub kind: TokenKind,
    pub span: Span,
}

impl TokenKind {
    /// Whitespace, a line comment or a block comment: what carries no content.
    pub open spec fn is_blank(self) -> bool {
        self == TokenKind::Whitespace || self == TokenKind::LineComment || self
            == TokenKind::BlockComment
    }

    /// A line comment or a block comment.
    pub open spec fn is_comment(self) -> bool {
        self == TokenKind::LineComment || self == TokenKind::BlockComment
    }
}

impl Token {
    /// A token of `kind` covering `start..end`.
    pub fn new(kind: TokenKind, start: usize, end: usize) -> (token: Token)
        ensures
            token == (Token { kind, span: Span { start, end } }),
    {
        Token { kind, span: Span { start, end } }
    }
}

/// Every token lies inside a text of `len` bytes and the tokens follow each
/// other without overlap, in source order.
pub open spec fn tokens_ordered(tokens: Seq<Token>, len: nat) -> bool {
    &&& forall|i: int| 0 <= i < tokens.len() ==> (#[trigger] tokens[i]).span.within(len)
    &&& forall|i: int, j: int|
        0 <= i < j < tokens.len() ==> (#[trigger] tokens[i]).span.end <= (
        #[trigger] tokens[j]).span.start
}

/// Decides [`tokens_ordered`] for a token slice and a text of `len` bytes.
pub fn check_tokens(tokens: &[Token], len: usize) -> (ok: bool)
    ensures
        ok == tokens_ordered(tokens@, len as nat),
{
    let mut i: usize = 0;
    let mut last_end: usize = 0;
    while i < tokens.len()
        invariant
            i <= tokens.len(),
            tokens_ordered(tokens@.subrange(0, i as int), len as nat),
            forall|k: int| 0 <= k < i ==> (#[trigger] tokens[k]).span.end <= last_end,
            i == 0 ==> last_end == 0,
            i > 0 ==> last_end == tokens[i - 1].span.end,
        decreases tokens.len() - i,
    {
        let t: Token = tokens[i];
        if !(t.span.start <= t.span.end && t.span.end <= len && last_end <= t.span.start) {
            return false;
        }
        last_end = t.span.end;
        i += 1;
    }
    assert(tokens@.subrange(0, i as int) =~= tokens@);
    true
}

} // verus!
