//! Source text gathered from tokens, comments left out.

use vstd::prelude::*;
use vstd::slice::slice_subrange;
use crate::span::Span;
use crate::token::{Token, TokenKind};

verus! {

/// A blank byte: space, tab, line feed, vertical tab, form feed or carriage return.
pub open spec fn is_space(b: u8) -> bool {
    b == 32 || (9 <= b && b <= 13)
}

/// Decides [`is_space`].
pub fn is_space_byte(b: u8) -> (yes: bool)
    ensures
        yes == is_space(b),
{
    b == 32 || (9 <= b && b <= 13)
}

/// Index of the first byte of `s` at or after `from` that is not blank, or
/// the length of `s` where there is none.
pub open spec fn skip_spaces(s: Seq<u8>, from: int) -> int
    decreases s.len() - from,
{
    if from < 0 || from >= s.len() {
        s.len() as int
    } else if is_space(s[from]) {
        skip_spaces(s, from + 1)
    } else {
        from
    }
}

/// One past the index of the last byte of `s` before `to` that is not
/// blank, or zero where there is none.
pub open spec fn skip_spaces_back(s: Seq<u8>, to: int) -> int
    decreases to,
{
    if to <= 0 || to > s.len() {
        0
    } else if is_space(s[to - 1]) {
        skip_spaces_back(s, to - 1)
    } else {
        to
    }
}

/// `s` without the blank bytes at its two ends.
pub open spec fn trimmed(s: Seq<u8>) -> Seq<u8> {
    let from = skip_spaces(s, 0);
    if from >= s.len() {
        Seq::empty()
    } else {
        s.subrange(from, skip_spaces_back(s, s.len() as int))
    }
}

/// Every byte of `s` is blank.
pub open spec fn is_blank(s: Seq<u8>) -> bool {
    forall|i: int| 0 <= i < s.len() ==> is_space(#[trigger] s[i])
}

/// The bytes of `input` that `span` covers.
pub open spec fn span_text(input: Seq<u8>, span: Span) -> Seq<u8> {
    input.subrange(span.start as int, span.end as int)
}

/// The text of the first `n` of `tokens`: what their spans cover in
/// `input`, one after the other, comments left out.
pub open spec fn tokens_text(input: Seq<u8>, tokens: Seq<Token>, n: int) -> Seq<u8>
    decreases n,
{
    if n <= 0 {
        Seq::empty()
    } else if tokens[n - 1].kind.is_comment() {
        tokens_text(input, tokens, n - 1)
    } else {
        tokens_text(input, tokens, n - 1) + span_text(input, tokens[n - 1].span)
    }
}

/// Where the text of the first `n` of `tokens` ends: the end of the last of
/// them that is no comment and covers at least one byte, or `offset` where
/// there is none.
pub open spec fn tokens_text_end(tokens: Seq<Token>, offset: usize, n: int) -> usize
    decreases n,
{
    if n <= 0 {
        offset
    } else if tokens[n - 1].kind.is_comment() || tokens[n - 1].span.end <= tokens[n - 1].span.start {
        tokens_text_end(tokens, offset, n - 1)
    } else {
        tokens[n - 1].span.end
    }
}

/// A piece of source text with its place: the bytes between `offset` and
/// `end`, without the comments that stood among them.
#[derive(Debug, PartialEq, Eq)]
pub struct Text {
    pub offset: usize,
    pub end: usize,
    pub content: Vec<u8>,
}

/// What a [`Text`] holds, as a value.
pub struct TextView {
    pub offset: usize,
    pub end: usize,
    pub content: Seq<u8>,
}

impl View for Text {
    type V = TextView;

    open spec fn view(&self) -> TextView {
        TextView { offset: self.offset, end: self.end, content: self.content@ }
    }
}

impl TextView {
    /// The text of `tokens` in `input`, for a text that starts at `offset`.
    pub open spec fn of_tokens(input: Seq<u8>, offset: usize, tokens: Seq<Token>) -> TextView {
        TextView {
            offset,
            end: tokens_text_end(tokens, offset, tokens.len() as int),
            content: tokens_text(input, tokens, tokens.len() as int),
        }
    }

    /// The place of the text in the source.
    pub open spec fn span(self) -> Span {
        Span { start: self.offset, end: self.end }
    }
}

impl Clone for Text {
    fn clone(&self) -> (copy: Text)
        ensures
            copy@ == self@,
    {
        Text { offset: self.offset, end: self.end, content: self.content.clone() }
    }
}

impl Text {
    /// The empty text at `offset`.
    pub fn empty(offset: usize) -> (text: Text)
        ensures
            text@ == (TextView { offset, end: offset, content: Seq::empty() }),
    {
        Text { offset, end: offset, content: Vec::new() }
    }

    /// The text `bytes`, standing at `offset` in the source.
    pub fn from_bytes(bytes: &[u8], offset: usize) -> (text: Text)
        requires
            offset + bytes@.len() <= usize::MAX,
        ensures
            text@ == (TextView {
                offset,
                end: (offset + bytes@.len()) as usize,
                content: bytes@,
            }),
    {
        Text { offset, end: offset + bytes.len(), content: vstd::slice::slice_to_vec(bytes) }
    }

    /// The text of `tokens` in `input`, for a text that starts at `offset`:
    /// the bytes of each token that is no comment, in order.
    pub fn from_tokens(input: &[u8], offset: usize, tokens: &[Token]) -> (text: Text)
        requires
            forall|i: int| 0 <= i < tokens@.len() ==> (#[trigger] tokens@[i]).span.within(input@.len()),
        ensures
            text@ == TextView::of_tokens(input@, offset, tokens@),
    {
        let mut content: Vec<u8> = Vec::new();
        let mut end: usize = offset;
        let mut i: usize = 0;
        while i < tokens.len()
            invariant
                i <= tokens@.len(),
                forall|k: int|
                    0 <= k < tokens@.len() ==> (#[trigger] tokens@[k]).span.within(input@.len()),
                content@ == tokens_text(input@, tokens@, i as int),
                end == tokens_text_end(tokens@, offset, i as int),
            decreases tokens@.len() - i,
        {
            let token: Token = tokens[i];
            let comment: bool = match token.kind {
                TokenKind::LineComment | TokenKind::BlockComment => true,
                _ => false,
            };
            if !comment {
                let piece: &[u8] = slice_subrange(input, token.span.start, token.span.end);
                content.extend_from_slice(piece);
                if token.span.start < token.span.end {
                    end = token.span.end;
                }
            }
            i += 1;
        }
        Text { offset, end, content }
    }

    /// The place of the text in the source.
    pub fn span(&self) -> (span: Span)
        ensures
            span == self@.span(),
    {
        Span { start: self.offset, end: self.end }
    }

    /// The bytes of the text, comments left out.
    pub fn text(&self) -> (bytes: &[u8])
        ensures
            bytes@ == self@.content,
    {
        self.content.as_slice()
    }

    /// The bytes of the text without the blanks at its two ends.
    pub fn text_trimmed(&self) -> (bytes: Vec<u8>)
        ensures
            bytes@ == trimmed(self@.content),
    {
        trim_bytes(self.content.as_slice())
    }

    /// True when the text holds nothing but blanks.
    pub fn is_text_empty(&self) -> (empty: bool)
        ensures
            empty == is_blank(self@.content),
    {
        let mut i: usize = 0;
        while i < self.content.len()
            invariant
                i <= self.content@.len(),
                forall|k: int| 0 <= k < i ==> is_space(#[trigger] self.content@[k]),
            decreases self.content@.len() - i,
        {
            if !is_space_byte(self.content[i]) {
                return false;
            }
            i += 1;
        }
        true
    }
}

/// `s` without the blank bytes at its two ends.
pub fn trim_bytes(s: &[u8]) -> (bytes: Vec<u8>)
    ensures
        bytes@ == trimmed(s@),
{
    let mut from: usize = 0;
    while from < s.len() && is_space_byte(s[from])
        invariant
            from <= s@.len(),
            skip_spaces(s@, 0) == skip_spaces(s@, from as int),
        decreases s@.len() - from,
    {
        from += 1;
    }
    if from >= s.len() {
        return Vec::new();
    }
    let mut to: usize = s.len();
    while to > 0 && is_space_byte(s[to - 1])
        invariant
            to <= s@.len(),
            skip_spaces_back(s@, s@.len() as int) == skip_spaces_back(s@, to as int),
        decreases to,
    {
        to -= 1;
    }
    proof {
        lemma_trim_bounds(s@);
    }
    vstd::slice::slice_to_vec(slice_subrange(s, from, to))
}

/// Where a text has a byte that is not blank, trimming its end stops after
/// the place where trimming its start stops.
pub proof fn lemma_trim_bounds(s: Seq<u8>)
    ensures
        skip_spaces(s, 0) < s.len() ==> skip_spaces(s, 0) < skip_spaces_back(s, s.len() as int)
            <= s.len(),
{
    let from = skip_spaces(s, 0);
    if from < s.len() {
        lemma_skip_spaces_stops(s, 0);
        lemma_skip_spaces_back_after(s, s.len() as int, from);
    }
}

/// `skip_spaces` stops at a byte that is not blank, at or after `from`.
pub proof fn lemma_skip_spaces_stops(s: Seq<u8>, from: int)
    requires
        0 <= from,
    ensures
        from <= skip_spaces(s, from) || skip_spaces(s, from) == s.len(),
        skip_spaces(s, from) <= s.len(),
        skip_spaces(s, from) < s.len() ==> !is_space(s[skip_spaces(s, from)]),
    decreases s.len() - from,
{
    if from < s.len() && is_space(s[from]) {
        lemma_skip_spaces_stops(s, from + 1);
    }
}

/// `skip_spaces_back` from `to` stops after any byte before `to` that is not blank.
pub proof fn lemma_skip_spaces_back_after(s: Seq<u8>, to: int, at: int)
    requires
        0 <= at < to <= s.len(),
        !is_space(s[at]),
    ensures
        at < skip_spaces_back(s, to) <= to,
    decreases to,
{
    if is_space(s[to - 1]) {
        lemma_skip_spaces_back_after(s, to - 1, at);
    }
}

} // verus!
