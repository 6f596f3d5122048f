//! The capabilities a token source offers to a parser.

use vstd::prelude::*;
use std::ops::Range;

verus! {

/// A half-open range of absolute indices into a source.
#[derive(Clone, Copy, Debug, PartialEq, Eq, Structural)]
pub struct SimpleSpan {
    pub start: usize,
    pub end: usize,
}

/// A source of tokens that a parser reads by offset.
///
/// `valid` is the provenance of an offset: the start offset is valid, and
/// `next` on a valid offset returns a valid one. `next` may only be called
/// on a valid offset.
pub trait Input: Sized {
    /// A position in the source.
    type Offset: Copy;

    /// One unit of input.
    type Token;

    /// What `span` returns for a range of offsets.
    type Span;

    /// The absolute index an offset stands for.
    spec fn index_of(offset: Self::Offset) -> nat;

    /// The index one past the last token.
    spec fn end_index(&self) -> nat;

    /// Whether `offset` is the start of this source or came out of `next` on it.
    spec fn valid(&self, offset: Self::Offset) -> bool;

    /// The offset of the first token.
    spec fn start_spec(&self) -> Self::Offset;

    /// The offset after the token at `offset`, and that token; at the end of
    /// the source, `offset` itself and `None`.
    spec fn next_spec(&self, offset: Self::Offset) -> (Self::Offset, Option<Self::Token>);

    /// The span from `start` to `end`.
    spec fn span_spec(&self, start: Self::Offset, end: Self::Offset) -> Self::Span;

    /// The start of the source.
    fn start(&self) -> (offset: Self::Offset)
        ensures
            offset == self.start_spec(),
            self.valid(offset),
    ;

    /// The absolute index of `offset`.
    fn index(offset: Self::Offset) -> (i: usize)
        ensures
            i == Self::index_of(offset),
    ;

    /// Reads the token at `offset`. Offsets never move backwards, a token
    /// moves the offset strictly forwards and not past the end, and at the
    /// end the offset stays where it is.
    fn next(&self, offset: Self::Offset) -> (r: (Self::Offset, Option<Self::Token>))
        requires
            self.valid(offset),
        ensures
            r == self.next_spec(offset),
            self.valid(r.0),
            Self::index_of(offset) <= Self::index_of(r.0),
            r.1 is None ==> r.0 == offset,
            r.1 is Some ==> Self::index_of(offset) < Self::index_of(r.0) <= self.end_index(),
    ;

    /// What `next_spec` gives on a valid offset: a valid offset that is not
    /// behind `offset`; with a token, one strictly ahead and not past the
    /// end; without, `offset` itself.
    proof fn lemma_next(&self, offset: Self::Offset)
        requires
            self.valid(offset),
        ensures
            self.valid(self.next_spec(offset).0),
            Self::index_of(offset) <= Self::index_of(self.next_spec(offset).0),
            self.next_spec(offset).1 is None ==> self.next_spec(offset).0 == offset,
            self.next_spec(offset).1 is Some ==> Self::index_of(offset) < Self::index_of(
                self.next_spec(offset).0,
            ) <= self.end_index(),
    ;

    /// The span that covers `range`.
    fn span(&self, range: Range<Self::Offset>) -> (span: Self::Span)
        ensures
            span == self.span_spec(range.start, range.end),
    ;

    /// A second handle on the same source, usable beside the first.
    fn reborrow(&self) -> (alias: Self)
        ensures
            alias == *self,
    ;
}

/// A source from which contiguous runs of tokens can be taken.
pub trait SliceInput: Input {
    /// A run of tokens of this source.
    type Slice;

    /// The tokens a slice holds.
    spec fn slice_tokens(slice: Self::Slice) -> Seq<Self::Token>;

    /// The offset one past the last token.
    spec fn end_spec(&self) -> Self::Offset;

    /// Whether the source can be cut at `start` and `end`.
    spec fn can_slice(&self, start: Self::Offset, end: Self::Offset) -> bool;

    /// The tokens from `start` up to `end`.
    spec fn range_tokens(&self, start: Self::Offset, end: Self::Offset) -> Seq<Self::Token>;

    /// The tokens of `range`.
    fn slice(&self, range: Range<Self::Offset>) -> (slice: Self::Slice)
        requires
            self.can_slice(range.start, range.end),
        ensures
            Self::slice_tokens(slice) == self.range_tokens(range.start, range.end),
    ;

    /// The tokens from `from` to the end of the source.
    fn slice_from(&self, from: Self::Offset) -> (slice: Self::Slice)
        requires
            self.can_slice(from, self.end_spec()),
        ensures
            Self::slice_tokens(slice) == self.range_tokens(from, self.end_spec()),
    ;
}

/// A source of character-like tokens, addressed by index, that can be sliced.
pub trait StrInput: SliceInput + Input<Offset = usize> {
}

/// A source that can lend its tokens instead of copying them.
pub trait BorrowInput<'a>: Input where Self::Token: 'a {
    /// As `next`, with a reference to the token in place of a copy.
    fn next_ref(&self, offset: Self::Offset) -> (r: (Self::Offset, Option<&'a Self::Token>))
        requires
            self.valid(offset),
        ensures
            r.0 == self.next_spec(offset).0,
            self.valid(r.0),
            r.1 is Some == self.next_spec(offset).1 is Some,
            r.1 is Some ==> *r.1->0 == self.next_spec(offset).1->0,
    ;
}

/// The offset reached from `offset` after reading `n` tokens.
pub open spec fn offset_after<I: Input>(input: I, offset: I::Offset, n: nat) -> I::Offset
    decreases n,
{
    if n == 0 {
        offset
    } else {
        input.next_spec(offset_after(input, offset, (n - 1) as nat)).0
    }
}

/// The token read `n` tokens after `offset`, if the source has one there.
pub open spec fn token_after<I: Input>(input: I, offset: I::Offset, n: nat) -> Option<I::Token> {
    input.next_spec(offset_after(input, offset, n)).1
}

/// Reading forwards never moves an offset backwards: whatever number of
/// tokens is read from a valid offset, the offset reached is valid and not
/// behind the one started from.
pub proof fn lemma_offsets_monotone<I: Input>(input: I, offset: I::Offset, n: nat)
    requires
        input.valid(offset),
    ensures
        input.valid(offset_after(input, offset, n)),
        I::index_of(offset) <= I::index_of(offset_after(input, offset, n)),
    decreases n,
{
    if n > 0 {
        lemma_offsets_monotone(input, offset, (n - 1) as nat);
        input.lemma_next(offset_after(input, offset, (n - 1) as nat));
    }
}

/// The end of the input is final: once reading at `offset` gives no token
/// and leaves the offset where it is, every further read, however many
/// follow, gives the same.
pub proof fn lemma_end_is_idempotent<I: Input>(input: I, offset: I::Offset, n: nat)
    requires
        input.next_spec(offset) == (offset, None::<I::Token>),
    ensures
        offset_after(input, offset, n) == offset,
        input.next_spec(offset_after(input, offset, n)) == (offset, None::<I::Token>),
    decreases n,
{
    if n > 0 {
        lemma_end_is_idempotent(input, offset, (n - 1) as nat);
    }
}

} // verus!
