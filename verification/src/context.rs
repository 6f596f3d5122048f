//! A cursor that carries a context value into every span it makes.

use vstd::prelude::*;
use std::ops::Range;
use crate::input::{BorrowInput, Input, SliceInput, StrInput};

verus! {

/// A context value and the cursor it is attached to. Offsets and tokens are
/// those of the inner cursor; a span is the context paired with the inner span.
#[derive(Clone, Copy)]
pub struct WithContext<Ctx, I>(pub Ctx, pub I);

impl<Ctx, I> WithContext<Ctx, I> {
    /// Attaches `ctx` to `inp`.
    pub fn new(ctx: Ctx, inp: I) -> (wrapped: Self)
        ensures
            wrapped.0 == ctx,
            wrapped.1 == inp,
    {
        WithContext(ctx, inp)
    }
}

impl<Ctx: Copy, I: Input> Input for WithContext<Ctx, I> {
    type Offset = I::Offset;

    type Token = I::Token;

    type Span = (Ctx, I::Span);

    open spec fn index_of(offset: I::Offset) -> nat {
        I::index_of(offset)
    }

    open spec fn end_index(&self) -> nat {
        self.1.end_index()
    }

    open spec fn valid(&self, offset: I::Offset) -> bool {
        self.1.valid(offset)
    }

    open spec fn start_spec(&self) -> I::Offset {
        self.1.start_spec()
    }

    open spec fn next_spec(&self, offset: I::Offset) -> (I::Offset, Option<I::Token>) {
        self.1.next_spec(offset)
    }

    open spec fn span_spec(&self, start: I::Offset, end: I::Offset) -> (Ctx, I::Span) {
        (self.0, self.1.span_spec(start, end))
    }

    fn start(&self) -> (offset: I::Offset) {
        self.1.start()
    }

    fn index(offset: I::Offset) -> (i: usize) {
        I::index(offset)
    }

    fn next(&self, offset: I::Offset) -> (r: (I::Offset, Option<I::Token>)) {
        self.1.next(offset)
    }

    proof fn lemma_next(&self, offset: I::Offset) {
        self.1.lemma_next(offset);
    }

    fn span(&self, range: Range<I::Offset>) -> (span: (Ctx, I::Span)) {
        (self.0, self.1.span(range))
    }

    fn reborrow(&self) -> (alias: Self) {
        WithContext(self.0, self.1.reborrow())
    }
}

impl<'a, Ctx: Copy, I: BorrowInput<'a>> BorrowInput<'a> for WithContext<Ctx, I> where I::Token: 'a {
    fn next_ref(&self, offset: I::Offset) -> (r: (I::Offset, Option<&'a I::Token>)) {
        self.1.next_ref(offset)
    }
}

impl<Ctx: Copy, I: SliceInput> SliceInput for WithContext<Ctx, I> {
    type Slice = I::Slice;

    open spec fn slice_tokens(slice: I::Slice) -> Seq<I::Token> {
        I::slice_tokens(slice)
    }

    open spec fn end_spec(&self) -> I::Offset {
        self.1.end_spec()
    }

    open spec fn can_slice(&self, start: I::Offset, end: I::Offset) -> bool {
        self.1.can_slice(start, end)
    }

    open spec fn range_tokens(&self, start: I::Offset, end: I::Offset) -> Seq<I::Token> {
        self.1.range_tokens(start, end)
    }

    fn slice(&self, range: Range<I::Offset>) -> (slice: I::Slice) {
        self.1.slice(range)
    }

    fn slice_from(&self, from: I::Offset) -> (slice: I::Slice) {
        self.1.slice_from(from)
    }
}

impl<Ctx: Copy, I: StrInput> StrInput for WithContext<Ctx, I> {
}

} // verus!
