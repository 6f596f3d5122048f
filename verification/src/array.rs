//! The cursor over a slice of tokens, addressed by element index.

use vstd::prelude::*;
use std::ops::Range;
use crate::input::{BorrowInput, Input, SimpleSpan, SliceInput, StrInput};

verus! {

impl<'a, T: Copy> Input for &'a [T] {
    type Offset = usize;

    type Token = T;

    type Span = SimpleSpan;

    open spec fn index_of(offset: usize) -> nat {
        offset as nat
    }

    open spec fn end_index(&self) -> nat {
        self@.len()
    }

    /// An offset may lie past the end: reading there gives no token.
    open spec fn valid(&self, offset: usize) -> bool {
        true
    }

    open spec fn start_spec(&self) -> usize {
        0
    }

    open spec fn next_spec(&self, offset: usize) -> (usize, Option<T>) {
        if offset < self@.len() {
            ((offset + 1) as usize, Some(self@[offset as int]))
        } else {
            (offset, None)
        }
    }

    open spec fn span_spec(&self, start: usize, end: usize) -> SimpleSpan {
        SimpleSpan { start, end }
    }

    fn start(&self) -> (offset: usize) {
        0
    }

    fn index(offset: usize) -> (i: usize) {
        offset
    }

    fn next(&self, offset: usize) -> (r: (usize, Option<T>)) {
        proof {
            assert(vstd::slice::spec_slice_len(*self) == self@.len());
        }
        let (offset, tok) = self.next_ref(offset);
        match tok {
            Some(tok) => (offset, Some(*tok)),
            None => (offset, None),
        }
    }

    proof fn lemma_next(&self, offset: usize) {
        assert(vstd::slice::spec_slice_len(*self) == self@.len());
    }

    fn span(&self, range: Range<usize>) -> (span: SimpleSpan) {
        SimpleSpan { start: range.start, end: range.end }
    }

    fn reborrow(&self) -> (alias: Self) {
        *self
    }
}

impl<'a, T: Copy> SliceInput for &'a [T] {
    type Slice = &'a [T];

    open spec fn slice_tokens(slice: &'a [T]) -> Seq<T> {
        slice@
    }

    open spec fn end_spec(&self) -> usize {
        self@.len() as usize
    }

    open spec fn can_slice(&self, start: usize, end: usize) -> bool {
        start <= end <= self@.len()
    }

    open spec fn range_tokens(&self, start: usize, end: usize) -> Seq<T> {
        self@.subrange(start as int, end as int)
    }

    fn slice(&self, range: Range<usize>) -> (slice: &'a [T]) {
        let whole: &'a [T] = *self;
        let (head, _) = whole.split_at(range.end);
        let (_, run) = head.split_at(range.start);
        proof {
            assert(run@ =~= self@.subrange(range.start as int, range.end as int));
        }
        run
    }

    fn slice_from(&self, from: usize) -> (slice: &'a [T]) {
        let whole: &'a [T] = *self;
        let (_, run) = whole.split_at(from);
        proof {
            assert(vstd::slice::spec_slice_len(whole) == self@.len());
            assert(run@ =~= self@.subrange(from as int, self@.len() as int));
        }
        run
    }
}

impl<'a> StrInput for &'a [u8] {
}

impl<'a, T: Copy> BorrowInput<'a> for &'a [T] {
    fn next_ref(&self, offset: usize) -> (r: (usize, Option<&'a T>)) {
        let whole: &'a [T] = *self;
        if offset < whole.len() {
            (offset + 1, Some(&whole[offset]))
        } else {
            (offset, None)
        }
    }
}

} // verus!
