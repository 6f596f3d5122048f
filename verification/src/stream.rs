//! A cursor over a source that can be read only once, front to back.

use vstd::prelude::*;
use std::ops::Range;
use vstd::std_specs::iter::IteratorSpec;
use crate::input::SimpleSpan;

verus! {

/// The most tokens that one pull takes from the source.
pub const BATCH: usize = 500;

/// Tokens pulled from an iterator and kept, so that they can be read again
/// by index. The iterator is asked only when a token past the kept ones is
/// wanted, and then for one batch.
pub struct Stream<I: Iterator> {
    buffer: Vec<I::Item>,
    source: I,
}

impl<I: Iterator> Stream<I> {
    /// The tokens pulled so far, in the order the source gave them.
    pub closed spec fn buffered(&self) -> Seq<I::Item> {
        self.buffer@
    }

    /// The rest of the source.
    pub closed spec fn source_spec(&self) -> I {
        self.source
    }

    /// A stream that has pulled nothing from `source` yet.
    pub fn from_iter(source: I) -> (stream: Self)
        ensures
            stream.buffered() == Seq::<I::Item>::empty(),
            stream.source_spec() == source,
    {
        Stream { buffer: Vec::new(), source }
    }

    /// A stream that holds `buffer` as already pulled, with `source` for the rest.
    pub fn from_parts(buffer: Vec<I::Item>, source: I) -> (stream: Self)
        ensures
            stream.buffered() == buffer@,
            stream.source_spec() == source,
    {
        Stream { buffer, source }
    }

    /// Takes the stream apart into the tokens pulled so far and the rest of the source.
    pub fn into_parts(self) -> (parts: (Vec<I::Item>, I))
        ensures
            parts.0@ == self.buffered(),
            parts.1 == self.source_spec(),
    {
        (self.buffer, self.source)
    }

    /// How many tokens have been pulled so far.
    pub fn buffered_len(&self) -> (len: usize)
        ensures
            len == self.buffered().len(),
    {
        self.buffer.len()
    }

    /// `self` holds the tokens of `before`, then at most one batch of further ones.
    pub open spec fn grown_from(&self, before: &Self) -> bool {
        &&& before.buffered().is_prefix_of(self.buffered())
        &&& self.buffered().len() <= before.buffered().len() + BATCH
    }

    /// Pulls one batch from the source into the buffer: tokens until the
    /// batch is full or the source has no more.
    fn pull(&mut self)
        ensures
            final(self).grown_from(old(self)),
            old(self).source_spec().obeys_prophetic_iter_laws() ==> took_batch(
                old(self).buffered(),
                old(self).source_spec().remaining(),
                final(self).buffered(),
                final(self).source_spec().remaining(),
            ),
    {
        let mut pulled: usize = 0;
        let ghost rest = self.source.remaining();
        while pulled < BATCH
            invariant
                pulled <= BATCH,
                self.buffer@.len() == old(self).buffer@.len() + pulled,
                old(self).buffer@.is_prefix_of(self.buffer@),
                self.source.obeys_prophetic_iter_laws()
                    == old(self).source.obeys_prophetic_iter_laws(),
                rest == old(self).source.remaining(),
                self.source.obeys_prophetic_iter_laws() ==> {
                    &&& pulled <= rest.len()
                    &&& self.buffer@ == old(self).buffer@ + rest.take(pulled as int)
                    &&& self.source.remaining() == rest.skip(pulled as int)
                },
            ensures
                self.grown_from(old(self)),
                self.source.obeys_prophetic_iter_laws() ==> took_batch(
                    old(self).buffer@,
                    rest,
                    self.buffer@,
                    self.source.remaining(),
                ),
            decreases BATCH - pulled,
        {
            match self.source.next() {
                Some(token) => {
                    proof {
                        if old(self).source.obeys_prophetic_iter_laws() {
                            assert(rest.take(pulled as int).push(rest[pulled as int]) =~= rest.take(
                                pulled + 1,
                            ));
                            assert(rest.skip(pulled as int).drop_first() =~= rest.skip(pulled + 1));
                        }
                    }
                    self.buffer.push(token);
                    pulled = pulled + 1;
                },
                None => {
                    proof {
                        if old(self).source.obeys_prophetic_iter_laws() {
                            assert(rest.skip(pulled as int).len() == 0);
                            assert(rest.take(pulled as int) =~= rest.take(rest.len() as int));
                        }
                    }
                    break ;
                },
            }
        }
    }

    /// Reads the token at `offset`. Where the buffer reaches `offset`, the
    /// source is left alone. Where it does not, one batch is pulled first,
    /// and no more; of a source that keeps to what it will yield, that batch
    /// is its next tokens, as many as a batch holds or all that are left.
    /// The token is a clone of the buffered one; where the buffer still does
    /// not reach `offset`, there is no token and the offset stays.
    pub fn next(&mut self, offset: usize) -> (r: (usize, Option<I::Item>)) where I::Item: Clone
        ensures
            offset < old(self).buffered().len() ==> final(self).buffered() == old(self).buffered()
                && final(self).source_spec() == old(self).source_spec(),
            offset >= old(self).buffered().len() ==> final(self).grown_from(old(self)),
            offset >= old(self).buffered().len()
                && old(self).source_spec().obeys_prophetic_iter_laws() ==> took_batch(
                old(self).buffered(),
                old(self).source_spec().remaining(),
                final(self).buffered(),
                final(self).source_spec().remaining(),
            ),
            offset < final(self).buffered().len() ==> r.0 == offset + 1 && r.1 is Some && cloned(
                final(self).buffered()[offset as int],
                r.1->0,
            ),
            offset >= final(self).buffered().len() ==> r == (offset, None::<I::Item>),
    {
        if self.buffer.len() <= offset {
            self.pull();
        }
        if offset < self.buffer.len() {
            (offset + 1, Some(self.buffer[offset].clone()))
        } else {
            (offset, None)
        }
    }

    /// The offset of the first token.
    pub fn start(&self) -> (offset: usize)
        ensures
            offset == 0,
    {
        0
    }

    /// The span that covers `range`.
    pub fn span(&self, range: Range<usize>) -> (span: SimpleSpan)
        ensures
            span == (SimpleSpan { start: range.start, end: range.end }),
    {
        SimpleSpan { start: range.start, end: range.end }
    }
}

/// How many tokens one pull takes from a source that has `rest` left: a
/// whole batch, or all that are left.
pub open spec fn batch_len<T>(rest: Seq<T>) -> int {
    if rest.len() < BATCH {
        rest.len() as int
    } else {
        BATCH as int
    }
}

/// The tokens that one pull takes from a source that has `rest` left.
pub open spec fn first_batch<T>(rest: Seq<T>) -> Seq<T> {
    rest.take(batch_len(rest))
}

/// What one pull leaves of a source that had `rest` left.
pub open spec fn after_batch<T>(rest: Seq<T>) -> Seq<T> {
    rest.skip(batch_len(rest))
}

/// One pull, on a buffer and a source with `rest` left: the batch has gone
/// from the front of the source to the back of the buffer.
pub open spec fn took_batch<T>(
    buffer: Seq<T>,
    rest: Seq<T>,
    new_buffer: Seq<T>,
    new_rest: Seq<T>,
) -> bool {
    &&& new_buffer == buffer + first_batch(rest)
    &&& new_rest == after_batch(rest)
}

} // verus!
