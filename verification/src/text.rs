//! The cursor over a string, addressed by byte index, one character per token.

use vstd::prelude::*;
use vstd::string::StringSliceAdditionalSpecFns;
use vstd::utf8::{
    char_u32_cast, decode_first_scalar, decode_utf8, encode_scalar, encode_utf8,
    encode_utf8_decode_utf8, encode_utf8_first_scalar, encode_utf8_valid_utf8, is_char_boundary,
    is_char_boundary_iff_not_is_continuation_byte, is_char_boundary_start_end_of_seq,
    length_of_first_scalar, pop_first_scalar, valid_utf8, valid_utf8_split,
};
use std::ops::Range;
use crate::input::{Input, SimpleSpan, SliceInput, StrInput};

verus! {

/// `char::len_utf8`: the number of bytes that the UTF-8 encoding of `c` takes.
#[verifier::external_body]
fn len_utf8(c: char) -> (len: usize)
    ensures
        len == encode_scalar(c as u32).len(),
{
    c.len_utf8()
}

/// The length of `text` in bytes, which fits a machine word.
fn byte_len(text: &str) -> (len: usize)
    ensures
        len == text.spec_bytes().len(),
{
    text.as_bytes().len()
}

/// The bytes of valid UTF-8 from a character boundary on start with a
/// character, and the index behind that character is a boundary again.
pub proof fn lemma_boundary_after_scalar(bytes: Seq<u8>, index: int)
    requires
        valid_utf8(bytes),
        is_char_boundary(bytes, index),
        0 <= index < bytes.len(),
    ensures
        valid_utf8(bytes.subrange(index, bytes.len() as int)),
        1 <= length_of_first_scalar(bytes.subrange(index, bytes.len() as int)),
        index + length_of_first_scalar(bytes.subrange(index, bytes.len() as int)) <= bytes.len(),
        is_char_boundary(
            bytes,
            index + length_of_first_scalar(bytes.subrange(index, bytes.len() as int)),
        ),
{
    let tail = bytes.subrange(index, bytes.len() as int);
    let width = length_of_first_scalar(tail);
    valid_utf8_split(bytes, index);
    assert(valid_utf8(tail));
    assert(valid_utf8(pop_first_scalar(tail)));
    assert(1 <= width <= tail.len());
    assert(is_char_boundary(pop_first_scalar(tail), 0));
    assert(is_char_boundary(tail, width));
    if index + width == bytes.len() {
        is_char_boundary_start_end_of_seq(bytes);
    } else {
        is_char_boundary_iff_not_is_continuation_byte(tail, width);
        assert(tail[width] == bytes[index + width]);
        is_char_boundary_iff_not_is_continuation_byte(bytes, index + width);
    }
}

/// A boundary of the whole is a boundary of every prefix that reaches it.
pub proof fn lemma_boundary_in_prefix(bytes: Seq<u8>, start: int, end: int)
    requires
        valid_utf8(bytes),
        is_char_boundary(bytes, start),
        is_char_boundary(bytes, end),
        0 <= start <= end <= bytes.len(),
    ensures
        valid_utf8(bytes.subrange(0, end)),
        is_char_boundary(bytes.subrange(0, end), start),
{
    let head = bytes.subrange(0, end);
    valid_utf8_split(bytes, end);
    if start == end {
        is_char_boundary_start_end_of_seq(head);
    } else {
        is_char_boundary_iff_not_is_continuation_byte(bytes, start);
        assert(head[start] == bytes[start]);
        is_char_boundary_iff_not_is_continuation_byte(head, start);
    }
}

impl<'a> Input for &'a str {
    type Offset = usize;

    type Token = char;

    type Span = SimpleSpan;

    open spec fn index_of(offset: usize) -> nat {
        offset as nat
    }

    open spec fn end_index(&self) -> nat {
        self.spec_bytes().len()
    }

    /// An offset is valid where a character starts, and at the end.
    open spec fn valid(&self, offset: usize) -> bool {
        &&& self.spec_bytes().len() <= usize::MAX
        &&& is_char_boundary(self.spec_bytes(), offset as int)
    }

    open spec fn start_spec(&self) -> usize {
        0
    }

    open spec fn next_spec(&self, offset: usize) -> (usize, Option<char>) {
        let bytes = self.spec_bytes();
        if offset < bytes.len() {
            let tail = bytes.subrange(offset as int, bytes.len() as int);
            (
                (offset + length_of_first_scalar(tail)) as usize,
                Some(decode_first_scalar(tail) as char),
            )
        } else {
            (offset, None)
        }
    }

    open spec fn span_spec(&self, start: usize, end: usize) -> SimpleSpan {
        SimpleSpan { start, end }
    }

    fn start(&self) -> (offset: usize) {
        // Taking the length shows that it fits a machine word.
        let _ = byte_len(*self);
        proof {
            encode_utf8_valid_utf8(self@);
            is_char_boundary_start_end_of_seq(self.spec_bytes());
        }
        0
    }

    fn index(offset: usize) -> (i: usize) {
        offset
    }

    fn next(&self, offset: usize) -> (r: (usize, Option<char>)) {
        let text: &'a str = *self;
        proof {
            self.lemma_next(offset);
        }
        if offset < byte_len(text) {
            let (_, tail) = text.split_at(offset);
            let mut chars = tail.chars();
            let first = chars.next();
            proof {
                let bytes = text.spec_bytes();
                encode_utf8_valid_utf8(text@);
                lemma_boundary_after_scalar(bytes, offset as int);
                assert(tail.spec_bytes() == bytes.subrange(offset as int, bytes.len() as int));
                assert(tail@.len() > 0) by {
                    reveal_with_fuel(encode_utf8, 1);
                }
                encode_utf8_first_scalar(tail@);
                assert(first == Some(tail@[0]));
                char_u32_cast(tail@[0], tail@[0] as u32);
            }
            match first {
                Some(c) => (offset + len_utf8(c), Some(c)),
                // Not reached: the tail is not empty, so it has a first character.
                None => (offset, None),
            }
        } else {
            (offset, None)
        }
    }

    proof fn lemma_next(&self, offset: usize) {
        let bytes = self.spec_bytes();
        encode_utf8_valid_utf8(self@);
        if offset < bytes.len() {
            lemma_boundary_after_scalar(bytes, offset as int);
        }
    }

    fn span(&self, range: Range<usize>) -> (span: SimpleSpan) {
        SimpleSpan { start: range.start, end: range.end }
    }

    fn reborrow(&self) -> (alias: Self) {
        *self
    }
}

impl<'a> SliceInput for &'a str {
    type Slice = &'a str;

    open spec fn slice_tokens(slice: &'a str) -> Seq<char> {
        slice@
    }

    open spec fn end_spec(&self) -> usize {
        self.spec_bytes().len() as usize
    }

    /// A string can be cut where characters start, and at its end.
    open spec fn can_slice(&self, start: usize, end: usize) -> bool {
        &&& start <= end <= self.spec_bytes().len()
        &&& is_char_boundary(self.spec_bytes(), start as int)
        &&& is_char_boundary(self.spec_bytes(), end as int)
    }

    open spec fn range_tokens(&self, start: usize, end: usize) -> Seq<char> {
        decode_utf8(self.spec_bytes().subrange(start as int, end as int))
    }

    fn slice(&self, range: Range<usize>) -> (slice: &'a str) {
        let text: &'a str = *self;
        proof {
            encode_utf8_valid_utf8(text@);
            lemma_boundary_in_prefix(text.spec_bytes(), range.start as int, range.end as int);
        }
        let (head, _) = text.split_at(range.end);
        let (_, run) = head.split_at(range.start);
        proof {
            assert(run.spec_bytes() =~= text.spec_bytes().subrange(
                range.start as int,
                range.end as int,
            ));
            encode_utf8_decode_utf8(run@);
        }
        run
    }

    fn slice_from(&self, from: usize) -> (slice: &'a str) {
        let text: &'a str = *self;
        let _ = byte_len(text);
        let (_, run) = text.split_at(from);
        proof {
            encode_utf8_decode_utf8(run@);
        }
        run
    }
}

impl<'a> StrInput for &'a str {
}

} // verus!
