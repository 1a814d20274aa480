//! Helpers on byte slices and on UTF-8 text that the stream is built from.

use vstd::prelude::*;
use vstd::string::StringSliceAdditionalSpecFns;
use vstd::utf8::{
    encode_utf8_valid_utf8, is_char_boundary, is_char_boundary_iff_not_is_continuation_byte,
    is_char_boundary_start_end_of_seq, valid_utf8, valid_utf8_split,
};
use crate::model::{is_whitespace, occurs_at};
use crate::pattern::Span;

verus! {

/// Whether `literal` occupies the bytes of `bytes` from index `at` on.
pub(crate) fn matches_at(bytes: &[u8], at: usize, literal: &[u8]) -> (found: bool)
    requires
        at <= bytes@.len(),
    ensures
        found == occurs_at(bytes@, at as int, literal@),
        found ==> at + literal@.len() <= usize::MAX,
{
    if literal.len() > bytes.len() - at {
        return false;
    }
    let mut i: usize = 0;
    while i < literal.len()
        invariant
            at + literal@.len() <= bytes@.len() <= usize::MAX,
            i <= literal@.len(),
            forall|k: int| 0 <= k < i ==> bytes@[at + k] == literal@[k],
        decreases literal@.len() - i,
    {
        if bytes[at + i] != literal[i] {
            assert(bytes@.subrange(at as int, at + literal@.len())[i as int] != literal@[i as int]);
            return false;
        }
        i = i + 1;
    }
    assert(bytes@.subrange(at as int, at + literal@.len()) =~= literal@);
    true
}

/// Whether `byte` is one of the five whitespace bytes.
pub(crate) fn is_whitespace_byte(byte: u8) -> (white: bool)
    ensures
        white == is_whitespace(byte),
{
    byte == 0x20 || byte == 0x09 || byte == 0x0a || byte == 0x0c || byte == 0x0d
}

/// In valid UTF-8 that is cut at a character boundary, the boundaries of the
/// first part are those of the whole that lie in it.
pub(crate) proof fn lemma_boundary_in_head(text: Seq<u8>, cut: int, index: int)
    requires
        valid_utf8(text),
        is_char_boundary(text, cut),
        is_char_boundary(text, index),
        index <= cut,
    ensures
        0 <= index <= cut <= text.len(),
        is_char_boundary(text.subrange(0, cut), index),
{
    let head = text.subrange(0, cut);
    valid_utf8_split(text, cut);
    is_char_boundary_start_end_of_seq(head);
    if 0 < index < cut {
        is_char_boundary_iff_not_is_continuation_byte(text, index);
        is_char_boundary_iff_not_is_continuation_byte(head, index);
    }
}

/// In valid UTF-8 that is cut at a character boundary, a boundary of the
/// second part is a boundary of the whole.
pub(crate) proof fn lemma_boundary_in_tail(text: Seq<u8>, cut: int, index: int)
    requires
        valid_utf8(text),
        is_char_boundary(text, cut),
        is_char_boundary(text.subrange(cut, text.len() as int), index),
    ensures
        0 <= cut <= cut + index <= text.len(),
        is_char_boundary(text, cut + index),
{
    let tail = text.subrange(cut, text.len() as int);
    valid_utf8_split(text, cut);
    is_char_boundary_start_end_of_seq(text);
    if 0 < index < tail.len() {
        is_char_boundary_iff_not_is_continuation_byte(tail, index);
        is_char_boundary_iff_not_is_continuation_byte(text, cut + index);
    }
}

/// The piece of `text` that `span` marks.
pub(crate) fn cut<'a>(text: &'a str, span: Span) -> (piece: &'a str)
    requires
        span.cuts(text.spec_bytes()),
    ensures
        span.end <= text.spec_bytes().len(),
        piece.spec_bytes() == text.spec_bytes().subrange(span.start as int, span.end as int),
{
    proof {
        encode_utf8_valid_utf8(text@);
        lemma_boundary_in_head(text.spec_bytes(), span.end as int, span.start as int);
    }
    let (head, _) = text.split_at(span.end);
    let (_, piece) = head.split_at(span.start);
    assert(piece.spec_bytes() =~= text.spec_bytes().subrange(span.start as int, span.end as int));
    piece
}

} // verus!
