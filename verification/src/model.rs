//! The mathematical model of a stream.
//!
//! A [`Cursor`] is the bytes of a buffer and an offset into them. An
//! operation of the stream whose outcome depends on these and on its
//! arguments alone has a spec function of the same name here, which says
//! where the operation leaves the offset and what it reports; the executable
//! operation is proved to do exactly that. The two pattern-based operations
//! share theirs with the functions that finish them, `advance_past_match`
//! and `advance_to_match`.

use vstd::prelude::*;
use vstd::string::StringSliceAdditionalSpecFns;
use vstd::utf8::is_char_boundary;
use crate::error::StreamError;
use crate::pattern::Span;

verus! {

/// The bytes over which `skip_whitespace` steps: space, tab, line feed, form
/// feed and carriage return.
pub open spec fn is_whitespace(byte: u8) -> bool {
    byte == 0x20 || byte == 0x09 || byte == 0x0a || byte == 0x0c || byte == 0x0d
}

/// `literal` occupies the bytes of `bytes` from index `at` on.
pub open spec fn occurs_at(bytes: Seq<u8>, at: int, literal: Seq<u8>) -> bool {
    &&& 0 <= at
    &&& at + literal.len() <= bytes.len()
    &&& bytes.subrange(at, at + literal.len()) == literal
}

/// The bytes of a text that may be absent.
pub open spec fn bytes_of(text: Option<&str>) -> Option<Seq<u8>> {
    match text {
        Some(text) => Some(text.spec_bytes()),
        None => None,
    }
}

/// The test "the byte at this index is `byte`".
pub open spec fn byte_is(bytes: Seq<u8>, byte: u8) -> spec_fn(int) -> bool {
    |i: int| bytes[i] == byte
}

/// The test "`literal` occupies the bytes from this index on".
pub open spec fn literal_is(bytes: Seq<u8>, literal: Seq<u8>) -> spec_fn(int) -> bool {
    |i: int| occurs_at(bytes, i, literal)
}

/// The test "the byte at this index is no whitespace".
pub open spec fn whitespace_ends(bytes: Seq<u8>) -> spec_fn(int) -> bool {
    |i: int| !is_whitespace(bytes[i])
}

/// The least index from `from` up to `limit` at which `stop` holds, or
/// `limit` where it holds at none of them.
pub open spec fn first_stop(from: int, limit: int, stop: spec_fn(int) -> bool) -> int
    decreases limit - from,
{
    if from < limit && !stop(from) {
        first_stop(from + 1, limit, stop)
    } else {
        from
    }
}

/// `first_stop` lies between `from` and `limit`, `stop` holds there unless it
/// is `limit`, and `stop` holds at no index before it.
pub proof fn lemma_first_stop(from: int, limit: int, stop: spec_fn(int) -> bool)
    requires
        from <= limit,
    ensures
        from <= first_stop(from, limit, stop) <= limit,
        first_stop(from, limit, stop) < limit ==> stop(first_stop(from, limit, stop)),
        forall|i: int| from <= i < first_stop(from, limit, stop) ==> !#[trigger] stop(i),
    decreases limit - from,
{
    if from < limit && !stop(from) {
        lemma_first_stop(from + 1, limit, stop);
    }
}

/// An index with the three properties of `lemma_first_stop` is `first_stop`.
pub proof fn lemma_first_stop_is(from: int, limit: int, stop: spec_fn(int) -> bool, index: int)
    requires
        from <= index <= limit,
        index < limit ==> stop(index),
        forall|i: int| from <= i < index ==> !#[trigger] stop(i),
    ensures
        first_stop(from, limit, stop) == index,
    decreases index - from,
{
    if from < index {
        lemma_first_stop_is(from + 1, limit, stop, index);
    }
}

/// What a stream is to its contracts: the bytes of the buffer and a byte
/// offset into them.
pub struct Cursor {
    pub bytes: Seq<u8>,
    pub position: nat,
}

impl Cursor {
    /// The offset points at a byte of the buffer or just past the last one.
    pub open spec fn wf(self) -> bool {
        self.position <= self.bytes.len()
    }

    /// The same buffer, with the offset at `position`.
    pub open spec fn at(self, position: nat) -> Cursor {
        Cursor { bytes: self.bytes, position }
    }

    /// The model of `eos`: the offset stands at the end of the buffer.
    pub open spec fn eos(self) -> bool {
        self.position == self.bytes.len()
    }

    /// The offset falls on a character boundary of the buffer.
    pub open spec fn on_char_boundary(self) -> bool {
        is_char_boundary(self.bytes, self.position as int)
    }

    /// The bytes from the offset to the end: what a pattern is searched in.
    pub open spec fn rest(self) -> Seq<u8> {
        self.bytes.subrange(self.position as int, self.bytes.len() as int)
    }

    /// `literal` occupies the bytes from the offset on.
    pub open spec fn starts_with(self, literal: Seq<u8>) -> bool {
        occurs_at(self.bytes, self.position as int, literal)
    }

    /// The offset of the first `byte` at or after the current offset, or the
    /// length of the buffer where there is none.
    pub open spec fn find_byte(self, byte: u8) -> nat {
        first_stop(
            self.position as int,
            self.bytes.len() as int,
            byte_is(self.bytes, byte),
        ) as nat
    }

    /// The offset of the first occurrence of `literal` that starts at or
    /// after the current offset, or the length of the buffer where there is
    /// none.
    pub open spec fn find_literal(self, literal: Seq<u8>) -> nat {
        first_stop(
            self.position as int,
            self.bytes.len() as int,
            literal_is(self.bytes, literal),
        ) as nat
    }

    /// The offset of the first byte at or after the current offset that is
    /// no whitespace, or the length of the buffer where only whitespace is
    /// left.
    pub open spec fn whitespace_end(self) -> nat {
        first_stop(
            self.position as int,
            self.bytes.len() as int,
            whitespace_ends(self.bytes),
        ) as nat
    }

    /// The model of `peek_char`: the byte `offset` bytes away from the
    /// current offset, in either direction, where the buffer has one.
    pub open spec fn peek_char(self, offset: int) -> Option<u8> {
        if 0 <= self.position + offset < self.bytes.len() {
            Some(self.bytes[self.position + offset])
        } else {
            None
        }
    }

    /// The model of `go_back`: `n` bytes towards the start, refused where
    /// fewer than `n` bytes lie before the offset.
    pub open spec fn go_back(self, n: nat) -> Result<Cursor, StreamError> {
        if n <= self.position {
            Ok(self.at((self.position - n) as nat))
        } else {
            Err(StreamError::OutOfRange)
        }
    }

    /// The model of `advance`: `n` bytes towards the end, refused where
    /// fewer than `n` bytes are left.
    pub open spec fn advance(self, n: nat) -> Result<Cursor, StreamError> {
        if self.position + n <= self.bytes.len() {
            Ok(self.at(self.position + n))
        } else {
            Err(StreamError::OutOfRange)
        }
    }

    /// The model of `go_to_end`: to the end of the buffer.
    pub open spec fn go_to_end(self) -> Cursor {
        self.at(self.bytes.len())
    }

    /// The model of `advance_if_char`: one byte on where the byte at the
    /// offset is `byte`, and nowhere otherwise.
    pub open spec fn advance_if_char(self, byte: u8) -> (Cursor, bool) {
        if self.position < self.bytes.len() && self.bytes[self.position as int] == byte {
            (self.at(self.position + 1), true)
        } else {
            (self, false)
        }
    }

    /// The model of `advance_if_chars`: past `literal` where it occupies the
    /// bytes from the offset on, and nowhere otherwise.
    pub open spec fn advance_if_chars(self, literal: Seq<u8>) -> (Cursor, bool) {
        if self.starts_with(literal) {
            (self.at(self.position + literal.len()), true)
        } else {
            (self, false)
        }
    }

    /// The model of `advance_until_char`: to the first `byte` at or after the
    /// offset, or to the end where there is none; the flag tells which.
    pub open spec fn advance_until_char(self, byte: u8) -> (Cursor, bool) {
        let landing = self.find_byte(byte);
        (self.at(landing), landing < self.bytes.len())
    }

    /// The model of `advance_until_chars`: to the first occurrence of
    /// `literal` at or after the offset, or to the end where there is none;
    /// the flag tells which.
    pub open spec fn advance_until_chars(self, literal: Seq<u8>) -> (Cursor, bool) {
        let landing = self.find_literal(literal);
        (self.at(landing), self.at(landing).starts_with(literal))
    }

    /// The model of `skip_whitespace`: past the whitespace that starts at the
    /// offset; the flag tells whether there was any.
    pub open spec fn skip_whitespace(self) -> (Cursor, bool) {
        let landing = self.whitespace_end();
        (self.at(landing), landing > self.position)
    }

    /// The model of `advance_if_regexp`, given what the search in
    /// `self.rest()` found: past the end of the match, over whatever lies
    /// before it, with the bytes of the match as the result; nowhere where
    /// nothing was found.
    pub open spec fn advance_past_match(self, found: Option<Span>) -> (Cursor, Option<Seq<u8>>) {
        match found {
            Some(span) => (
                self.at(self.position + span.end as nat),
                Some(self.rest().subrange(span.start as int, span.end as int)),
            ),
            None => (self, None),
        }
    }

    /// The model of `advance_until_regexp`, given what the search in
    /// `self.rest()` found: to the start of the match, with the bytes of the
    /// match as the result; to the end where nothing was found.
    pub open spec fn advance_to_match(self, found: Option<Span>) -> (Cursor, Option<Seq<u8>>) {
        match found {
            Some(span) => (
                self.at(self.position + span.start as nat),
                Some(self.rest().subrange(span.start as int, span.end as int)),
            ),
            None => (self.go_to_end(), None),
        }
    }
}

} // verus!
