//! The stream itself: a borrowed text and a byte offset into it.
//!
//! The offset never leaves the text: `new`, `advance` and `go_back` refuse
//! what would take it out, and every other operation stops at the end. The
//! pattern-based operations read the text from the offset on as a string, so
//! they ask that the offset fall on a character boundary; the others compare
//! bytes and work at any offset.

use regex::Regex;
use vstd::prelude::*;
use vstd::string::StringSliceAdditionalSpecFns;
use vstd::utf8::{encode_utf8_valid_utf8, is_char_boundary_start_end_of_seq, valid_utf8};
use crate::error::StreamError;
use crate::model::{
    byte_is, bytes_of, is_whitespace, lemma_first_stop_is, literal_is, occurs_at, whitespace_ends,
    Cursor,
};
use crate::pattern::{find_first, first_match, Span};
use crate::text::{cut, is_whitespace_byte, lemma_boundary_in_tail, matches_at};

verus! {

/// Quick movement over several lines of text. Offsets are measured in bytes.
///
/// The stream borrows its source and never changes it; the offset is its
/// only state, and it always lies between 0 and the length of the source.
pub struct MultiLineStream<'a> {
    source: &'a str,
    position: usize,
}

impl<'a> View for MultiLineStream<'a> {
    type V = Cursor;

    closed spec fn view(&self) -> Cursor {
        Cursor { bytes: self.source.spec_bytes(), position: self.position as nat }
    }
}

impl<'a> MultiLineStream<'a> {
    /// The offset lies within the source, whose length fits a machine word.
    #[verifier::type_invariant]
    spec fn within_source(self) -> bool {
        self.position <= self.source.spec_bytes().len() <= usize::MAX
    }

    /// A stream over `source` that starts at byte `position`, or
    /// `OutOfRange` where `position` lies past the end of `source`.
    pub fn new(source: &'a str, position: usize) -> (made: Result<MultiLineStream<'a>, StreamError>)
        ensures
            match made {
                Ok(stream) => position <= source.spec_bytes().len()
                    && stream@ == (Cursor { bytes: source.spec_bytes(), position: position as nat })
                    && stream@.wf()
                    && valid_utf8(stream@.bytes),
                Err(error) => position > source.spec_bytes().len()
                    && error == StreamError::OutOfRange,
            },
    {
        proof {
            encode_utf8_valid_utf8(source@);
        }
        if position <= source.as_bytes().len() {
            Ok(MultiLineStream { source, position })
        } else {
            Err(StreamError::OutOfRange)
        }
    }

    /// The text that the stream reads.
    pub fn source(&self) -> (text: &'a str)
        ensures
            text.spec_bytes() == self@.bytes,
    {
        self.source
    }

    /// The current byte offset, which never lies past the end of the source.
    pub fn pos(&self) -> (position: usize)
        ensures
            position == self@.position,
            self@.wf(),
    {
        proof {
            use_type_invariant(self);
        }
        self.position
    }

    /// Whether the stream stands at the end of its source.
    pub fn eos(&self) -> (ended: bool)
        ensures
            ended == self@.eos(),
            !ended ==> self@.position < self@.bytes.len(),
    {
        proof {
            use_type_invariant(self);
        }
        self.source.as_bytes().len() <= self.position
    }

    /// Whether the current offset falls on a character boundary of the
    /// source, as the pattern-based operations need it to.
    pub fn on_char_boundary(&self) -> (aligned: bool)
        ensures
            aligned == self@.on_char_boundary(),
    {
        self.source.is_char_boundary(self.position)
    }

    /// Moves `n` bytes towards the start. Where fewer than `n` bytes lie
    /// before the current offset, the stream stays where it is and the call
    /// reports `OutOfRange`.
    pub fn go_back(&mut self, n: usize) -> (moved: Result<(), StreamError>)
        ensures
            final(self)@.wf(),
            moved is Ok <==> n <= old(self)@.position,
            match moved {
                Ok(()) => old(self)@.go_back(n as nat) == Ok::<Cursor, StreamError>(final(self)@),
                Err(error) => old(self)@.go_back(n as nat) == Err::<Cursor, StreamError>(error)
                    && final(self)@ == old(self)@,
            },
    {
        proof {
            use_type_invariant(&*self);
        }
        if n <= self.position {
            self.position = self.position - n;
            Ok(())
        } else {
            Err(StreamError::OutOfRange)
        }
    }

    /// Moves `n` bytes towards the end. Where fewer than `n` bytes are left,
    /// the stream stays where it is and the call reports `OutOfRange`.
    pub fn advance(&mut self, n: usize) -> (moved: Result<(), StreamError>)
        ensures
            final(self)@.wf(),
            moved is Ok <==> old(self)@.position + n <= old(self)@.bytes.len(),
            match moved {
                Ok(()) => old(self)@.advance(n as nat) == Ok::<Cursor, StreamError>(final(self)@),
                Err(error) => old(self)@.advance(n as nat) == Err::<Cursor, StreamError>(error)
                    && final(self)@ == old(self)@,
            },
    {
        proof {
            use_type_invariant(&*self);
        }
        if n <= self.source.as_bytes().len() - self.position {
            self.position = self.position + n;
            Ok(())
        } else {
            Err(StreamError::OutOfRange)
        }
    }

    /// Moves to the end of the source.
    pub fn go_to_end(&mut self)
        ensures
            final(self)@.wf(),
            final(self)@ == old(self)@.go_to_end(),
            final(self)@.eos(),
    {
        self.position = self.source.as_bytes().len();
    }

    /// The byte `offset` bytes away from the current offset, before it where
    /// `offset` is negative, or `None` where the source has no byte there.
    /// The stream does not move.
    pub fn peek_char(&self, offset: isize) -> (byte: Option<u8>)
        ensures
            byte == self@.peek_char(offset as int),
    {
        proof {
            use_type_invariant(self);
        }
        let bytes = self.source.as_bytes();
        if offset >= 0 {
            let ahead = offset as usize;
            if ahead < bytes.len() - self.position {
                Some(bytes[self.position + ahead])
            } else {
                None
            }
        } else {
            let behind = (-(offset + 1)) as usize;
            if behind < self.position {
                Some(bytes[self.position - behind - 1])
            } else {
                None
            }
        }
    }

    /// Steps over the byte at the current offset where it is `byte`.
    pub fn advance_if_char(&mut self, byte: u8) -> (taken: bool)
        ensures
            final(self)@.wf(),
            (final(self)@, taken) == old(self)@.advance_if_char(byte),
    {
        proof {
            use_type_invariant(&*self);
        }
        let bytes = self.source.as_bytes();
        if self.position < bytes.len() && bytes[self.position] == byte {
            self.position = self.position + 1;
            true
        } else {
            false
        }
    }

    /// Steps over `literal` where it stands at the current offset: the bytes
    /// from the offset on are compared with those of `literal`, and the
    /// stream moves past them only where all of them agree.
    pub fn advance_if_chars(&mut self, literal: &str) -> (taken: bool)
        ensures
            final(self)@.wf(),
            (final(self)@, taken) == old(self)@.advance_if_chars(literal.spec_bytes()),
    {
        proof {
            use_type_invariant(&*self);
        }
        let wanted = literal.as_bytes();
        if matches_at(self.source.as_bytes(), self.position, wanted) {
            self.position = self.position + wanted.len();
            true
        } else {
            false
        }
    }

    /// Moves to the first `byte` at or after the current offset and leaves it
    /// unread. Where there is none, the stream moves to the end of the
    /// source.
    pub fn advance_until_char(&mut self, byte: u8) -> (found: bool)
        ensures
            final(self)@.wf(),
            (final(self)@, found) == old(self)@.advance_until_char(byte),
            old(self)@.position <= final(self)@.position,
            forall|i: int|
                old(self)@.position <= i < final(self)@.position ==> old(self)@.bytes[i] != byte,
            found ==> !final(self)@.eos() && final(self)@.bytes[final(self)@.position as int]
                == byte,
            !found ==> final(self)@.eos(),
            found <==> exists|i: int|
                old(self)@.position <= i < old(self)@.bytes.len() && old(self)@.bytes[i] == byte,
    {
        proof {
            use_type_invariant(&*self);
        }
        let bytes = self.source.as_bytes();
        let ghost before = self@;
        while self.position < bytes.len()
            invariant
                before == old(self)@,
                bytes@ == before.bytes,
                self@.bytes == before.bytes,
                before.position <= self.position <= bytes@.len(),
                forall|i: int| before.position <= i < self.position ==> before.bytes[i] != byte,
            decreases bytes@.len() - self.position,
        {
            if bytes[self.position] == byte {
                proof {
                    lemma_first_stop_is(
                        before.position as int,
                        bytes@.len() as int,
                        byte_is(before.bytes, byte),
                        self.position as int,
                    );
                }
                return true;
            }
            self.position = self.position + 1;
        }
        proof {
            lemma_first_stop_is(
                before.position as int,
                bytes@.len() as int,
                byte_is(before.bytes, byte),
                bytes@.len() as int,
            );
        }
        false
    }

    /// Moves to the first occurrence of `literal` that starts at or after the
    /// current offset and leaves it unread. Where there is none, the stream
    /// moves to the end of the source.
    pub fn advance_until_chars(&mut self, literal: &str) -> (found: bool)
        ensures
            final(self)@.wf(),
            (final(self)@, found) == old(self)@.advance_until_chars(literal.spec_bytes()),
            old(self)@.position <= final(self)@.position,
            forall|i: int|
                old(self)@.position <= i < final(self)@.position ==> !occurs_at(
                    old(self)@.bytes,
                    i,
                    literal.spec_bytes(),
                ),
            found ==> final(self)@.starts_with(literal.spec_bytes()),
            !found ==> final(self)@.eos(),
            found <==> exists|i: int|
                old(self)@.position <= i && occurs_at(old(self)@.bytes, i, literal.spec_bytes()),
    {
        proof {
            use_type_invariant(&*self);
        }
        let bytes = self.source.as_bytes();
        let wanted = literal.as_bytes();
        let total = bytes.len();
        let ghost before = self@;
        while wanted.len() <= total - self.position
            invariant
                before == old(self)@,
                bytes@ == before.bytes,
                self@.bytes == before.bytes,
                wanted@ == literal.spec_bytes(),
                total == bytes@.len(),
                before.position <= self.position <= total,
                forall|i: int|
                    before.position <= i < self.position ==> !occurs_at(before.bytes, i, wanted@),
            decreases total - self.position,
        {
            if matches_at(bytes, self.position, wanted) {
                proof {
                    lemma_first_stop_is(
                        before.position as int,
                        total as int,
                        literal_is(before.bytes, wanted@),
                        self.position as int,
                    );
                }
                return true;
            }
            assert(self.position < total) by {
                if wanted@.len() == 0 {
                    assert(bytes@.subrange(self.position as int, self.position as int) =~= wanted@);
                }
            }
            self.position = self.position + 1;
        }
        proof {
            lemma_first_stop_is(
                before.position as int,
                total as int,
                literal_is(before.bytes, wanted@),
                total as int,
            );
        }
        self.position = total;
        false
    }

    /// Steps over the bytes from the current offset on for which `condition`
    /// answers `true`, up to the first for which it answers `false` or to the
    /// end of the source, and returns how many bytes that were.
    pub fn advance_while_char<F>(&mut self, condition: F) -> (count: usize) where
        F: Fn(u8) -> bool,
        requires
            forall|i: int|
                old(self)@.position <= i < old(self)@.bytes.len() ==> call_requires(
                    condition,
                    (#[trigger] old(self)@.bytes[i],),
                ),
        ensures
            final(self)@.wf(),
            final(self)@ == old(self)@.at(old(self)@.position + count as nat),
            forall|i: int|
                old(self)@.position <= i < final(self)@.position ==> call_ensures(
                    condition,
                    (#[trigger] old(self)@.bytes[i],),
                    true,
                ),
            !final(self)@.eos() ==> call_ensures(
                condition,
                (final(self)@.bytes[final(self)@.position as int],),
                false,
            ),
    {
        proof {
            use_type_invariant(&*self);
        }
        let bytes = self.source.as_bytes();
        let start = self.position;
        let ghost before = self@;
        while self.position < bytes.len()
            invariant
                before == old(self)@,
                bytes@ == before.bytes,
                self@.bytes == before.bytes,
                start == before.position,
                start <= self.position <= bytes@.len(),
                forall|i: int|
                    before.position <= i < before.bytes.len() ==> call_requires(
                        condition,
                        (#[trigger] before.bytes[i],),
                    ),
                forall|i: int|
                    before.position <= i < self.position ==> call_ensures(
                        condition,
                        (#[trigger] before.bytes[i],),
                        true,
                    ),
            decreases bytes@.len() - self.position,
        {
            if !condition(bytes[self.position]) {
                return self.position - start;
            }
            self.position = self.position + 1;
        }
        self.position - start
    }

    /// Steps over the whitespace that starts at the current offset (space,
    /// tab, line feed, form feed, carriage return) and tells whether there
    /// was any.
    pub fn skip_whitespace(&mut self) -> (skipped: bool)
        ensures
            final(self)@.wf(),
            (final(self)@, skipped) == old(self)@.skip_whitespace(),
            old(self)@.position <= final(self)@.position,
            forall|i: int|
                old(self)@.position <= i < final(self)@.position ==> is_whitespace(
                    old(self)@.bytes[i],
                ),
            !final(self)@.eos() ==> !is_whitespace(
                final(self)@.bytes[final(self)@.position as int],
            ),
    {
        let ghost before = self@;
        let count = self.advance_while_char(is_whitespace_byte);
        proof {
            lemma_first_stop_is(
                before.position as int,
                before.bytes.len() as int,
                whitespace_ends(before.bytes),
                self@.position as int,
            );
        }
        count > 0
    }

    /// The text from the current offset to the end of the source.
    fn rest(&self) -> (rest: &'a str)
        requires
            self@.on_char_boundary(),
        ensures
            rest.spec_bytes() == self@.rest(),
    {
        let (_, rest) = self.source.split_at(self.position);
        rest
    }

    /// Searches the text from the current offset on for the first match of
    /// `regexp`, wherever in that text it starts, and moves past the end of
    /// the match: the text before the match is skipped together with it.
    /// Returns the matched text, or `None`, without moving, where `regexp`
    /// matches nowhere in the rest of the source.
    pub fn advance_if_regexp(&mut self, regexp: &Regex) -> (matched: Option<&'a str>)
        requires
            old(self)@.on_char_boundary(),
        ensures
            final(self)@.wf(),
            final(self)@.on_char_boundary(),
            (final(self)@, bytes_of(matched)) == old(self)@.advance_past_match(
                first_match(*regexp, old(self)@.rest()),
            ),
    {
        let found = find_first(regexp, self.rest());
        self.advance_past_match(found)
    }

    /// Finishes `advance_if_regexp` once the search has been made, by this
    /// library or by a matcher of the caller's own. `found` is a match in
    /// the text from the current offset on, by offsets into that text, or
    /// `None`. The stream moves past the end of the match and returns the
    /// matched text; with `None` it stays where it is.
    pub fn advance_past_match(&mut self, found: Option<Span>) -> (matched: Option<&'a str>)
        requires
            old(self)@.on_char_boundary(),
            found matches Some(span) ==> span.cuts(old(self)@.rest()),
        ensures
            final(self)@.wf(),
            final(self)@.on_char_boundary(),
            (final(self)@, bytes_of(matched)) == old(self)@.advance_past_match(found),
    {
        proof {
            use_type_invariant(&*self);
        }
        match found {
            Some(span) => {
                proof {
                    encode_utf8_valid_utf8(self.source@);
                    lemma_boundary_in_tail(
                        self.source.spec_bytes(),
                        self.position as int,
                        span.end as int,
                    );
                }
                let text = cut(self.rest(), span);
                self.position = self.position + span.end;
                Some(text)
            },
            None => None,
        }
    }

    /// Searches the text from the current offset on for the first match of
    /// `regexp` and moves to the start of the match, which stays unread.
    /// Returns the matched text, or `None`, at the end of the source, where
    /// `regexp` matches nowhere in the rest of it.
    pub fn advance_until_regexp(&mut self, regexp: &Regex) -> (matched: Option<&'a str>)
        requires
            old(self)@.on_char_boundary(),
        ensures
            final(self)@.wf(),
            final(self)@.on_char_boundary(),
            (final(self)@, bytes_of(matched)) == old(self)@.advance_to_match(
                first_match(*regexp, old(self)@.rest()),
            ),
    {
        let found = find_first(regexp, self.rest());
        self.advance_to_match(found)
    }

    /// Finishes `advance_until_regexp` once the search has been made, by
    /// this library or by a matcher of the caller's own. `found` is a match
    /// in the text from the current offset on, by offsets into that text, or
    /// `None`. The stream moves to the start of the match and returns the
    /// matched text; with `None` it moves to the end of the source.
    pub fn advance_to_match(&mut self, found: Option<Span>) -> (matched: Option<&'a str>)
        requires
            old(self)@.on_char_boundary(),
            found matches Some(span) ==> span.cuts(old(self)@.rest()),
        ensures
            final(self)@.wf(),
            final(self)@.on_char_boundary(),
            (final(self)@, bytes_of(matched)) == old(self)@.advance_to_match(found),
    {
        proof {
            use_type_invariant(&*self);
            encode_utf8_valid_utf8(self.source@);
        }
        match found {
            Some(span) => {
                proof {
                    lemma_boundary_in_tail(
                        self.source.spec_bytes(),
                        self.position as int,
                        span.start as int,
                    );
                }
                let text = cut(self.rest(), span);
                self.position = self.position + span.start;
                Some(text)
            },
            None => {
                proof {
                    is_char_boundary_start_end_of_seq(self.source.spec_bytes());
                }
                self.position = self.source.as_bytes().len();
                None
            },
        }
    }
}

} // verus!
