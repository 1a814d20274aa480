//! Laws that relate several operations of the stream, stated over the model.

use vstd::prelude::*;
use crate::error::StreamError;
use crate::model::{byte_is, lemma_first_stop, literal_is, whitespace_ends, Cursor};
use crate::pattern::Span;

verus! {

/// The offset never leaves the buffer: every operation takes a cursor whose
/// offset lies within the buffer to one whose offset does. For the two
/// pattern-based operations, `found` is a match within the bytes that were
/// searched.
pub proof fn lemma_offset_stays_within(
    start: Cursor,
    n: nat,
    byte: u8,
    literal: Seq<u8>,
    found: Option<Span>,
)
    requires
        start.wf(),
        found matches Some(span) ==> span.start <= span.end <= start.rest().len(),
    ensures
        start.go_back(n) matches Ok(next) ==> next.wf(),
        start.advance(n) matches Ok(next) ==> next.wf(),
        start.go_to_end().wf(),
        start.advance_if_char(byte).0.wf(),
        start.advance_if_chars(literal).0.wf(),
        start.advance_until_char(byte).0.wf(),
        start.advance_until_chars(literal).0.wf(),
        start.skip_whitespace().0.wf(),
        start.advance_past_match(found).0.wf(),
        start.advance_to_match(found).0.wf(),
{
    let from = start.position as int;
    let limit = start.bytes.len() as int;
    lemma_first_stop(from, limit, byte_is(start.bytes, byte));
    lemma_first_stop(from, limit, literal_is(start.bytes, literal));
    lemma_first_stop(from, limit, whitespace_ends(start.bytes));
}

/// Skipping whitespace is idempotent: once `skip_whitespace` has run, a
/// second call right after it leaves the offset where it is and reports that
/// nothing was skipped.
pub proof fn lemma_skip_whitespace_twice(start: Cursor)
    requires
        start.wf(),
    ensures
        ({
            let (rested, _) = start.skip_whitespace();
            rested.skip_whitespace() == (rested, false)
        }),
{
    lemma_first_stop(
        start.position as int,
        start.bytes.len() as int,
        whitespace_ends(start.bytes),
    );
}

/// Stepping over a literal is undone by going back by its length: after a
/// successful `advance_if_chars(literal)`, `go_back` by the length of
/// `literal` succeeds and restores the offset, and `advance_if_chars(literal)`
/// then succeeds again and ends where it ended the first time.
pub proof fn lemma_advance_if_chars_undone(start: Cursor, literal: Seq<u8>)
    requires
        start.wf(),
        start.advance_if_chars(literal).1,
    ensures
        ({
            let (past, _) = start.advance_if_chars(literal);
            &&& past.wf()
            &&& past.go_back(literal.len()) == Ok::<Cursor, StreamError>(start)
            &&& past.go_back(literal.len()) matches Ok(restored)
                && restored.advance_if_chars(literal) == (past, true)
        }),
{
}

} // verus!
