//! A byte-offset cursor over a borrowed text buffer, for hand-written lexers.
//!
//! [`MultiLineStream`] moves forward and backward through a `&str` by byte
//! offsets, tests for bytes and byte sequences, and searches with a compiled
//! regular expression. Every operation is specified against [`Cursor`], the
//! mathematical model of a stream: the bytes of the buffer and an offset
//! that never leaves them.

pub mod error;
pub mod laws;
pub mod model;
pub mod pattern;
pub mod stream;
mod text;

pub use error::StreamError;
pub use model::Cursor;
pub use pattern::{first_match, Span};
pub use stream::MultiLineStream;
