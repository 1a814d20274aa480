use multi_line_stream::{MultiLineStream, StreamError};

fn stream(source: &str, position: usize) -> MultiLineStream<'_> {
    MultiLineStream::new(source, position).unwrap()
}

#[test]
fn advance_if_char_takes_the_byte_at_the_offset() {
    let mut s = stream("a+b", 1);
    assert!(s.advance_if_char(b'+'));
    assert_eq!(s.pos(), 2);
}

#[test]
fn advance_if_char_leaves_another_byte() {
    let mut s = stream("a+b", 1);
    assert!(!s.advance_if_char(b'b'));
    assert_eq!(s.pos(), 1);
}

#[test]
fn advance_if_char_at_the_end_takes_nothing() {
    let mut s = stream("a+b", 3);
    assert!(!s.advance_if_char(b'b'));
    assert_eq!(s.pos(), 3);
}

#[test]
fn advance_if_chars_takes_the_literal_at_the_offset() {
    let mut s = stream("let x = 1;", 4);
    assert!(s.advance_if_chars("x = "));
    assert_eq!(s.pos(), 8);
}

#[test]
fn advance_if_chars_leaves_a_literal_that_differs() {
    let mut s = stream("let x = 1;", 0);
    assert!(!s.advance_if_chars("lez"));
    assert_eq!(s.pos(), 0);
    assert!(!s.advance_if_chars("et"));
    assert_eq!(s.pos(), 0);
}

#[test]
fn advance_if_chars_leaves_a_literal_that_runs_past_the_end() {
    let mut s = stream("abc", 1);
    assert!(!s.advance_if_chars("bcd"));
    assert_eq!(s.pos(), 1);
    assert!(s.advance_if_chars("bc"));
    assert_eq!(s.pos(), 3);
    assert!(!s.advance_if_chars("c"));
    assert_eq!(s.pos(), 3);
}

#[test]
fn advance_if_chars_takes_the_empty_literal_anywhere() {
    let mut s = stream("abc", 1);
    assert!(s.advance_if_chars(""));
    assert_eq!(s.pos(), 1);
    s.go_to_end();
    assert!(s.advance_if_chars(""));
    assert_eq!(s.pos(), 3);
}

#[test]
fn advance_if_chars_compares_bytes_of_multibyte_text() {
    let mut s = stream("né", 1);
    assert!(s.advance_if_chars("é"));
    assert_eq!(s.pos(), 3);
    let mut t = stream("né", 1);
    assert!(!t.advance_if_chars("è"));
    assert_eq!(t.pos(), 1);
}

#[test]
fn advance_if_chars_then_go_back_restores_the_offset() {
    let mut s = stream("foo(bar)", 3);
    assert!(s.advance_if_chars("(bar"));
    assert_eq!(s.pos(), 7);
    assert_eq!(s.go_back("(bar".len()), Ok(()));
    assert_eq!(s.pos(), 3);
    assert!(s.advance_if_chars("(bar"));
    assert_eq!(s.pos(), 7);
}

#[test]
fn advance_until_char_stops_at_the_first_occurrence() {
    let mut s = stream("a,b,c", 0);
    assert!(s.advance_until_char(b','));
    assert_eq!(s.pos(), 1);
    assert_eq!(s.peek_char(0), Some(b','));
    assert!(s.advance_until_char(b','));
    assert_eq!(s.pos(), 1);
    assert_eq!(s.advance(1), Ok(()));
    assert!(s.advance_until_char(b','));
    assert_eq!(s.pos(), 3);
}

#[test]
fn advance_until_char_ignores_occurrences_before_the_offset() {
    let mut s = stream("x=1", 2);
    assert!(!s.advance_until_char(b'='));
    assert_eq!(s.pos(), 3);
}

#[test]
fn advance_until_char_without_an_occurrence_goes_to_the_end() {
    let mut s = stream("xyz", 0);
    assert!(!s.advance_until_char(b'9'));
    assert_eq!(s.pos(), 3);
    assert!(s.eos());
}

#[test]
fn advance_until_chars_stops_at_the_first_occurrence() {
    let mut s = stream("abcabc", 0);
    assert!(s.advance_until_chars("bc"));
    assert_eq!(s.pos(), 1);
    assert!(s.advance_until_chars("bc"));
    assert_eq!(s.pos(), 1);
    assert_eq!(s.advance(1), Ok(()));
    assert!(s.advance_until_chars("bc"));
    assert_eq!(s.pos(), 4);
}

#[test]
fn advance_until_chars_finds_an_occurrence_that_ends_the_source() {
    let mut s = stream("a -->", 0);
    assert!(s.advance_until_chars("-->"));
    assert_eq!(s.pos(), 2);
    assert!(s.advance_if_chars("-->"));
    assert!(s.eos());
}

#[test]
fn advance_until_chars_without_an_occurrence_goes_to_the_end() {
    let mut s = stream("abcabc", 2);
    assert!(!s.advance_until_chars("abd"));
    assert_eq!(s.pos(), 6);
    let mut t = stream("ab", 0);
    assert!(!t.advance_until_chars("abc"));
    assert_eq!(t.pos(), 2);
}

#[test]
fn advance_until_chars_finds_the_empty_literal_where_it_stands() {
    let mut s = stream("abc", 2);
    assert!(s.advance_until_chars(""));
    assert_eq!(s.pos(), 2);
    s.go_to_end();
    assert!(s.advance_until_chars(""));
    assert_eq!(s.pos(), 3);
}

#[test]
fn advance_until_chars_skips_overlapping_false_starts() {
    let mut s = stream("aaab", 0);
    assert!(s.advance_until_chars("aab"));
    assert_eq!(s.pos(), 1);
}

#[test]
fn skip_whitespace_steps_over_leading_spaces() {
    let mut s = stream("  hello", 0);
    assert!(s.skip_whitespace());
    assert_eq!(s.pos(), 2);
}

#[test]
fn skip_whitespace_knows_five_bytes() {
    let mut s = stream(" \t\n\x0c\rx", 0);
    assert!(s.skip_whitespace());
    assert_eq!(s.pos(), 5);
}

#[test]
fn skip_whitespace_stops_at_other_control_bytes() {
    let mut s = stream(" \x0b ", 0);
    assert!(s.skip_whitespace());
    assert_eq!(s.pos(), 1);
    assert!(!s.skip_whitespace());
    assert_eq!(s.pos(), 1);
    let mut t = stream("\u{a0}x", 0);
    assert!(!t.skip_whitespace());
    assert_eq!(t.pos(), 0);
}

#[test]
fn skip_whitespace_twice_moves_only_once() {
    let mut s = stream("a \n\t b", 1);
    assert!(s.skip_whitespace());
    assert_eq!(s.pos(), 5);
    assert!(!s.skip_whitespace());
    assert_eq!(s.pos(), 5);
}

#[test]
fn skip_whitespace_runs_to_the_end() {
    let mut s = stream("a   ", 1);
    assert!(s.skip_whitespace());
    assert_eq!(s.pos(), 4);
    assert!(s.eos());
    assert!(!s.skip_whitespace());
    assert_eq!(s.pos(), 4);
}

#[test]
fn advance_while_char_counts_the_bytes_it_steps_over() {
    let mut s = stream("12345abc", 1);
    assert_eq!(s.advance_while_char(|b| b.is_ascii_digit()), 4);
    assert_eq!(s.pos(), 5);
    assert_eq!(s.advance_while_char(|b| b.is_ascii_digit()), 0);
    assert_eq!(s.pos(), 5);
}

#[test]
fn advance_while_char_runs_to_the_end() {
    let mut s = stream("abc", 1);
    assert_eq!(s.advance_while_char(|_| true), 2);
    assert_eq!(s.pos(), 3);
    assert!(s.eos());
}

#[test]
fn advance_while_char_stops_at_the_first_refused_byte() {
    let mut s = stream("aXaa", 0);
    assert_eq!(s.advance_while_char(|b| b == b'a'), 1);
    assert_eq!(s.pos(), 1);
    assert_eq!(s.advance_while_char(|_| false), 0);
    assert_eq!(s.pos(), 1);
}

#[test]
fn failed_moves_report_out_of_range() {
    let mut s = stream("ab", 1);
    assert_eq!(s.go_back(2), Err(StreamError::OutOfRange));
    assert_eq!(s.advance(2), Err(StreamError::OutOfRange));
    assert_eq!(s.pos(), 1);
}

#[test]
fn literals_are_compared_byte_by_byte_at_any_offset() {
    let mut s = MultiLineStream::new("é=", 1).unwrap();
    assert!(!s.on_char_boundary());
    assert!(s.advance_if_chars(""));
    assert_eq!(s.pos(), 1);
    assert!(s.advance_until_chars(""));
    assert_eq!(s.pos(), 1);
    assert!(!s.advance_if_chars("é"));
    assert_eq!(s.pos(), 1);
    assert!(s.advance_until_chars("="));
    assert_eq!(s.pos(), 2);
}
