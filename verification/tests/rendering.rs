use sema::message::dec_string;
use sema::render::{eof_lines, line_col, line_end, line_start, snippet_of};
use sema::span::Span;

#[test]
fn location_counts_newlines_and_columns() {
    let src: Vec<u8> = b"ab\ncd\nef".to_vec();
    // position of 'd' is 4: second line, column 1
    assert_eq!(line_col(&src, 4), (2, 1));
    // start of text
    assert_eq!(line_col(&src, 0), (1, 0));
    // position of 'e' is 6: third line, column 0
    assert_eq!(line_col(&src, 6), (3, 0));
    // end of text is still on the third line
    assert_eq!(line_col(&src, 8), (3, 2));
}

#[test]
fn location_matches_manual_round_trip() {
    let src: Vec<u8> = b"fn main() {\n    boom\n}\n".to_vec();
    let pos = 16; // 'b' of boom
    let before = &src[..pos];
    let expected_line = 1 + before.iter().filter(|&&c| c == b'\n').count();
    let prev_nl = before.iter().rposition(|&c| c == b'\n').unwrap();
    let expected_col = pos - (prev_nl + 1);
    assert_eq!(line_col(&src, pos), (expected_line, expected_col));
}

#[test]
fn line_bounds_bracket_their_position() {
    let src: Vec<u8> = b"one\ntwo\nthree".to_vec();
    assert_eq!(line_start(&src, 5), 4);
    assert_eq!(line_end(&src, 5), 7);
    assert_eq!(line_start(&src, 0), 0);
    assert_eq!(line_end(&src, 12), 13);
}

#[test]
fn single_line_snippet_underlines_the_span() {
    let src: Vec<u8> = b"let x = 1 / 0;\n".to_vec();
    let s = snippet_of(&src, Span::new(12, 13));
    assert_eq!(s.line, 1);
    assert_eq!(s.col, 12);
    assert_eq!(s.first_line, b"let x = 1 / 0;".to_vec());
    assert!(s.last_line.is_none());
    assert!(!s.elided);
    assert_eq!(s.caret_count, 1);
}

#[test]
fn multi_line_snippet_keeps_first_and_last_lines() {
    let src: Vec<u8> = b"alpha\nbeta\ngamma\ndelta\n".to_vec();
    // span from inside "alpha" to inside "delta": four lines, so elided
    let s = snippet_of(&src, Span::new(2, 20));
    assert_eq!(s.line, 1);
    assert_eq!(s.col, 2);
    assert_eq!(s.first_line, b"alpha".to_vec());
    assert_eq!(s.last_line, Some(b"delta".to_vec()));
    assert!(s.elided);
    assert_eq!(s.caret_count, 5);
}

#[test]
fn eof_lines_report_the_tail_of_the_file() {
    let src: Vec<u8> = b"first\nsecond\n".to_vec();
    let (count, last, prev) = eof_lines(&src);
    assert_eq!(count, 2);
    assert_eq!(last, b"second".to_vec());
    assert_eq!(prev, Some(b"first".to_vec()));

    let empty: Vec<u8> = Vec::new();
    let (count, last, prev) = eof_lines(&empty);
    assert_eq!(count, 0);
    assert_eq!(last, Vec::<u8>::new());
    assert_eq!(prev, None);
}

#[test]
fn decimal_rendering_is_exact() {
    assert_eq!(dec_string(0), "0");
    assert_eq!(dec_string(7), "7");
    assert_eq!(dec_string(10), "10");
    assert_eq!(dec_string(40000), "40000");
    assert_eq!(dec_string(18446744073709551615), "18446744073709551615");
}
