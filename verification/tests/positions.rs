//! Position-mapping tests: offsets to line/column pairs, spans to ranges.

use html_lint::position::{char_to_position, chars_of, span_to_range, Position, Span};

#[test]
fn offset_zero_is_origin() {
    let text = chars_of("hello");
    assert_eq!(char_to_position(&text, 0), Position { line: 0, column: 0 });
}

#[test]
fn column_counts_characters_on_one_line() {
    let text = chars_of("hello");
    assert_eq!(char_to_position(&text, 3), Position { line: 0, column: 3 });
    assert_eq!(char_to_position(&text, 5), Position { line: 0, column: 5 });
}

#[test]
fn line_counts_newlines_before_offset() {
    // Offsets:       0123 456 7 8
    let text = chars_of("ab\ncd\n\nx");
    assert_eq!(char_to_position(&text, 2), Position { line: 0, column: 2 });
    assert_eq!(char_to_position(&text, 3), Position { line: 1, column: 0 });
    assert_eq!(char_to_position(&text, 4), Position { line: 1, column: 1 });
    assert_eq!(char_to_position(&text, 6), Position { line: 2, column: 0 });
    assert_eq!(char_to_position(&text, 7), Position { line: 3, column: 0 });
    assert_eq!(char_to_position(&text, 8), Position { line: 3, column: 1 });
}

#[test]
fn offsets_past_the_end_clamp_to_end_of_text() {
    let text = chars_of("ab\ncd");
    let end = char_to_position(&text, 5);
    assert_eq!(char_to_position(&text, 100), end);
    assert_eq!(end, Position { line: 1, column: 2 });
}

#[test]
fn empty_text_maps_every_offset_to_origin() {
    let text = chars_of("");
    assert_eq!(char_to_position(&text, 0), Position { line: 0, column: 0 });
    assert_eq!(char_to_position(&text, 9), Position { line: 0, column: 0 });
}

#[test]
fn span_maps_both_endpoints() {
    let text = chars_of("ab\ncd\nef");
    let range = span_to_range(&text, &Span { lo: 1, hi: 7 });
    assert_eq!(range.start, Position { line: 0, column: 1 });
    assert_eq!(range.end, Position { line: 2, column: 1 });
}
