use sysfetch::chalk::Chalk;
use sysfetch::layout::Format;

#[test]
fn colorize_exact_escape_sequence() {
    let s = Chalk::colorize("hi", 0xFF8001, true);
    assert_eq!(s, "\x1b[1;38;2;255;128;1mhi\x1b[0m");
}

#[test]
fn colorize_plain_not_bold() {
    let s = Chalk::colorize("x", 0x000000, false);
    assert_eq!(s, "\x1b[0;38;2;0;0;0mx\x1b[0m");
}

#[test]
fn colorize_keeps_visual_length() {
    for &(color, bold) in &[(0u32, false), (0xFFFFFF, true), (0x9FA1C9, false), (0x75AFFA, true)] {
        let colored = Chalk::colorize("hello", color, bold);
        assert_eq!(Format::visual_len(&colored), 5);
    }
}

#[test]
fn colorize_round_trip_length_on_boundary_colors() {
    let low = Chalk::colorize("abc", 0x000000, false);
    let high = Chalk::colorize("abc", 0xFFFFFF, true);
    assert_eq!(Format::visual_len(&low), 3);
    assert_eq!(Format::visual_len(&high), 3);
}

#[test]
fn visual_len_strips_nested_sequences() {
    assert_eq!(Format::visual_len("\x1b[0m"), 0);
    assert_eq!(Format::visual_len("a\x1b[1;38;2;1;2;3mb\x1b[0mc"), 3);
    assert_eq!(Format::visual_len(""), 0);
    // an unfinished escape counts as ordinary characters
    assert_eq!(Format::visual_len("\x1b[12;"), 5);
    assert_eq!(Format::visual_len("\x1b[12x"), 5);
}

#[test]
fn center_pads_both_sides_evenly() {
    assert_eq!(Format::center(10, "ab"), "    ab    ");
}

#[test]
fn center_floors_odd_leftover() {
    // half of the leftover 9 is 4, laid on both sides: one column short
    assert_eq!(Format::center(11, "ab"), "    ab    ");
}

#[test]
fn center_saturates_when_text_overflows() {
    assert_eq!(Format::center(1, "abc"), "abc");
}

#[test]
fn center_ignores_color_escapes() {
    let colored = Chalk::colorize("ab", 0x123456, false);
    let centered = Format::center(10, &colored);
    assert!(centered.starts_with("    "));
    assert!(centered.ends_with("    "));
    assert_eq!(Format::visual_len(&centered), 10);
}

#[test]
fn stretch_fills_the_middle() {
    assert_eq!(Format::stretch(5, "k", "v"), "k   v");
}

#[test]
fn stretch_saturates_when_pieces_overflow() {
    assert_eq!(Format::stretch(1, "ab", "cd"), "abcd");
}

#[test]
fn right_pads_on_the_left() {
    assert_eq!(Format::right(5, "ab"), "   ab");
    assert_eq!(Format::right(1, "ab"), "ab");
}

#[test]
fn left_pads_on_the_right() {
    assert_eq!(Format::left(5, "ab"), "ab   ");
    assert_eq!(Format::left(1, "ab"), "ab");
}
