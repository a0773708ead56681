use faust_jit::text::{chars_of, cut, find_char, is_whitespace, part_is, trim_bounds};

#[test]
fn white_space_is_what_the_standard_library_takes_for_it() {
    for code in 0..=0x11_0000u32 {
        if let Some(c) = char::from_u32(code) {
            assert_eq!(is_whitespace(c), c.is_whitespace(), "U+{:04X}", code);
        }
    }
}

#[test]
fn trimming_gives_the_bounds_of_what_is_left() {
    let chars = chars_of(" \ta b\u{2003}\n");
    assert_eq!(chars.len(), 7);
    assert_eq!(trim_bounds(&chars, 0, 7), (2, 5));
    assert_eq!(trim_bounds(&chars, 3, 7), (4, 5));
    assert_eq!(trim_bounds(&chars, 0, 2), (2, 2));
    assert_eq!(trim_bounds(&chars, 5, 7), (7, 7));
    assert_eq!(trim_bounds(&chars, 2, 5), (2, 5));
    assert_eq!(trim_bounds(&chars_of(""), 0, 0), (0, 0));
    for text in ["", " ", "x", "  x", "x  ", " \u{a0}x y\u{3000} ", "\u{200b} z"] {
        let chars = chars_of(text);
        let (from, to) = trim_bounds(&chars, 0, chars.len());
        assert_eq!(cut(text, from, to), text.trim());
    }
}

#[test]
fn searching_stops_at_the_first_match_or_at_the_end() {
    let chars = chars_of("a:b:c");
    assert_eq!(find_char(&chars, 0, 5, ':'), 1);
    assert_eq!(find_char(&chars, 1, 5, ':'), 1);
    assert_eq!(find_char(&chars, 2, 5, ':'), 3);
    assert_eq!(find_char(&chars, 4, 5, ':'), 5);
    assert_eq!(find_char(&chars, 0, 1, ':'), 1);
    assert_eq!(find_char(&chars, 2, 2, ':'), 2);
    assert_eq!(find_char(&chars, 0, 5, ';'), 5);
}

#[test]
fn parts_are_compared_and_cut_by_characters() {
    let text = "\u{e9}t\u{e9} style";
    let chars = chars_of(text);
    assert_eq!(chars, text.chars().collect::<Vec<_>>());
    assert!(part_is(&chars, 4, 9, "style"));
    assert!(!part_is(&chars, 4, 8, "style"));
    assert!(!part_is(&chars, 3, 9, "style"));
    assert!(part_is(&chars, 0, 3, "\u{e9}t\u{e9}"));
    assert!(part_is(&chars, 2, 2, ""));
    assert!(!part_is(&chars, 4, 9, "stylo"));
    assert_eq!(cut(text, 0, 3), "\u{e9}t\u{e9}");
    assert_eq!(cut(text, 4, 9), "style");
    assert_eq!(cut(text, 9, 9), "");
}
