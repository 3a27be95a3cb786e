use prompt_print::width::{Grapheme, UnicodeWidthGraphemes};

#[test]
fn test_grapheme_aware_width() {
    // UnicodeWidthStr::width would return 8
    assert_eq!(
        2,
        "\u{1f469}\u{200d}\u{1f469}\u{200d}\u{1f466}\u{200d}\u{1f466}".width_graphemes()
    );
    assert_eq!(1, "U\u{308}".width_graphemes());
    assert_eq!(11, "normal text".width_graphemes());
}

#[test]
fn grapheme_width_is_the_widest_character() {
    assert_eq!(Grapheme::new("a").width(), 1);
    assert_eq!(Grapheme::new("\n").width(), 0);
    assert_eq!(Grapheme::new("").width(), 0);
    assert_eq!(Grapheme::new("日").width(), 2);
    assert_eq!(Grapheme::new("e\u{301}").width(), 1);
}

#[test]
fn owned_text_is_measured_like_borrowed_text() {
    assert_eq!(String::from("normal text").width_graphemes(), 11);
    assert_eq!(String::new().width_graphemes(), 0);
    assert_eq!("".width_graphemes(), 0);
}

#[test]
fn control_characters_take_no_column() {
    assert_eq!("a\nb".width_graphemes(), 2);
    assert_eq!("\r\n".width_graphemes(), 0);
    assert_eq!("\u{1b}[31mred\u{1b}[0m".width_graphemes(), 10);
}

#[test]
fn wide_characters_take_two_columns() {
    assert_eq!("日本語".width_graphemes(), 6);
    assert_eq!("a日b".width_graphemes(), 4);
}

#[test]
fn a_precomposed_letter_takes_one_column() {
    assert_eq!("\u{dc}".width_graphemes(), 1);
    assert_eq!(Grapheme::new("U\u{308}").width(), 1);
}
