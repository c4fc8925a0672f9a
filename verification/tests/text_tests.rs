use bevy_game::text::{typewriter_text, typewriter_text_checked, typewriter_wrap};

#[test]
fn short_text_is_unchanged() {
    assert_eq!(typewriter_wrap("hello world"), "hello world");
    assert_eq!(typewriter_text("hello world", 99999), "hello world");
}

#[test]
fn typewriter_cuts_at_byte_count() {
    assert_eq!(typewriter_text("hello world", 5), "hello");
    assert_eq!(typewriter_text("hello world", 0), "");
}

#[test]
fn long_lines_wrap_after_forty_letters() {
    let text = "aaaaaaaaaa bbbbbbbbbb cccccccccc dddddddddd eeeeeeeeee";
    assert_eq!(
        typewriter_wrap(text),
        "aaaaaaaaaa bbbbbbbbbb cccccccccc dddddddddd \neeeeeeeeee"
    );
}

#[test]
fn lines_and_spaces_are_normalised() {
    assert_eq!(typewriter_wrap("a  b\nc"), "a b\nc");
    assert_eq!(typewriter_wrap(""), "");
}

#[test]
fn cut_inside_a_character_is_refused() {
    assert_eq!(typewriter_text_checked("é", 1), None);
    assert_eq!(typewriter_text_checked("é", 2), Some("é".to_owned()));
}

#[test]
fn typed_out_compares_with_the_whole_text() {
    assert!(!bevy_game::text::text_typed_out("Hello there", 5));
    assert!(bevy_game::text::text_typed_out("Hello there", 11));
    assert!(bevy_game::text::text_typed_out("Hello there", 400));
    assert!(bevy_game::text::text_typed_out("", 0));
}

#[test]
fn decimal_digits() {
    let s = |n: u64| bevy_game::text::decimal_chars(n).into_iter().collect::<String>();
    assert_eq!(s(0), "0");
    assert_eq!(s(7), "7");
    assert_eq!(s(10), "10");
    assert_eq!(s(9876543210), "9876543210");
    assert_eq!(s(u64::MAX), "18446744073709551615");
}
