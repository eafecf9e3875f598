use calendar_tui::tui::color_utils::{default_event_color, parse_hex_color, Color};

#[test]
fn test_parse_hex_color_valid() {
    assert_eq!(parse_hex_color("#FF0000"), Some(Color::Rgb(255, 0, 0)));
    assert_eq!(parse_hex_color("#00FF00"), Some(Color::Rgb(0, 255, 0)));
    assert_eq!(parse_hex_color("#0088aa"), Some(Color::Rgb(0, 136, 170)));
}

#[test]
fn test_parse_hex_color_invalid() {
    assert_eq!(parse_hex_color("invalid"), None);
    assert_eq!(parse_hex_color("#GG0000"), None);
    assert_eq!(parse_hex_color("#FF"), None);
    assert_eq!(parse_hex_color("FF0000"), None);
}

#[test]
fn test_parse_hex_color_empty() {
    assert_eq!(parse_hex_color(""), None);
}

#[test]
fn test_default_event_color_is_gray() {
    assert_eq!(default_event_color(), Color::Gray);
}

#[test]
fn hex_digits_in_either_case() {
    assert_eq!(parse_hex_color("#aBcDeF"), Some(Color::Rgb(0xab, 0xcd, 0xef)));
    assert_eq!(parse_hex_color("#09AFaf"), Some(Color::Rgb(0x09, 0xaf, 0xaf)));
    assert_eq!(parse_hex_color("#000000"), Some(Color::Rgb(0, 0, 0)));
    assert_eq!(parse_hex_color("#ffffff"), Some(Color::Rgb(255, 255, 255)));
}

#[test]
fn a_plus_sign_may_stand_for_the_first_digit() {
    assert_eq!(parse_hex_color("#+1+a+F"), Some(Color::Rgb(1, 10, 15)));
    assert_eq!(parse_hex_color("#++0000"), None);
    assert_eq!(parse_hex_color("#1+0000"), None);
    assert_eq!(parse_hex_color("#-10000"), None);
}

#[test]
fn wrong_lengths_and_characters() {
    assert_eq!(parse_hex_color("#FF00000"), None);
    assert_eq!(parse_hex_color("#FF000"), None);
    assert_eq!(parse_hex_color("#FF 000"), None);
    assert_eq!(parse_hex_color("#FF00g0"), None);
    assert_eq!(parse_hex_color("#\u{e9}\u{e9}\u{e9}"), None);
    assert_eq!(parse_hex_color("#\u{e9}00000"), None);
    assert_eq!(parse_hex_color("\u{e9}000000"), None);
    assert_eq!(parse_hex_color("#\u{ff10}\u{ff10}\u{ff10}\u{ff10}\u{ff10}0"), None);
}
