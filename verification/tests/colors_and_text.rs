use noord::gfx::colors::Color;
use noord::text::{chars_of, digit_char, push_decimal, push_digits, push_text};

#[test]
fn new_alpha_keeps_each_channel() {
    let c = Color::new_alpha(1, 2, 3, 4);
    assert_eq!((c.r, c.g, c.b, c.a), (1, 2, 3, 4));
}

#[test]
fn black_is_opaque() {
    assert_eq!(Color::black(), Color { r: 0, g: 0, b: 0, a: 255 });
}

#[test]
fn transparent_has_no_alpha() {
    assert_eq!(Color::transparent(), Color { r: 0, g: 0, b: 0, a: 0 });
}

#[test]
fn colour_is_written_as_rgba() {
    assert_eq!(Color::new_alpha(1, 20, 255, 255).describe(), "rgba(1, 20, 255, 1)");
    assert_eq!(Color::new_alpha(0, 0, 0, 254).describe(), "rgba(0, 0, 0, 0)");
    assert_eq!(Color::transparent().describe(), "rgba(0, 0, 0, 0)");
}

fn decimal(n: i64) -> String {
    let mut s = String::new();
    push_decimal(&mut s, n);
    s
}

#[test]
fn decimal_numerals() {
    assert_eq!(decimal(0), "0");
    assert_eq!(decimal(7), "7");
    assert_eq!(decimal(10), "10");
    assert_eq!(decimal(-1), "-1");
    assert_eq!(decimal(1234567890), "1234567890");
    assert_eq!(decimal(i64::MAX), "9223372036854775807");
    assert_eq!(decimal(i64::MIN), "-9223372036854775808");
}

#[test]
fn digits_are_appended() {
    let mut s = String::from("n=");
    push_digits(&mut s, 405);
    push_digits(&mut s, u64::MAX);
    assert_eq!(s, "n=40518446744073709551615");
    assert_eq!(digit_char(0), '0');
    assert_eq!(digit_char(9), '9');
}

#[test]
fn text_is_appended() {
    let mut s = String::from("ab");
    push_text(&mut s, "");
    push_text(&mut s, "cd\u{e9}");
    assert_eq!(s, "abcd\u{e9}");
}

#[test]
fn chars_are_listed_in_order() {
    assert_eq!(chars_of("a\u{e9}b"), vec!['a', '\u{e9}', 'b']);
    assert_eq!(chars_of(""), Vec::<char>::new());
}
