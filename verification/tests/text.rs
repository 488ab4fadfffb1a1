use telchar::bytes::{
    append_bytes, join_16, join_32, push_big_endian_16, push_big_endian_32,
    push_little_endian_16, push_little_endian_32,
};
use telchar::text::{
    append_decimal, append_hexadecimal, append_signed, append_wide_decimal, before, blank,
    characters, contains_control, ends_with, equal_ignoring_case, find, hexadecimal,
    length_in_bytes, parse_unsigned, same_text, split_at_each, starts_with, trimmed,
};
use telchar::time::Span;

fn written(write: impl FnOnce(&mut String)) -> String {
    let mut output = String::from("=");
    write(&mut output);
    output
}

#[test]
fn numbers_are_written() {
    assert_eq!(written(|output| append_decimal(output, 0)), "=0");
    assert_eq!(written(|output| append_decimal(output, u64::MAX)), "=18446744073709551615");
    assert_eq!(
        written(|output| append_wide_decimal(output, u128::MAX)),
        format!("={}", u128::MAX)
    );
    assert_eq!(written(|output| append_signed(output, i64::MIN)), "=-9223372036854775808");
    assert_eq!(written(|output| append_signed(output, 12)), "=12");
    assert_eq!(written(|output| append_hexadecimal(output, 0xbeef)), "=beef");
    assert_eq!(hexadecimal(&[0, 0x0f, 0xa5]), "000fa5");
}

#[test]
fn numbers_are_parsed() {
    let parse = |text: &str, maximum| parse_unsigned(&characters(text), maximum);
    assert_eq!(parse("42", 100), Some(42));
    assert_eq!(parse("+42", 100), Some(42));
    assert_eq!(parse("101", 100), None);
    assert_eq!(parse("18446744073709551615", u64::MAX), Some(u64::MAX));
    assert_eq!(parse("18446744073709551616", u64::MAX), None);
    for text in ["", "+", "-1", "1a", " 1"] {
        assert_eq!(parse(text, 100), None);
    }
}

#[test]
fn texts_are_searched() {
    let find = |text: &str, pattern: &str| find(&characters(text), &characters(pattern));
    assert_eq!(find("aabab", "ab"), Some(1));
    assert_eq!(find("aabab", "c"), None);
    let pieces: Vec<String> = split_at_each(&characters("a, b,,c"), &characters(","))
        .into_iter()
        .map(|piece| piece.into_iter().collect())
        .collect();
    assert_eq!(pieces, ["a", " b", "", "c"]);
    assert!(starts_with("ssh-cert:x", "ssh-cert:") && !starts_with("ssh", "ssh-cert:"));
    assert!(ends_with("a.drv", ".drv") && !ends_with("drv", ".drv"));
    assert!(contains_control("a\u{85}b") && !contains_control("a b"));
    assert!(blank(" \t\u{3000}") && !blank(" a "));
    assert_eq!(trimmed(&characters("\u{a0} a b \n")), ['a', ' ', 'b']);
    assert!(equal_ignoring_case(&characters("ÄbC"), &characters("Äbc")));
    assert!(!equal_ignoring_case(&characters("ä"), &characters("Ä")));
    assert_eq!(length_in_bytes("aé€😀"), 10);
    assert!(same_text("é", "é") && !same_text("é", "e"));
}

#[test]
fn texts_are_ordered_as_their_bytes() {
    let texts = ["", "a", "aa", "b", "é", "€", "\u{ffff}", "😀"];
    for (i, left) in texts.iter().enumerate() {
        for (j, right) in texts.iter().enumerate() {
            assert_eq!(before(left, right), i < j);
            assert_eq!(before(left, right), left < right);
        }
    }
}

#[test]
fn bytes_of_numbers_join() {
    let mut bytes = Vec::new();
    push_big_endian_16(&mut bytes, 0x0102);
    push_big_endian_32(&mut bytes, 0x0304_0506);
    push_little_endian_16(&mut bytes, 0x0807);
    push_little_endian_32(&mut bytes, 0x0c0b_0a09);
    append_bytes(&mut bytes, &[13, 14]);
    assert_eq!(bytes, (1..=14).collect::<Vec<u8>>());
    assert_eq!(join_16(1, 2), 0x0102);
    assert_eq!(join_32(3, 4, 5, 6), 0x0304_0506);
}

#[test]
fn spans_are_compared_and_halved() {
    assert_eq!(Span::from_milliseconds(1500).nanoseconds_in_all(), 1_500_000_000);
    assert_eq!(Span::from_seconds(3).half(), Span::from_milliseconds(1500));
    assert!(Span::from_milliseconds(999).shorter_than(&Span::from_seconds(1)));
    assert!(!Span::from_seconds(1).shorter_than(&Span::from_milliseconds(1000)));
    assert!(Span::from_seconds(0).is_zero() && !Span::from_milliseconds(1).is_zero());
}
