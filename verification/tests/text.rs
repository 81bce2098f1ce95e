use ars::decimal::{digit_of, digit_to_char, parse_u64, write_u64};
use ars::text::{slice_chars, split_chars, to_chars, to_text};

fn chars(s: &str) -> Vec<char> {
    s.chars().collect()
}

fn split(s: &str, sep: char) -> Vec<String> {
    split_chars(&chars(s), sep).iter().map(|f| f.iter().collect()).collect()
}

#[test]
fn to_chars_keeps_every_character_in_order() {
    assert_eq!(to_chars("a b\tc"), vec!['a', ' ', 'b', '\t', 'c']);
    assert_eq!(to_chars(""), Vec::<char>::new());
    assert_eq!(to_chars("é€"), vec!['é', '€']);
}

#[test]
fn to_text_builds_the_string_of_the_characters() {
    assert_eq!(to_text(&vec!['h', 'i', '!']), "hi!");
    assert_eq!(to_text(&Vec::new()), "");
    assert_eq!(to_text(&to_chars("round trip €")), "round trip €");
}

#[test]
fn slice_chars_copies_the_range() {
    let v = chars("abcdef");
    assert_eq!(slice_chars(&v, 1, 4), chars("bcd"));
    assert_eq!(slice_chars(&v, 0, 6), v);
    assert_eq!(slice_chars(&v, 3, 3), Vec::<char>::new());
}

#[test]
fn split_gives_one_field_for_text_without_separator() {
    assert_eq!(split("abc", ' '), vec!["abc"]);
    assert_eq!(split("", ' '), vec![""]);
}

#[test]
fn split_keeps_empty_fields_at_ends_and_between() {
    assert_eq!(split("a b", ' '), vec!["a", "b"]);
    assert_eq!(split(" a", ' '), vec!["", "a"]);
    assert_eq!(split("a ", ' '), vec!["a", ""]);
    assert_eq!(split("a  b", ' '), vec!["a", "", "b"]);
    assert_eq!(split(" ", ' '), vec!["", ""]);
}

#[test]
fn split_agrees_with_the_standard_library() {
    for text in ["n u s t", "x\ty\t", "\t\t", "https://a/b/c", "no-separator", ""] {
        for sep in [' ', '\t', '/'] {
            let expected: Vec<String> = text.split(sep).map(|f| f.to_string()).collect();
            assert_eq!(split(text, sep), expected);
        }
    }
}

#[test]
fn joining_the_fields_with_the_separator_gives_the_text_back() {
    for text in ["a b c", " lead", "trail ", "", "  "] {
        assert_eq!(split(text, ' ').join(" "), text);
    }
}

#[test]
fn parse_u64_reads_plain_digits() {
    assert_eq!(parse_u64(&chars("0")), Some(0));
    assert_eq!(parse_u64(&chars("123")), Some(123));
    assert_eq!(parse_u64(&chars("007")), Some(7));
    assert_eq!(parse_u64(&chars("1700000000")), Some(1_700_000_000));
}

#[test]
fn parse_u64_takes_a_leading_plus_sign() {
    assert_eq!(parse_u64(&chars("+5")), Some(5));
    assert_eq!(parse_u64(&chars("+")), None);
    assert_eq!(parse_u64(&chars("++5")), None);
}

#[test]
fn parse_u64_refuses_what_is_no_number() {
    assert_eq!(parse_u64(&chars("")), None);
    assert_eq!(parse_u64(&chars("12a")), None);
    assert_eq!(parse_u64(&chars("-1")), None);
    assert_eq!(parse_u64(&chars(" 1")), None);
    assert_eq!(parse_u64(&chars("1.5")), None);
    assert_eq!(parse_u64(&chars("٣")), None);
}

#[test]
fn parse_u64_stops_at_the_largest_value() {
    assert_eq!(parse_u64(&chars("18446744073709551615")), Some(u64::MAX));
    assert_eq!(parse_u64(&chars("18446744073709551616")), None);
    assert_eq!(parse_u64(&chars("99999999999999999999999")), None);
    assert_eq!(parse_u64(&chars("00000000000000000000000000001")), Some(1));
}

#[test]
fn parse_u64_agrees_with_the_standard_library() {
    for text in ["", "+", "+0", "42", "4 2", "18446744073709551615", "18446744073709551616", "x", "0x10"] {
        assert_eq!(parse_u64(&chars(text)), text.parse::<u64>().ok());
    }
}

#[test]
fn write_u64_writes_decimal_digits() {
    assert_eq!(write_u64(0), chars("0"));
    assert_eq!(write_u64(9), chars("9"));
    assert_eq!(write_u64(10), chars("10"));
    assert_eq!(write_u64(1_700_345_600), chars("1700345600"));
    assert_eq!(write_u64(u64::MAX), chars("18446744073709551615"));
}

#[test]
fn a_written_number_is_read_back() {
    for n in [0u64, 1, 9, 10, 99, 100, 86_400, 1_700_000_000, u64::MAX - 1, u64::MAX] {
        assert_eq!(parse_u64(&write_u64(n)), Some(n));
    }
}

#[test]
fn digits_and_their_values() {
    assert_eq!(digit_of('0'), Some(0));
    assert_eq!(digit_of('7'), Some(7));
    assert_eq!(digit_of('9'), Some(9));
    assert_eq!(digit_of('a'), None);
    assert_eq!(digit_of('/'), None);
    assert_eq!(digit_of(':'), None);
    assert_eq!(digit_to_char(0), '0');
    assert_eq!(digit_to_char(9), '9');
}
