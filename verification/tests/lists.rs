use ars::lists::{
    expiry_stamp, find, list_file_name, marker_chars, read_expiry, read_line_expiry, rewrite_entry,
    split_lines, stands_at, Declared, RefreshError, SECONDS_PER_DAY,
};

fn chars(s: &str) -> Vec<char> {
    s.chars().collect()
}

fn lines(s: &str) -> Vec<String> {
    split_lines(&chars(s)).iter().map(|l| l.iter().collect()).collect()
}

#[test]
fn file_name_is_the_last_segment_of_the_address() {
    assert_eq!(list_file_name("https://easylist.to/easylist/easylist.txt"), "easylist.txt");
    assert_eq!(list_file_name("https://host.example/a/b/c"), "c");
    assert_eq!(list_file_name("plain"), "plain");
}

#[test]
fn file_name_is_empty_for_an_address_that_ends_in_a_slash() {
    assert_eq!(list_file_name("https://host.example/"), "");
    assert_eq!(list_file_name(""), "");
}

#[test]
fn lines_end_at_line_feeds() {
    assert_eq!(lines("a\nb\nc"), vec!["a", "b", "c"]);
    assert_eq!(lines("a\nb\n"), vec!["a", "b"]);
    assert_eq!(lines("\n"), vec![""]);
    assert_eq!(lines("\n\n"), vec!["", ""]);
    assert_eq!(lines(""), Vec::<String>::new());
}

#[test]
fn lines_lose_the_carriage_return_of_their_ending() {
    assert_eq!(lines("a\r\nb\r\n"), vec!["a", "b"]);
    assert_eq!(lines("a\r\r\n"), vec!["a\r"]);
    assert_eq!(lines("a\rb\n"), vec!["a\rb"]);
    assert_eq!(lines("last\r"), vec!["last\r"]);
}

#[test]
fn lines_agree_with_the_standard_library() {
    for text in ["", "\n", "a", "a\n", "a\r\n", "a\n\nb", "\r\n\r\n", "x\r", "one\ntwo\r\nthree"] {
        let expected: Vec<String> = text.lines().map(|l| l.to_string()).collect();
        assert_eq!(lines(text), expected);
    }
}

#[test]
fn marker_is_the_expires_comment() {
    assert_eq!(marker_chars(), chars("! Expires: "));
}

#[test]
fn stands_at_compares_at_one_position() {
    let s = chars("abcabc");
    assert!(stands_at(&s, &chars("abc"), 0));
    assert!(stands_at(&s, &chars("abc"), 3));
    assert!(!stands_at(&s, &chars("abc"), 1));
    assert!(!stands_at(&s, &chars("abc"), 4));
    assert!(!stands_at(&s, &chars("abc"), 100));
    assert!(stands_at(&s, &chars(""), 6));
    assert!(!stands_at(&s, &chars(""), 7));
}

#[test]
fn find_gives_the_first_position() {
    assert_eq!(find(&chars("xxabxab"), &chars("ab")), Some(2));
    assert_eq!(find(&chars("ab"), &chars("ab")), Some(0));
    assert_eq!(find(&chars("a"), &chars("ab")), None);
    assert_eq!(find(&chars("ba"), &chars("ab")), None);
    assert_eq!(find(&chars(""), &chars("")), Some(0));
    assert_eq!(find(&chars("abc"), &chars("")), Some(0));
}

#[test]
fn a_line_without_the_marker_declares_nothing() {
    assert_eq!(read_line_expiry(&chars("||ads.example^")), None);
    assert_eq!(read_line_expiry(&chars("! Expires:4 days")), None);
    assert_eq!(read_line_expiry(&chars("")), None);
}

#[test]
fn a_line_with_the_marker_declares_the_number_after_it() {
    assert_eq!(read_line_expiry(&chars("! Expires: 4 days (update frequency)")), Some(Some(4)));
    assert_eq!(read_line_expiry(&chars("! Expires: 1")), Some(Some(1)));
    assert_eq!(read_line_expiry(&chars("# ! Expires: 12 days")), Some(Some(12)));
}

#[test]
fn a_marker_without_a_number_is_malformed() {
    assert_eq!(read_line_expiry(&chars("! Expires: soon")), Some(None));
    assert_eq!(read_line_expiry(&chars("! Expires: ")), Some(None));
    assert_eq!(read_line_expiry(&chars("! Expires:  4 days")), Some(None));
    assert_eq!(read_line_expiry(&chars("! Expires: 4days")), Some(None));
}

#[test]
fn the_first_line_with_the_marker_decides() {
    assert_eq!(read_expiry(&chars("[Adblock]\n! Title: x\n! Expires: 2 days\n! Expires: 9 days\n")), Declared::Days(2));
    assert_eq!(read_expiry(&chars("! Expires: x\n! Expires: 9 days\n")), Declared::Malformed);
    assert_eq!(read_expiry(&chars("||a^\n||b^\n")), Declared::Never);
    assert_eq!(read_expiry(&chars("")), Declared::Never);
    assert_eq!(read_expiry(&chars("! Expires: 3\r\n")), Declared::Days(3));
}

#[test]
fn expiry_stamp_adds_whole_days() {
    assert_eq!(SECONDS_PER_DAY, 86_400);
    assert_eq!(expiry_stamp(1_700_000_000, 4), Some(1_700_345_600));
    assert_eq!(expiry_stamp(0, 0), Some(0));
    assert_eq!(expiry_stamp(5, 1), Some(86_405));
}

#[test]
fn expiry_stamp_is_none_beyond_64_bits() {
    assert_eq!(expiry_stamp(u64::MAX, 1), None);
    assert_eq!(expiry_stamp(0, u64::MAX), None);
    assert_eq!(expiry_stamp(u64::MAX - 86_400, 1), Some(u64::MAX));
    assert_eq!(expiry_stamp(u64::MAX - 86_399, 1), None);
}

#[test]
fn a_list_without_expiry_gives_the_address_alone() {
    let line = rewrite_entry("https://host.example/list.txt", "||ads.example^\n", 1_700_000_000);
    assert_eq!(line, Ok("https://host.example/list.txt".to_string()));
}

#[test]
fn a_list_with_expiry_gives_address_and_second() {
    let content = "[Adblock Plus 2.0]\n! Title: Example\n! Expires: 4 days (update frequency)\n||ads.example^\n";
    let line = rewrite_entry("https://host.example/list.txt", content, 1_700_000_000);
    assert_eq!(line, Ok("https://host.example/list.txt 1700345600".to_string()));
}

#[test]
fn a_list_with_malformed_expiry_gives_no_line() {
    let line = rewrite_entry("https://host.example/list.txt", "! Expires: never\n", 1_700_000_000);
    assert_eq!(line, Err(RefreshError::MalformedExpiry));
}

#[test]
fn a_list_that_expires_beyond_64_bits_gives_no_line() {
    let line = rewrite_entry("https://host.example/list.txt", "! Expires: 18446744073709551615 days\n", 1);
    assert_eq!(line, Err(RefreshError::ExpiryOutOfRange));
    let line = rewrite_entry("u", "! Expires: 1 days\n", u64::MAX);
    assert_eq!(line, Err(RefreshError::ExpiryOutOfRange));
}
