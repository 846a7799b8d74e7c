use firebase_db::text::{
    byte_len, contains_char, eq_ignore_ascii_case, format_i64, format_u64, insert_char, join,
    last_segment_of, parse_i64, parse_u32, remove_char, split_on, split_once, starts_with,
    str_is_blank, strip_both, strip_leading, strip_trailing, take_chars, to_ascii_lower, to_chars,
    trim,
};

#[test]
fn decimal_text_of_unsigned_numbers() {
    assert_eq!(format_u64(0), "0");
    assert_eq!(format_u64(7), "7");
    assert_eq!(format_u64(10), "10");
    assert_eq!(format_u64(1234567890), "1234567890");
    assert_eq!(format_u64(u64::MAX), "18446744073709551615");
}

#[test]
fn decimal_text_of_signed_numbers() {
    assert_eq!(format_i64(0), "0");
    assert_eq!(format_i64(-1), "-1");
    assert_eq!(format_i64(42), "42");
    assert_eq!(format_i64(i64::MAX), "9223372036854775807");
    assert_eq!(format_i64(i64::MIN), "-9223372036854775808");
}

#[test]
fn parse_i64_reads_what_format_i64_writes() {
    for n in [0i64, 1, -1, 9, 10, -10, 12345, i64::MAX, i64::MIN, i64::MIN + 1] {
        assert_eq!(parse_i64(&format_i64(n)), Some(n));
    }
}

#[test]
fn parse_i64_takes_a_sign_and_digits_only() {
    assert_eq!(parse_i64("+5"), Some(5));
    assert_eq!(parse_i64("-0"), Some(0));
    assert_eq!(parse_i64("007"), Some(7));
    assert_eq!(parse_i64(""), None);
    assert_eq!(parse_i64("-"), None);
    assert_eq!(parse_i64("+"), None);
    assert_eq!(parse_i64(" 5"), None);
    assert_eq!(parse_i64("5 "), None);
    assert_eq!(parse_i64("1.5"), None);
    assert_eq!(parse_i64("1e3"), None);
    assert_eq!(parse_i64("--5"), None);
    assert_eq!(parse_i64("12a"), None);
}

#[test]
fn parse_i64_refuses_what_does_not_fit() {
    assert_eq!(parse_i64("9223372036854775807"), Some(i64::MAX));
    assert_eq!(parse_i64("9223372036854775808"), None);
    assert_eq!(parse_i64("-9223372036854775808"), Some(i64::MIN));
    assert_eq!(parse_i64("-9223372036854775809"), None);
    assert_eq!(parse_i64("99999999999999999999999999999999999999999999"), None);
}

#[test]
fn parse_i64_agrees_with_the_standard_library() {
    for s in ["0", "-0", "+0", "17", "-17", "+17", "0017", "", "x", "1 ", "٣", "9223372036854775808"] {
        assert_eq!(parse_i64(s), s.parse::<i64>().ok(), "on {:?}", s);
    }
}

#[test]
fn parse_u32_takes_no_minus_sign() {
    assert_eq!(parse_u32("0"), Some(0));
    assert_eq!(parse_u32("+30"), Some(30));
    assert_eq!(parse_u32("4294967295"), Some(u32::MAX));
    assert_eq!(parse_u32("4294967296"), None);
    assert_eq!(parse_u32("-0"), None);
    assert_eq!(parse_u32("-1"), None);
    assert_eq!(parse_u32(""), None);
    for s in ["12", "-12", "+12", "-0", "abc", "4294967296"] {
        assert_eq!(parse_u32(s), s.parse::<u32>().ok(), "on {:?}", s);
    }
}

#[test]
fn trim_takes_white_space_off_both_ends() {
    assert_eq!(trim("  a b  "), "a b");
    assert_eq!(trim("\t\r\nx\u{a0}\u{3000}"), "x");
    assert_eq!(trim("   "), "");
    assert_eq!(trim(""), "");
    assert_eq!(trim("x"), "x");
    for s in ["  a ", "\u{2003}b\u{85}", " \u{200b} ", "\u{1680}c\u{feff}"] {
        assert_eq!(trim(s), s.trim(), "on {:?}", s);
    }
}

#[test]
fn blank_means_nothing_but_white_space() {
    assert!(str_is_blank(""));
    assert!(str_is_blank(" \t\n"));
    assert!(!str_is_blank(" a "));
}

#[test]
fn leading_and_trailing_characters_are_stripped() {
    assert_eq!(strip_leading("///users", '/'), "users");
    assert_eq!(strip_leading("users/", '/'), "users/");
    assert_eq!(strip_leading("///", '/'), "");
    assert_eq!(strip_trailing("a\"\"", '"'), "a");
    assert_eq!(strip_both("\"\"Ann\"", '"'), "Ann");
    assert_eq!(strip_both("\"", '"'), "");
}

#[test]
fn the_last_segment_follows_the_last_separator() {
    assert_eq!(last_segment_of("projects/p/databases/(default)/documents/users/abc", '/'), "abc");
    assert_eq!(last_segment_of("abc", '/'), "abc");
    assert_eq!(last_segment_of("abc/", '/'), "");
    assert_eq!(last_segment_of("", '/'), "");
}

#[test]
fn join_puts_the_separator_between_the_parts() {
    let parts = vec!["a".to_string(), "b".to_string(), "c".to_string()];
    assert_eq!(join(&parts, ", "), "a, b, c");
    assert_eq!(join(&vec!["a".to_string()], ", "), "a");
    assert_eq!(join(&Vec::new(), ", "), "");
}

#[test]
fn split_gives_one_piece_more_than_there_are_separators() {
    assert_eq!(split_on("a\nb\n", '\n'), vec!["a", "b", ""]);
    assert_eq!(split_on("", '\n'), vec![""]);
    assert_eq!(split_on("\n", '\n'), vec!["", ""]);
    assert_eq!(split_on("abc", '\n'), vec!["abc"]);
}

#[test]
fn split_once_cuts_at_the_first_separator() {
    assert_eq!(split_once("a=b=c", '='), Some(("a".to_string(), "b=c".to_string())));
    assert_eq!(split_once("=b", '='), Some(("".to_string(), "b".to_string())));
    assert_eq!(split_once("a=", '='), Some(("a".to_string(), "".to_string())));
    assert_eq!(split_once("abc", '='), None);
}

#[test]
fn characters_and_prefixes_are_found() {
    assert!(contains_char("a@b", '@'));
    assert!(!contains_char("ab", '@'));
    assert!(starts_with("Mixed(a, b)", "Mixed("));
    assert!(!starts_with("Mixe", "Mixed("));
    assert!(starts_with("abc", ""));
}

#[test]
fn texts_are_counted_in_characters_and_in_bytes() {
    assert_eq!(to_chars("héllo").len(), 5);
    assert_eq!(byte_len("héllo"), 6);
    assert_eq!(take_chars("héllo", 2), "hé");
    assert_eq!(take_chars("hi", 5), "hi");
}

#[test]
fn ascii_letters_are_lowered() {
    assert_eq!(to_ascii_lower("TrUe ÄB"), "true Äb");
    assert!(eq_ignore_ascii_case("YES", "yes"));
    assert!(!eq_ignore_ascii_case("yes", "no"));
}

#[test]
fn characters_go_in_and_out_at_a_position() {
    assert_eq!(insert_char("ac", 1, 'b'), "abc");
    assert_eq!(insert_char("", 0, 'x'), "x");
    assert_eq!(insert_char("ab", 2, 'c'), "abc");
    assert_eq!(remove_char("abc", 1), "ac");
    assert_eq!(insert_char("hé", 2, '!'), "hé!");
}
