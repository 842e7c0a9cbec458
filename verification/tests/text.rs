use draft_claw::text::{
    clone_texts, contains_text, format_i64, format_u64, from_chars, join, pad_left, pad_right,
    parse_u8, same_text, same_texts, split_char, split_head, split_whitespace, starts_with,
    text_less, to_chars, trim,
};

#[test]
fn numbers_are_written_in_decimal() {
    assert_eq!(format_u64(0), "0");
    assert_eq!(format_u64(7), "7");
    assert_eq!(format_u64(10), "10");
    assert_eq!(format_u64(1234567890), "1234567890");
    assert_eq!(format_u64(u64::MAX), u64::MAX.to_string());
    assert_eq!(format_i64(0), "0");
    assert_eq!(format_i64(-1), "-1");
    assert_eq!(format_i64(-120), "-120");
    assert_eq!(format_i64(i64::MIN), i64::MIN.to_string());
    assert_eq!(format_i64(i64::MAX), i64::MAX.to_string());
}

#[test]
fn numerals_up_to_255_are_read() {
    assert_eq!(parse_u8("0"), Some(0));
    assert_eq!(parse_u8("7"), Some(7));
    assert_eq!(parse_u8("007"), Some(7));
    assert_eq!(parse_u8("+48"), Some(48));
    assert_eq!(parse_u8("255"), Some(255));
    assert_eq!(parse_u8("256"), None);
    assert_eq!(parse_u8("99999999999999999999999"), None);
    assert_eq!(parse_u8(""), None);
    assert_eq!(parse_u8("+"), None);
    assert_eq!(parse_u8("-1"), None);
    assert_eq!(parse_u8("++1"), None);
    assert_eq!(parse_u8(" 1"), None);
    assert_eq!(parse_u8("1 "), None);
    assert_eq!(parse_u8("1a"), None);
    for n in 0..=255u8 {
        assert_eq!(parse_u8(&n.to_string()), Some(n));
        assert_eq!(n.to_string().parse::<u8>().ok(), parse_u8(&n.to_string()));
    }
}

#[test]
fn padding_counts_characters() {
    assert_eq!(pad_right("ab", 5), "ab   ");
    assert_eq!(pad_right("abcdef", 5), "abcdef");
    assert_eq!(pad_right("", 0), "");
    assert_eq!(pad_left("ab", 5), "   ab");
    assert_eq!(pad_left("abcdef", 5), "abcdef");
    assert_eq!(pad_right("\u{e9}\u{e9}", 3), format!("{:<3}", "\u{e9}\u{e9}"));
    assert_eq!(pad_left("\u{e9}\u{e9}", 3), format!("{:>3}", "\u{e9}\u{e9}"));
}

#[test]
fn words_are_split_at_white_space() {
    assert_eq!(split_whitespace("  a  bc\td\n"), vec!["a", "bc", "d"]);
    assert_eq!(split_whitespace(""), Vec::<String>::new());
    assert_eq!(split_whitespace(" \t "), Vec::<String>::new());
    assert_eq!(split_whitespace("one"), vec!["one"]);
    let text = " Pick\u{a0}13 of\u{2003}48 ";
    let expected: Vec<String> = text.split_whitespace().map(|s| s.to_string()).collect();
    assert_eq!(split_whitespace(text), expected);
}

#[test]
fn fields_are_split_at_a_character() {
    assert_eq!(split_char("p1p12", 'p'), vec!["", "1", "12"]);
    assert_eq!(split_char("", ','), vec![""]);
    assert_eq!(split_char(",", ','), vec!["", ""]);
    assert_eq!(split_char("a,,b", ','), vec!["a", "", "b"]);
    assert_eq!(split_char("abc", ','), vec!["abc"]);
}

#[test]
fn parts_are_joined_with_a_separator() {
    assert_eq!(join(&vec![], ", "), "");
    assert_eq!(join(&vec!["a".to_string()], ", "), "a");
    assert_eq!(join(&vec!["a".to_string(), "b".to_string(), "".to_string()], ", "), "a, b, ");
    assert_eq!(join(&vec!["a".to_string(), "b".to_string()], ""), "ab");
}

#[test]
fn head_and_tail_are_cut_at_the_first_white_space() {
    assert_eq!(split_head("vote card  name"), ("vote".to_string(), "card  name".to_string()));
    assert_eq!(split_head("vote"), ("vote".to_string(), "".to_string()));
    assert_eq!(split_head(""), ("".to_string(), "".to_string()));
    assert_eq!(split_head(" x"), ("".to_string(), "x".to_string()));
    assert_eq!(split_head("a "), ("a".to_string(), "".to_string()));
}

#[test]
fn trim_drops_white_space_at_both_ends() {
    assert_eq!(trim("  a b \n"), "a b");
    assert_eq!(trim("a"), "a");
    assert_eq!(trim(""), "");
    assert_eq!(trim(" \t "), "");
    assert_eq!(trim("x  "), "x");
    assert_eq!(trim("  x"), "x");
}

#[test]
fn dictionary_order() {
    assert!(text_less("", "a"));
    assert!(!text_less("", ""));
    assert!(!text_less("a", ""));
    assert!(text_less("a", "b"));
    assert!(!text_less("b", "a"));
    assert!(text_less("ab", "abc"));
    assert!(text_less("abc", "abd"));
    assert!(!text_less("abc", "abc"));
    assert!(text_less("Z", "a"));
    for (a, b) in [("bat", "cat"), ("z", "\u{e9}"), ("card", "cards"), ("a b", "a")] {
        assert_eq!(text_less(a, b), a < b);
        assert_eq!(text_less(b, a), b < a);
    }
}

#[test]
fn texts_are_compared_and_copied() {
    assert!(same_text("abc", "abc"));
    assert!(!same_text("abc", "abd"));
    assert!(!same_text("abc", "ab"));
    assert!(starts_with("draft-12", "draft"));
    assert!(starts_with("draft", ""));
    assert!(!starts_with("dra", "draft"));
    assert!(!starts_with("Draft-12", "draft"));
    let list = vec!["a".to_string(), "b".to_string()];
    assert!(contains_text(&list, "b"));
    assert!(!contains_text(&list, "c"));
    assert_eq!(clone_texts(&list), list);
    assert!(same_texts(&list, &clone_texts(&list)));
    assert!(!same_texts(&list, &vec!["a".to_string()]));
    assert!(!same_texts(&list, &vec!["a".to_string(), "c".to_string()]));
    assert_eq!(from_chars(&to_chars("h\u{e9}llo")), "h\u{e9}llo");
    assert_eq!(to_chars("ab"), vec!['a', 'b']);
}
