use draft_claw::scan::{build_inverse_lookup, find_matches, preprocess_text};

#[test]
fn tesc_find_matches() {
    let ocr_text = "This is a test card a string card b";
    let card_names = vec!["card b".to_string(), "card a".to_string(), "card c".to_string()];
    let matches = find_matches(
        ocr_text,
        &card_names.iter().map(|s| s.as_str()).collect::<Vec<&str>>(),
    );
    assert_eq!(matches, vec!["card a".to_string(), "card b".to_string()]);
}

#[test]
fn find_matches_compares_letters_numbers_and_spaces_only() {
    assert_eq!(
        find_matches("xx Card-A, yy", &["Card A", "CardA"]),
        vec!["CardA".to_string()]
    );
    assert_eq!(find_matches("", &["a"]), Vec::<String>::new());
    assert_eq!(find_matches("abc", &[]), Vec::<String>::new());
    assert_eq!(find_matches("abc", &[""]), Vec::<String>::new());
}

#[test]
fn find_matches_takes_the_first_token_at_a_place() {
    assert_eq!(find_matches("card alpha", &["card", "card alpha"]), vec!["card".to_string()]);
    assert_eq!(
        find_matches("card alpha", &["card alpha", "card"]),
        vec!["card alpha".to_string()]
    );
    assert_eq!(find_matches("abab", &["ab"]), vec!["ab".to_string(), "ab".to_string()]);
}

#[test]
fn scan_preprocess_text_drops_marks() {
    assert_eq!(preprocess_text("a-b\tc!"), "ab c");
    assert_eq!(preprocess_text("Kaleb's"), "Kalebs");
}

#[test]
fn inverse_lookup_keeps_the_last_spelling() {
    let lookup = build_inverse_lookup(&["a-b", "c", "ab"]);
    assert_eq!(lookup.len(), 2);
    assert_eq!(lookup[0].token, "ab");
    assert_eq!(lookup[0].key, vec!['a', 'b']);
    assert_eq!(lookup[1].token, "c");
}
