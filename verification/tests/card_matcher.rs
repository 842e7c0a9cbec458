use draft_claw::capture::card_index::CardIndex;
use draft_claw::capture::card_matcher::{
    correct_text, correct_word, find_card, find_card_name_matches, pick_single, preprocess_text,
    resolve,
};
use draft_claw::capture::draft::collect_name_tokens;
use draft_claw::error::DraftError;

fn catalog(names: &[&str]) -> CardIndex {
    let mut index = CardIndex::new();
    for name in names {
        index.insert(name);
    }
    index
}

fn tokens(names: &[&str]) -> Vec<String> {
    let owned: Vec<String> = names.iter().map(|n| n.to_string()).collect();
    collect_name_tokens(&owned)
}

#[test]
fn card_matcher_tesc_find_matches() {
    const ALPHA: &str = "card alpha";
    const BETA: &str = "card beta";
    const OMEGA: &str = "card omega";

    let card_names = vec![ALPHA, BETA, OMEGA];
    let card_indexes = catalog(&card_names);
    let card_name_tokens = tokens(&card_names);

    assert_eq!(
        find_card_name_matches(
            &card_indexes,
            &card_name_tokens,
            &vec!["caru alpha", "cerd 0mega"],
        ),
        vec![ALPHA, OMEGA]
    );
}

#[test]
fn unresolved_fragments_are_left_out_in_order() {
    let names = ["card alpha", "card beta", "card omega"];
    let index = catalog(&names);
    let dict = tokens(&names);
    assert_eq!(
        find_card_name_matches(&index, &dict, &vec!["card omega", "card", "card alpha"]),
        vec!["card omega", "card alpha"]
    );
    assert_eq!(find_card_name_matches(&index, &dict, &vec![]), Vec::<String>::new());
}

#[test]
fn ambiguous_fragment_resolves_to_none() {
    let names = ["card alpha", "card beta", "card omega"];
    let index = catalog(&names);
    let dict = tokens(&names);
    assert_eq!(resolve("card", &index, &dict), Err(DraftError::AmbiguousMatch));
    assert_eq!(find_card("card", &index), None);
    assert_eq!(find_card("card beta", &index), Some("card beta".to_string()));
    assert_eq!(resolve("card beta", &index, &dict), Ok("card beta".to_string()));
    assert_eq!(resolve("Card Beta!", &index, &dict), Ok("card beta".to_string()));
}

#[test]
fn fragment_without_any_match() {
    let index = catalog(&[]);
    let dict: Vec<String> = Vec::new();
    assert_eq!(resolve("anything", &index, &dict), Err(DraftError::NoMatch));
    assert_eq!(resolve("", &index, &dict), Err(DraftError::NoMatch));
}

#[test]
fn pick_single_takes_only_a_lone_hit() {
    assert_eq!(pick_single(vec![]), Err(DraftError::NoMatch));
    assert_eq!(pick_single(vec!["a".to_string()]), Ok("a".to_string()));
    assert_eq!(
        pick_single(vec!["a".to_string(), "b".to_string()]),
        Err(DraftError::AmbiguousMatch)
    );
}

#[test]
fn preprocess_text_keeps_name_characters() {
    assert_eq!(preprocess_text("Card: alpha!"), "Card alpha");
    assert_eq!(preprocess_text("Kaleb's, Choice\n"), "Kaleb's, Choice\n");
    assert_eq!(preprocess_text("(#)"), "");
}

#[test]
fn correct_word_takes_the_nearest_token() {
    let dict = vec!["card".to_string(), "alpha".to_string(), "beta".to_string(), "omega".to_string()];
    assert_eq!(correct_word("caru", &dict), "card");
    assert_eq!(correct_word("0mega", &dict), "omega");
    assert_eq!(correct_word("beta", &dict), "beta");
    assert_eq!(correct_word("word", &Vec::new()), "");
}

#[test]
fn correct_word_breaks_ties_by_dictionary_order() {
    let one = vec!["cat".to_string(), "bat".to_string(), "rat".to_string()];
    let other = vec!["rat".to_string(), "cat".to_string(), "bat".to_string(), "cat".to_string()];
    assert_eq!(correct_word("hat", &one), "bat");
    assert_eq!(correct_word("hat", &other), "bat");
}

#[test]
fn correct_text_corrects_word_by_word() {
    let dict = vec!["card".to_string(), "alpha".to_string(), "omega".to_string()];
    assert_eq!(correct_text("cerd   0mega", &dict), "card omega");
    assert_eq!(correct_text("", &dict), "");
    assert_eq!(correct_text(" caru\talpha ", &dict), "card alpha");
}

#[test]
fn search_gives_each_name_once() {
    let index = catalog(&["card alpha", "card beta", "card alpha"]);
    let mut hits = index.search("card");
    hits.sort();
    assert_eq!(hits, vec!["card alpha", "card beta"]);
    assert!(index.is_exact());
}
