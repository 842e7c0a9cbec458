use draft_claw::capture::draft::{
    capture_draft_record, collect_name_tokens, draft_record_of, get_draft_selection_text,
    initialize_runtime_data, parse_pick_number, CaptureOpt, RuntimeData, ScreenMatchedData,
};
use draft_claw::capture::screen::{
    card_positions, deck_positions, get_card_position, pick_num_position, select_card, ScreenData,
    ScreenRect,
};
use draft_claw::card_loader::{get_card_rating_list, load_card_hashmap_by_name, load_card_rating};
use draft_claw::error::DraftError;
use draft_claw::models::card::{Card, CardInfluence, CardRarity, CardType};

fn card(name: &str, cost: u32) -> Card {
    Card {
        set_number: 1,
        name: name.to_string(),
        card_text: String::new(),
        cost,
        influence: CardInfluence::parse("{F}"),
        attack: 2,
        health: 3,
        rarity: CardRarity::Common,
        card_type: CardType::parse("Unit"),
        image_url: String::new(),
        details_url: String::new(),
        deck_buildable: true,
        set_name: String::new(),
    }
}

fn runtime() -> RuntimeData {
    let cards = vec![card("card alpha", 1), card("card beta", 2), card("card omega", 3)];
    let ratings = load_card_rating(&vec![
        "title".to_string(),
        "A\tcard alpha\t\tcard omega".to_string(),
        "4 deliveries\tcard omega".to_string(),
    ]);
    initialize_runtime_data(cards, ratings)
}

fn screen(pick: &str, cards: &[&str]) -> ScreenData {
    ScreenData {
        pick_num: pick.to_string(),
        cards: cards.iter().map(|s| s.to_string()).collect(),
        deck: vec![
            ("card beta".to_string(), "x2".to_string()),
            ("card alpha".to_string(), " 1 ".to_string()),
        ],
    }
}

#[test]
fn screen_rects_and_positions() {
    let rect = ScreenRect::new(1, 2, 3, 4);
    assert_eq!(rect, ScreenRect { x: 1, y: 2, width: 3, height: 4 });
    let positions = card_positions();
    assert_eq!(positions.len(), 12);
    assert_eq!(positions[0], ScreenRect::new(393, 250, 160, 14));
    assert_eq!(positions[3], ScreenRect::new(1062, 250, 160, 14));
    assert_eq!(positions[5], ScreenRect::new(615, 565, 160, 14));
    assert_eq!(positions[11], ScreenRect::new(1062, 880, 160, 14));
    assert_eq!(pick_num_position(), ScreenRect::new(1055, 1008, 185, 31));
    assert!(deck_positions().is_empty());
    assert_eq!(get_card_position(6), (839, 565));
}

#[test]
fn select_card_gives_the_tap_command() {
    assert_eq!(
        select_card(0),
        Ok(vec![
            "shell".to_string(),
            "input".to_string(),
            "tap".to_string(),
            "393".to_string(),
            "250".to_string()
        ])
    );
    assert_eq!(select_card(11).unwrap()[3..], ["1062".to_string(), "880".to_string()]);
    assert_eq!(select_card(12), Err(DraftError::IndexOutOfBounds));
}

#[test]
fn pick_number_is_the_second_word() {
    assert_eq!(parse_pick_number("Pick 13"), Ok(13));
    assert_eq!(parse_pick_number("  Card  48 of 48\n"), Ok(48));
    assert_eq!(parse_pick_number("Pick"), Err(DraftError::MissingPickNumber));
    assert_eq!(parse_pick_number(""), Err(DraftError::MissingPickNumber));
    assert_eq!(parse_pick_number("Pick x3"), Err(DraftError::BadPickNumber));
    assert_eq!(parse_pick_number("Pick 300"), Err(DraftError::BadPickNumber));
    assert_eq!(parse_pick_number("Pick 0"), Err(DraftError::InvalidPick));
    assert_eq!(parse_pick_number("Pick 49"), Err(DraftError::InvalidPick));
}

#[test]
fn ratings_are_read_line_by_line() {
    let ratings = load_card_rating(&vec![
        "title\tignored".to_string(),
        "A\tone\t\ttwo".to_string(),
        "10 cylices\tthree\tone".to_string(),
        "lonely".to_string(),
    ]);
    assert_eq!(ratings.get("one"), Some("D".to_string()));
    assert_eq!(ratings.get("two"), Some("A".to_string()));
    assert_eq!(ratings.get("three"), Some("D".to_string()));
    assert_eq!(ratings.get("ignored"), None);
    assert_eq!(ratings.get(""), None);
    assert_eq!(ratings.len(), 3);
    assert_eq!(load_card_rating(&Vec::new()).len(), 0);
    let list = get_card_rating_list(&ratings);
    assert_eq!(list.len(), 3);
    assert_eq!(list[0].format, "14.0");
    assert_eq!(list[0].name, "one");
    assert_eq!(list[0].rating, "D");
    assert_eq!(list[1].name, "two");
    assert_eq!(list[2].name, "three");
    let again = load_card_rating(&vec!["t".to_string(), "4 deliveries\tx".to_string()]);
    assert_eq!(again.get("x"), Some("D+".to_string()));
}

#[test]
fn of_two_cards_of_one_name_the_later_is_found() {
    let map = load_card_hashmap_by_name(vec![card("a", 1), card("b", 2), card("a", 3)]);
    assert_eq!(map.get("a").map(|c| c.cost), Some(3));
    assert_eq!(map.get("b").map(|c| c.cost), Some(2));
    assert!(map.get("c").is_none());
    assert_eq!(map.len(), 3);
}

#[test]
fn name_tokens_come_once_each() {
    let names = vec!["card alpha".to_string(), "card  beta".to_string(), "".to_string()];
    assert_eq!(collect_name_tokens(&names), vec!["card", "alpha", "beta"]);
    let data = runtime();
    assert_eq!(data.card_name_tokens, vec!["card", "alpha", "beta", "omega"]);
    assert!(data.card_index.is_exact());
    assert_eq!(data.card_ratings.get("card omega"), Some("D+".to_string()));
}

#[test]
fn a_picture_is_matched_with_the_catalogue() {
    let data = runtime();
    let seen = screen("Pick 11", &["caru alpha", "cerd 0mega", "card beta"]);
    let matched =
        get_draft_selection_text(&data, &seen, &CaptureOpt::default(), "game.png".to_string())
            .unwrap();
    assert_eq!(matched.pick_num, 11);
    assert_eq!(matched.selection_vec, vec!["card alpha", "card omega"]);
    assert_eq!(matched.image_path, "game.png");
    let line1 = format!("{:<2} [{:<2}] C 1{:<6} {:30}{:>7}\n", 1, "A", "F", "card alpha", " 2/ 3");
    let line2 = format!("{:<2} [{:<2}] C 3{:<6} {:30}{:>7}\n", 2, "D+", "F", "card omega", " 2/ 3");
    assert_eq!(matched.selection_text, format!("{}{}", line1, line2));
    assert_eq!(
        matched.deck,
        vec![
            format!("2x {:30}", format!("2{:<6} card beta", "F")),
            format!("1x {:30}", format!("1{:<6} card alpha", "F")),
        ]
    );
}

#[test]
fn a_card_without_rating_shows_na() {
    let data = runtime();
    let seen = screen("Pick 12", &["card beta"]);
    let matched =
        get_draft_selection_text(&data, &seen, &CaptureOpt::default(), String::new()).unwrap();
    assert!(matched.selection_text.starts_with("1  [NA] C 2F      card beta"));
}

#[test]
fn an_incomplete_picture_is_refused_unless_asked_for() {
    let data = runtime();
    let seen = screen("Pick 10", &["card alpha", "nothing here", "card beta"]);
    assert_eq!(
        get_draft_selection_text(&data, &seen, &CaptureOpt::default(), String::new()).err(),
        Some(DraftError::IncompleteObservation)
    );
    let lenient = CaptureOpt { ocr_pick: false };
    let matched = get_draft_selection_text(&data, &seen, &lenient, String::new()).unwrap();
    assert_eq!(matched.selection_vec, vec!["card alpha", "card beta"]);
}

#[test]
fn only_as_many_texts_count_as_the_pick_offers() {
    let data = runtime();
    let seen = screen("Pick 12", &["card omega", "card alpha", "card beta"]);
    let matched =
        get_draft_selection_text(&data, &seen, &CaptureOpt::default(), String::new()).unwrap();
    assert_eq!(matched.selection_vec, vec!["card omega"]);
}

#[test]
fn a_bad_pick_counter_stops_everything() {
    let data = runtime();
    for (text, error) in [
        ("Pick", DraftError::MissingPickNumber),
        ("Pick ?", DraftError::BadPickNumber),
        ("Pick 49", DraftError::InvalidPick),
    ] {
        let seen = screen(text, &["card alpha"]);
        assert_eq!(
            get_draft_selection_text(&data, &seen, &CaptureOpt::default(), String::new()).err(),
            Some(error)
        );
        assert_eq!(
            capture_draft_record(&data, &seen, &CaptureOpt::default(), String::new(), "g").err(),
            Some(error)
        );
    }
}

#[test]
fn a_picture_becomes_a_record() {
    let data = runtime();
    let seen = screen("Pick 11", &["card alpha", "card beta"]);
    let (record, path) =
        capture_draft_record(&data, &seen, &CaptureOpt::default(), "game.png".to_string(), "g1")
            .unwrap();
    assert_eq!(path, "game.png");
    assert_eq!(record.game_id, "g1");
    assert_eq!(record.pick.pick_id, 11);
    assert_eq!(record.pick.pick_str, "p1p11");
    assert_eq!(record.selection_vec, vec!["card alpha", "card beta"]);
    assert_eq!(record.decklist_text.len(), 2);
    assert_eq!(record.selected_card, None);
    assert_eq!(record.image_url, None);
}

#[test]
fn a_picture_without_cards_gives_no_record() {
    let data = runtime();
    let seen = screen("Pick 11", &[]);
    let lenient = CaptureOpt { ocr_pick: false };
    assert_eq!(
        capture_draft_record(&data, &seen, &lenient, String::new(), "g1").err(),
        Some(DraftError::EmptySelection)
    );
    let odd = ScreenMatchedData {
        pick_num: 0,
        selection_text: "x".to_string(),
        selection_vec: Vec::new(),
        deck: Vec::new(),
        image_path: String::new(),
    };
    assert_eq!(draft_record_of(odd, "g1").err(), Some(DraftError::InvalidPick));
}

#[test]
fn every_error_has_its_message() {
    assert_eq!(DraftError::InvalidPick.message(), "Invalid draft pick");
    assert_eq!(DraftError::AmbiguousMatch.message(), "Multiple cards found");
    assert_eq!(DraftError::NoMatch.message(), "Unable to find card in list with vote text");
    assert_eq!(DraftError::IncompleteObservation.message(), "Found fewer cards than expected");
    assert_eq!(DraftError::NoVotes.message(), "Unable to get highest voted pick");
    assert_eq!(
        DraftError::AlreadyCommitted.message(),
        "Another card is committed for this pick already"
    );
    assert_eq!(DraftError::NotOwner.message(), "Only the owner of the game can commit");
    assert_eq!(DraftError::IndexOutOfBounds.message(), "Pick index is out of bounds");
    assert_eq!(DraftError::MissingPickNumber.message(), "unable to capture pick number");
    assert_eq!(DraftError::BadPickNumber.message(), "invalid pick number");
    assert_eq!(DraftError::EmptySelection.message(), "Unable to capture draft record");
    assert_eq!(DraftError::NoRecord.message(), "Could not find draft record");
}

#[test]
fn a_new_game_gets_a_name_of_eight_letters_and_digits() {
    let mut context = draft_claw::context::Context::load_data("path", &Vec::new());
    let first = draft_claw::capture::draft::create_new_game(&mut context);
    assert_eq!(first.chars().count(), 8);
    assert!(first.chars().all(|c| c.is_ascii_alphanumeric()));
    assert_eq!(context.read_data("current_game_id"), Some(first.clone()));
    let second = draft_claw::capture::draft::create_new_game(&mut context);
    assert_eq!(second.chars().count(), 8);
    assert_eq!(context.read_data("current_game_id"), Some(second));
    assert_eq!(context.data.len(), 1);
}
