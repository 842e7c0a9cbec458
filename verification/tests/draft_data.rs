use draft_claw::error::DraftError;
use draft_claw::models::draft_data::{
    get_draft_pick, get_draft_pick_from_str, get_next_draft_pick, pick_id_of, position_of,
    DraftPick, DraftRecord,
};

#[test]
fn test_draft_pick() {
    let pick1 = DraftPick::new(1);
    assert_eq!(pick1.pick_id, 1);
    assert_eq!(pick1.pick_str, "p1p1");

    let pick2 = DraftPick::new(12);
    assert_eq!(pick2.pick_id, 12);
    assert_eq!(pick2.pick_str, "p1p12");

    let pick3 = DraftPick::new(13);
    assert_eq!(pick3.pick_id, 13);
    assert_eq!(pick3.pick_str, "p2p1");

    let pick4 = DraftPick::new(48);
    assert_eq!(pick4.pick_id, 48);
    assert_eq!(pick4.pick_str, "p4p12");
}

#[test]
fn test_get_next_draft_pick() {
    let pick1 = DraftPick {
        pick_str: "p1p1".to_string(),
        pick_id: 1,
    };
    let next_pick1 = get_next_draft_pick(&pick1);
    assert_eq!(next_pick1.pick_id, 2);
    assert_eq!(next_pick1.pick_str, "p1p2");

    let pick2 = DraftPick {
        pick_str: "p1p12".to_string(),
        pick_id: 12,
    };
    let next_pick2 = get_next_draft_pick(&pick2);
    assert_eq!(next_pick2.pick_id, 13);
    assert_eq!(next_pick2.pick_str, "p2p1");
}

#[test]
fn draft_data_test_get_next_draft_pick() {
    let pick1 = get_draft_pick(1);
    assert_eq!(pick1.pick_str, "p1p1");
    let next_pick1 = get_next_draft_pick(&pick1);
    assert_eq!(next_pick1.pick_id, 2);
    assert_eq!(next_pick1.pick_str, "p1p2");

    let pick2 = get_draft_pick(12);
    assert_eq!(pick2.pick_str, "p1p12");
    let next_pick2 = get_next_draft_pick(&pick2);
    assert_eq!(next_pick2.pick_id, 13);
    assert_eq!(next_pick2.pick_str, "p2p1");
}

#[test]
fn test_expected_card_selection_count() {
    assert_eq!(DraftPick::new(1).get_expected_card_selection_count(), 12);
    assert_eq!(DraftPick::new(2).get_expected_card_selection_count(), 11);
    assert_eq!(DraftPick::new(3).get_expected_card_selection_count(), 10);
    assert_eq!(DraftPick::new(11).get_expected_card_selection_count(), 2);
    assert_eq!(DraftPick::new(12).get_expected_card_selection_count(), 1);
    assert_eq!(DraftPick::new(13).get_expected_card_selection_count(), 12);
    assert_eq!(DraftPick::new(14).get_expected_card_selection_count(), 11);
    assert_eq!(DraftPick::new(47).get_expected_card_selection_count(), 2);
    assert_eq!(DraftPick::new(48).get_expected_card_selection_count(), 1);
}

#[test]
fn test_get_draft_pick() {
    assert_eq!(get_draft_pick(1).pick_str, "p1p1");
    assert_eq!(get_draft_pick(2).pick_str, "p1p2");
    assert_eq!(get_draft_pick(12).pick_str, "p1p12");
    assert_eq!(get_draft_pick(13).pick_str, "p2p1");
    assert_eq!(get_draft_pick(14).pick_str, "p2p2");
    assert_eq!(get_draft_pick(24).pick_str, "p2p12");
    assert_eq!(get_draft_pick(48).pick_str, "p4p12");
}

#[test]
fn test_get_draft_pick_from_str() {
    assert_eq!(get_draft_pick_from_str("p1p1").unwrap().pick_id, 1);
    assert_eq!(get_draft_pick_from_str("p1p2").unwrap().pick_id, 2);
    assert_eq!(get_draft_pick_from_str("p1p12").unwrap().pick_id, 12);
    assert_eq!(get_draft_pick_from_str("p2p1").unwrap().pick_id, 13);
}

#[test]
fn bad_draft_pick_labels_are_refused() {
    assert_eq!(get_draft_pick_from_str("p0p1").err(), Some(DraftError::InvalidPick));
    assert_eq!(get_draft_pick_from_str("p5p1").err(), Some(DraftError::InvalidPick));
    assert_eq!(get_draft_pick_from_str("p4p13").err(), Some(DraftError::InvalidPick));
    assert_eq!(get_draft_pick_from_str("p1p13").err(), Some(DraftError::InvalidPick));
    assert_eq!(get_draft_pick_from_str("p2p0").err(), Some(DraftError::InvalidPick));
    assert_eq!(get_draft_pick_from_str("p1p0").err(), Some(DraftError::InvalidPick));
    assert_eq!(get_draft_pick_from_str("p3p24").err(), Some(DraftError::InvalidPick));
    assert_eq!(get_draft_pick_from_str("p1").err(), Some(DraftError::InvalidPick));
    assert_eq!(get_draft_pick_from_str("").err(), Some(DraftError::InvalidPick));
    assert_eq!(get_draft_pick_from_str("pxp1").err(), Some(DraftError::InvalidPick));
    assert_eq!(get_draft_pick_from_str("p1p300").err(), Some(DraftError::InvalidPick));
    assert_eq!(get_draft_pick_from_str("p4p12").unwrap().pick_str, "p4p12");
}

#[test]
fn labels_and_positions_agree_on_what_is_a_pick() {
    for pack in 0..=6u8 {
        for place in 0..=14u8 {
            let label = format!("p{}p{}", pack, place);
            match pick_id_of(pack, place) {
                Ok(id) => {
                    let pick = get_draft_pick_from_str(&label).unwrap();
                    assert_eq!(pick.pick_id, id);
                    assert_eq!(pick.pick_str, label);
                }
                Err(e) => assert_eq!(get_draft_pick_from_str(&label).err(), Some(e)),
            }
        }
    }
    for id in 1..=48u8 {
        let label = get_draft_pick(id).pick_str;
        assert_eq!(get_draft_pick_from_str(&label).unwrap().pick_id, id);
    }
}

#[test]
fn position_round_trips_for_every_pick() {
    for pick_id in 1..=48u8 {
        let position = position_of(pick_id).unwrap();
        assert_eq!(position.pick_id, pick_id);
        assert!(position.pack_number >= 1 && position.pack_number <= 4);
        assert!(position.pick_in_pack >= 1 && position.pick_in_pack <= 12);
        assert_eq!((position.pack_number - 1) * 12 + position.pick_in_pack, pick_id);
        assert_eq!(pick_id_of(position.pack_number, position.pick_in_pack), Ok(pick_id));
        assert_eq!(position.expected_option_count, 13 - position.pick_in_pack);
    }
}

#[test]
fn position_of_refuses_picks_out_of_range() {
    assert_eq!(position_of(0), Err(DraftError::InvalidPick));
    assert_eq!(position_of(49), Err(DraftError::InvalidPick));
    assert_eq!(position_of(255), Err(DraftError::InvalidPick));
    assert_eq!(pick_id_of(0, 1), Err(DraftError::InvalidPick));
    assert_eq!(pick_id_of(5, 1), Err(DraftError::InvalidPick));
    assert_eq!(pick_id_of(1, 0), Err(DraftError::InvalidPick));
    assert_eq!(pick_id_of(1, 13), Err(DraftError::InvalidPick));
}

#[test]
fn expected_option_count_at_pack_borders() {
    assert_eq!(position_of(1).unwrap().expected_option_count, 12);
    assert_eq!(position_of(12).unwrap().expected_option_count, 1);
    assert_eq!(position_of(13).unwrap().expected_option_count, 12);
    assert_eq!(position_of(48).unwrap().expected_option_count, 1);
    assert_eq!(position_of(13).unwrap().pack_number, 2);
    assert_eq!(position_of(13).unwrap().pick_in_pack, 1);
}

#[test]
fn draft_pick_to_string_shows_number_and_label() {
    assert_eq!(DraftPick::new(5).to_string(), "5 (p1p5)");
    assert_eq!(DraftPick::new(48).to_string(), "48 (p4p12)");
}

#[test]
fn draft_record_setters() {
    let mut record = DraftRecord::new("game".to_string(), DraftPick::new(5));
    assert_eq!(record.game_id, "game");
    assert!(record.selection_vec.is_empty());
    assert_eq!(record.selected_card, None);
    assert_eq!(record.image_url, None);
    assert_eq!(record.get_id(), vec!["game".to_string(), "5".to_string()]);
    assert_eq!(
        DraftRecord::generate_id("other", &DraftPick::new(48)),
        vec!["other".to_string(), "48".to_string()]
    );
    record.set_selection_vec(&["card a", "card b"]);
    assert_eq!(record.selection_vec, vec!["card a".to_string(), "card b".to_string()]);
    record.set_selection_text("text");
    assert_eq!(record.selection_text, "text");
    record.set_decklist_text(&["1x a", "2x b"]);
    assert_eq!(record.decklist_text, vec!["1x a".to_string(), "2x b".to_string()]);
    record.pick_card(1);
    assert_eq!(record.selected_card, Some(1));
    record.set_image_url("http://example.org/p.png");
    assert_eq!(record.image_url, Some("http://example.org/p.png".to_string()));
    let copy = record.clone();
    assert_eq!(copy.selection_vec, record.selection_vec);
    assert_eq!(copy.pick.pick_str, "p1p5");
}
