use draft_claw::models::draft_data::{DraftPick, DraftRecord};
use draft_claw::reconcile::reconcile;

fn observed(cards: &[&str]) -> DraftRecord {
    let mut record = DraftRecord::new("game".to_string(), DraftPick::new(7));
    record.set_selection_vec(cards);
    record.set_selection_text("text");
    record
}

#[test]
fn nothing_stored_means_write() {
    let (merged, overwrite) = reconcile(observed(&["a", "b"]), None);
    assert!(overwrite);
    assert_eq!(merged.selection_vec, vec!["a".to_string(), "b".to_string()]);
    assert_eq!(merged.selected_card, None);
}

#[test]
fn same_record_with_picture_needs_no_write() {
    let mut stored = observed(&["a", "b"]);
    stored.set_image_url("http://example.org/x.png");
    let (merged, overwrite) = reconcile(stored.clone(), Some(stored.clone()));
    assert!(!overwrite);
    assert_eq!(merged.selection_vec, stored.selection_vec);
    assert_eq!(merged.image_url, stored.image_url);
    assert_eq!(merged.selected_card, stored.selected_card);
}

#[test]
fn same_cards_without_stored_picture_need_a_write() {
    let stored = observed(&["a", "b"]);
    let (_, overwrite) = reconcile(observed(&["a", "b"]), Some(stored));
    assert!(overwrite);
}

#[test]
fn other_cards_need_a_write() {
    let mut stored = observed(&["a", "b"]);
    stored.set_image_url("http://example.org/x.png");
    let (merged, overwrite) = reconcile(observed(&["a", "c"]), Some(stored.clone()));
    assert!(overwrite);
    assert_eq!(merged.selection_vec, vec!["a".to_string(), "c".to_string()]);
    let (_, overwrite) = reconcile(observed(&["a"]), Some(stored));
    assert!(overwrite);
}

#[test]
fn stored_choice_is_carried_forward() {
    let mut stored = observed(&["a", "b", "c", "d"]);
    stored.set_image_url("http://example.org/x.png");
    stored.pick_card(3);
    let (merged, overwrite) = reconcile(observed(&["a", "b", "c", "d"]), Some(stored));
    assert_eq!(merged.selected_card, Some(3));
    assert!(!overwrite);
    assert_eq!(merged.image_url, None);
}

#[test]
fn observed_choice_stays_where_none_is_stored() {
    let mut seen = observed(&["a", "b"]);
    seen.pick_card(1);
    let (merged, _) = reconcile(seen, Some(observed(&["a", "b"])));
    assert_eq!(merged.selected_card, Some(1));
}
