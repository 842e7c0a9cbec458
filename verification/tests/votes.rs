use draft_claw::error::DraftError;
use draft_claw::models::draft_data::{DraftPick, DraftRecord};
use draft_claw::models::draft_game::{DraftGame, DraftVote};
use draft_claw::votes::{
    commit_highest_voted, commit_pick, commit_state, get_highest_voted_pick, is_owner,
    winning_index, CommitState,
};

fn vote(user: &str, index: u8) -> DraftVote {
    DraftVote::new("game", user, &DraftPick::new(5), index)
}

fn record(cards: usize) -> DraftRecord {
    let mut record = DraftRecord::new("game".to_string(), DraftPick::new(5));
    let names: Vec<String> = (0..cards).map(|i| format!("card {}", i)).collect();
    let refs: Vec<&str> = names.iter().map(|s| s.as_str()).collect();
    record.set_selection_vec(&refs);
    record
}

fn game(owner: Option<&str>) -> DraftGame {
    DraftGame {
        game_id: "game".to_string(),
        time: "now".to_string(),
        user_id: owner.map(|s| s.to_string()),
    }
}

#[test]
fn most_voted_index_wins() {
    let votes = vec![vote("u1", 0), vote("u2", 0), vote("u3", 1)];
    assert_eq!(winning_index(&votes), Some(0));
    let votes = vec![vote("u1", 3), vote("u2", 7), vote("u3", 7)];
    assert_eq!(winning_index(&votes), Some(7));
}

#[test]
fn tie_goes_to_the_lowest_index() {
    assert_eq!(winning_index(&vec![vote("u1", 0), vote("u2", 1)]), Some(0));
    assert_eq!(winning_index(&vec![vote("u1", 9), vote("u2", 4)]), Some(4));
    assert_eq!(winning_index(&vec![vote("u1", 255)]), Some(255));
}

#[test]
fn no_votes_no_winner() {
    assert_eq!(winning_index(&vec![]), None);
}

#[test]
fn a_user_counts_once_for_an_index() {
    let votes = vec![vote("u1", 2), vote("u1", 2), vote("u1", 2), vote("u2", 1), vote("u3", 1)];
    assert_eq!(winning_index(&votes), Some(1));
}

#[test]
fn votes_on_other_picks_and_games_do_not_count() {
    let mut votes = vec![vote("u1", 0)];
    votes.push(DraftVote::new("game", "u2", &DraftPick::new(6), 1));
    votes.push(DraftVote::new("game", "u3", &DraftPick::new(6), 1));
    votes.push(DraftVote::new("other", "u4", &DraftPick::new(5), 2));
    votes.push(DraftVote::new("other", "u5", &DraftPick::new(5), 2));
    assert_eq!(get_highest_voted_pick(&votes, "game", &DraftPick::new(5)), Some(0));
    assert_eq!(get_highest_voted_pick(&votes, "game", &DraftPick::new(6)), Some(1));
    assert_eq!(get_highest_voted_pick(&votes, "other", &DraftPick::new(5)), Some(2));
    assert_eq!(get_highest_voted_pick(&votes, "game", &DraftPick::new(7)), None);
}

#[test]
fn vote_key_names_game_user_and_pick() {
    assert_eq!(
        vote("u1", 3).get_id(),
        vec!["game".to_string(), "u1".to_string(), "5".to_string()]
    );
}

#[test]
fn commit_twice_is_a_no_op_and_another_index_is_refused() {
    let owner = game(Some("owner"));
    let first = commit_pick(record(4), 2, "owner", &owner).unwrap();
    assert_eq!(first.selected_card, Some(2));
    assert_eq!(commit_state(&first), CommitState::Committed(2));
    let second = commit_pick(first.clone(), 2, "owner", &owner).unwrap();
    assert_eq!(second.selected_card, Some(2));
    assert_eq!(second.selection_vec, first.selection_vec);
    assert_eq!(
        commit_pick(second, 3, "owner", &owner).err(),
        Some(DraftError::AlreadyCommitted)
    );
}

#[test]
fn commit_needs_the_owner_and_a_card_on_offer() {
    assert_eq!(commit_state(&record(4)), CommitState::Open);
    assert_eq!(
        commit_pick(record(4), 1, "guest", &game(Some("owner"))).err(),
        Some(DraftError::NotOwner)
    );
    assert_eq!(
        commit_pick(record(4), 1, "guest", &game(None)).err(),
        Some(DraftError::NotOwner)
    );
    assert_eq!(
        commit_pick(record(4), 4, "owner", &game(Some("owner"))).err(),
        Some(DraftError::IndexOutOfBounds)
    );
    assert!(is_owner(&game(Some("owner")), "owner"));
    assert!(!is_owner(&game(Some("owner")), "Owner"));
}

#[test]
fn commit_of_the_voters_choice() {
    let owner = game(Some("owner"));
    let votes = vec![vote("u1", 3), vote("u2", 1), vote("u3", 1)];
    let committed = commit_highest_voted(record(4), &votes, "owner", &owner).unwrap();
    assert_eq!(committed.selected_card, Some(1));
    assert_eq!(
        commit_highest_voted(record(4), &vec![], "owner", &owner).err(),
        Some(DraftError::NoVotes)
    );
    assert_eq!(
        commit_highest_voted(record(4), &votes, "guest", &owner).err(),
        Some(DraftError::NotOwner)
    );
    assert_eq!(
        commit_highest_voted(record(1), &votes, "owner", &owner).err(),
        Some(DraftError::IndexOutOfBounds)
    );
}
