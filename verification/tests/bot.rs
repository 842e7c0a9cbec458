use draft_claw::bot::bot_reply::BotReply;
use draft_claw::bot::command::{
    card_reply, channel_listed, choose_listed, find_card_in_list, get_card, get_help_text,
    is_draft_thread, parse_draft_command, parse_message, resolve_vote, BotCommand, DraftCommand,
};
use draft_claw::bot::dialog::{BotAction, BotEvent, Conversation, Stage};
use draft_claw::capture::card_index::CardIndex;
use draft_claw::card_loader::load_card_hashmap_by_name;
use draft_claw::error::DraftError;
use draft_claw::models::card::{Card, CardInfluence, CardRarity, CardType};
use draft_claw::models::draft_data::{DraftPick, DraftRecord};
use draft_claw::models::draft_game::{DraftGame, DraftVote};

fn record(cards: &[&str]) -> DraftRecord {
    let mut record = DraftRecord::new("g1".to_string(), DraftPick::new(5));
    record.set_selection_vec(cards);
    record.set_selection_text("1 card a\n2 card b\n");
    record.set_decklist_text(&["1x one", "2x two"]);
    record
}

fn send_text(action: BotAction) -> String {
    match action {
        BotAction::Send(text) => text,
        _ => panic!("the conversation did not end"),
    }
}

fn begin(args: &str) -> (Conversation, BotAction) {
    Conversation::new(parse_draft_command(args), "ann").step(BotEvent::Start)
}

fn with_game(args: &str) -> (Conversation, BotAction) {
    let (state, action) = begin(args);
    assert!(matches!(action, BotAction::FindGame { ref user } if user == "ann"));
    state.step(BotEvent::Game(Some("g1".to_string())))
}

#[test]
fn bot_reply_gathers_lines() {
    let mut reply = BotReply::new();
    assert_eq!(reply.to_string(), "");
    reply.add("first".to_string());
    reply.add_boxed("boxed".to_string());
    reply.add("last".to_string());
    assert_eq!(reply.to_string(), "first\n```\nboxed\n```\nlast");
}

#[test]
fn messages_are_told_apart_by_their_first_word() {
    assert!(matches!(parse_message("!draft vote 3"), BotCommand::Draft(args) if args == "vote 3"));
    assert!(matches!(parse_message("!draft"), BotCommand::Draft(args) if args.is_empty()));
    assert!(matches!(parse_message("!card oni ronin"), BotCommand::Card(args) if args == "oni ronin"));
    assert!(matches!(parse_message("!ping"), BotCommand::Ping));
    assert!(matches!(parse_message("!ping now"), BotCommand::Ping));
    assert!(matches!(parse_message("hello"), BotCommand::Ignore));
    assert!(matches!(parse_message(""), BotCommand::Ignore));
    assert!(matches!(parse_message(" !draft"), BotCommand::Ignore));
}

#[test]
fn draft_commands_are_told_apart() {
    assert!(matches!(parse_draft_command("help"), DraftCommand::Help));
    assert!(matches!(parse_draft_command("reg g1"), DraftCommand::Register(id) if id == "g1"));
    assert!(matches!(parse_draft_command("own g1"), DraftCommand::Own(id) if id == "g1"));
    assert!(matches!(parse_draft_command("own"), DraftCommand::Own(id) if id.is_empty()));
    assert!(matches!(parse_draft_command("vote card b"), DraftCommand::Vote(t) if t == "card b"));
    assert!(matches!(parse_draft_command("commit"), DraftCommand::Commit));
    assert!(matches!(parse_draft_command("deck"), DraftCommand::Deck));
    assert!(matches!(parse_draft_command(""), DraftCommand::Show));
    assert!(matches!(parse_draft_command("anything else"), DraftCommand::Show));
    assert!(matches!(parse_draft_command("Help"), DraftCommand::Show));
}

#[test]
fn channels_are_found_in_the_list() {
    assert!(channel_listed("1, 2 ,3", "2"));
    assert!(channel_listed("1, 2 ,3\n", "3"));
    assert!(!channel_listed("1, 2 ,3", "4"));
    assert!(!channel_listed("12", "1"));
    assert!(channel_listed("", ""));
    assert!(!channel_listed("", "1"));
    assert!(is_draft_thread("draft-2024"));
    assert!(!is_draft_thread("general"));
}

#[test]
fn help_text_is_boxed() {
    let text = get_help_text();
    assert!(text.starts_with("```\n!draft - Get the current draft selection\n"));
    assert!(text.ends_with("Only the owner can perform this.\n```"));
}

#[test]
fn votes_by_number_count_from_one() {
    let cards = vec!["card a".to_string(), "card b".to_string(), "other".to_string()];
    assert_eq!(resolve_vote(&cards, "1"), Ok(0));
    assert_eq!(resolve_vote(&cards, "3"), Ok(2));
    assert_eq!(resolve_vote(&cards, "0"), Err(DraftError::IndexOutOfBounds));
    assert_eq!(resolve_vote(&cards, "4"), Err(DraftError::IndexOutOfBounds));
    assert_eq!(resolve_vote(&Vec::new(), "1"), Err(DraftError::IndexOutOfBounds));
}

#[test]
fn votes_by_name_take_the_first_card_that_matches() {
    let cards = vec!["card a".to_string(), "card b".to_string(), "other".to_string()];
    assert_eq!(resolve_vote(&cards, "other"), Ok(2));
    assert_eq!(resolve_vote(&cards, "card b"), Ok(1));
    assert_eq!(resolve_vote(&cards, "card"), Ok(0));
    assert_eq!(resolve_vote(&cards, "zzz"), Err(DraftError::NoMatch));
    assert_eq!(find_card_in_list(&cards, "oth"), Some(2));
    assert_eq!(find_card_in_list(&cards, "zzz"), None);
    assert_eq!(find_card_in_list(&Vec::new(), "card"), None);
}

#[test]
fn votes_by_name_are_read_like_recognised_text() {
    let cards = vec!["card a".to_string(), "card b".to_string(), "other".to_string()];
    assert_eq!(find_card_in_list(&cards, "Other!"), Some(2));
    assert_eq!(find_card_in_list(&cards, "othr"), Some(2));
    assert_eq!(find_card_in_list(&cards, "0ther"), Some(2));
    assert_eq!(resolve_vote(&cards, "cerd b"), Ok(1));
}

#[test]
fn the_first_listed_hit_is_chosen() {
    let list = vec!["x".to_string(), "y".to_string(), "z".to_string()];
    assert_eq!(choose_listed(&list, &vec!["z".to_string(), "y".to_string()]), Some(1));
    assert_eq!(choose_listed(&list, &vec!["q".to_string()]), None);
    assert_eq!(choose_listed(&list, &Vec::new()), None);
    let long: Vec<String> = (0..300).map(|i| format!("n{}", i)).collect();
    assert_eq!(choose_listed(&long, &vec!["n255".to_string()]), Some(255));
    assert_eq!(choose_listed(&long, &vec!["n256".to_string()]), None);
}

fn plain_card(name: &str) -> Card {
    Card {
        set_number: 1,
        name: name.to_string(),
        card_text: String::new(),
        cost: 1,
        influence: CardInfluence::parse(""),
        attack: 0,
        health: 0,
        rarity: CardRarity::Common,
        card_type: CardType::parse("Spell"),
        image_url: format!("http://example.org/{}.png", name.replace(' ', "_")),
        details_url: String::new(),
        deck_buildable: true,
        set_name: String::new(),
    }
}

#[test]
fn a_card_is_shown_only_if_it_is_the_only_hit() {
    let names = ["card alpha", "card beta", "card gamma", "card delta", "lone wolf"];
    let mut index = CardIndex::new();
    for name in names {
        index.insert(name);
    }
    let map = load_card_hashmap_by_name(names.iter().map(|n| plain_card(n)).collect());
    let found = get_card(&index, &map, "lone");
    assert_eq!(card_reply(&found), "http://example.org/lone_wolf.png");
    let none = get_card(&index, &map, "zzz");
    assert_eq!(none.as_ref().err().map(|s| s.as_str()), Some("No card found"));
    assert_eq!(card_reply(&none), "Unable to find card: No card found");
    let many = get_card(&index, &map, "card");
    assert_eq!(
        card_reply(&many),
        "Unable to find card: Multiple cards found: [card alpha], [card beta], [card delta]"
    );
}

#[test]
fn help_is_answered_at_once() {
    let (state, action) = begin("help");
    assert!(state.is_finished());
    assert_eq!(send_text(action), get_help_text());
}

#[test]
fn registering_a_game() {
    let (state, action) = begin("reg g1");
    assert!(matches!(
        action,
        BotAction::Register { ref user, ref game_id } if user == "ann" && game_id == "g1"
    ));
    assert!(!state.is_finished());
    let (state, action) = state.step(BotEvent::Done);
    assert!(state.is_finished());
    assert_eq!(send_text(action), "Game [g1] is now registered to ann");
}

#[test]
fn owning_a_game() {
    let (state, action) = begin("own g1");
    assert!(matches!(
        action,
        BotAction::Own { ref user, ref game_id } if user == "ann" && game_id == "g1"
    ));
    let (_, action) = state.step(BotEvent::Done);
    assert_eq!(send_text(action), "Game [g1] is now owned by [ann]");
    let (state, _) = begin("own g1");
    let (state, action) = state.step(BotEvent::Failed("no storage".to_string()));
    assert_eq!(send_text(action), "Unable to own game: [no storage]");
    assert_eq!(state.stage, Stage::Finished);
}

#[test]
fn without_a_game_nothing_else_is_done() {
    let (state, _) = begin("vote 1");
    let (state, action) = state.step(BotEvent::Game(None));
    assert!(state.is_finished());
    assert_eq!(send_text(action), "No game is registered to [ann]");
}

#[test]
fn voting_by_number() {
    let (state, action) = with_game("vote 2");
    assert!(matches!(action, BotAction::LoadRecord { ref game_id } if game_id == "g1"));
    let (state, action) = state.step(BotEvent::Record(Some(record(&["card a", "card b"]))));
    match action {
        BotAction::StoreVote(vote) => {
            assert_eq!(vote.vote_idx, 1);
            assert_eq!(vote.user_id, "ann");
            assert_eq!(vote.game_id, "g1");
            assert_eq!(vote.draft_pick.pick_id, 5);
        }
        _ => panic!("no vote to store"),
    }
    let (state, action) = state.step(BotEvent::Done);
    assert!(state.is_finished());
    assert_eq!(
        send_text(action),
        "Game [g1]\n[ann] voted card for pick [5 (p1p5)]:\ncard b"
    );
}

#[test]
fn voting_fails_with_a_reason() {
    let (state, _) = with_game("vote 7");
    let (_, action) = state.step(BotEvent::Record(Some(record(&["card a", "card b"]))));
    assert_eq!(send_text(action), "Game [g1]\nErr: Pick index is out of bounds");
    let (state, _) = with_game("vote zzz");
    let (_, action) = state.step(BotEvent::Record(Some(record(&["card a", "card b"]))));
    assert_eq!(
        send_text(action),
        "Game [g1]\nErr: Unable to find card in list with vote text"
    );
    let (state, _) = with_game("vote 1");
    let (_, action) = state.step(BotEvent::Record(None));
    assert_eq!(send_text(action), "Game [g1]\nErr: Could not find draft record");
    let (state, _) = with_game("vote 1");
    let (state, _) = state.step(BotEvent::Record(Some(record(&["card a"]))));
    let (_, action) = state.step(BotEvent::Failed("disk full".to_string()));
    assert_eq!(send_text(action), "Game [g1]\nErr: disk full");
}

fn owned_game(owner: &str) -> Option<DraftGame> {
    Some(DraftGame {
        game_id: "g1".to_string(),
        time: "now".to_string(),
        user_id: Some(owner.to_string()),
    })
}

fn votes() -> Vec<DraftVote> {
    let pick = DraftPick::new(5);
    vec![
        DraftVote::new("g1", "u1", &pick, 1),
        DraftVote::new("g1", "u2", &pick, 1),
        DraftVote::new("g1", "u3", &pick, 0),
    ]
}

#[test]
fn committing_the_voters_choice() {
    let (state, action) = with_game("commit");
    assert!(matches!(action, BotAction::LoadCommitData { ref game_id } if game_id == "g1"));
    let (state, action) = state.step(BotEvent::CommitData(
        Some(record(&["card a", "card b"])),
        votes(),
        owned_game("ann"),
    ));
    match action {
        BotAction::StoreRecord(stored) => assert_eq!(stored.selected_card, Some(1)),
        _ => panic!("no record to store"),
    }
    let (state, action) = state.step(BotEvent::Done);
    assert!(state.is_finished());
    assert_eq!(
        send_text(action),
        "Game [g1]\n[ann] committed card for pick [5 (p1p5)]:\ncard b"
    );
}

#[test]
fn committing_again_what_is_committed_writes_nothing() {
    let mut committed = record(&["card a", "card b"]);
    committed.pick_card(1);
    let (state, _) = with_game("commit");
    let (state, action) =
        state.step(BotEvent::CommitData(Some(committed), votes(), owned_game("ann")));
    assert!(state.is_finished());
    assert_eq!(
        send_text(action),
        "Game [g1]\n[ann] committed card for pick [5 (p1p5)]:\ncard b"
    );
}

#[test]
fn commit_fails_with_a_reason() {
    let (state, _) = with_game("commit");
    let (_, action) = state.step(BotEvent::CommitData(
        Some(record(&["card a", "card b"])),
        Vec::new(),
        owned_game("ann"),
    ));
    assert_eq!(
        send_text(action),
        "Game [g1]\nUnable to get pick: Unable to get highest voted pick"
    );
    let (state, _) = with_game("commit");
    let (_, action) = state.step(BotEvent::CommitData(
        Some(record(&["card a", "card b"])),
        votes(),
        owned_game("bob"),
    ));
    assert_eq!(
        send_text(action),
        "Game [g1]\nUnable to get pick: Only the owner of the game can commit"
    );
    let (state, _) = with_game("commit");
    let (_, action) = state.step(BotEvent::CommitData(None, votes(), owned_game("ann")));
    assert_eq!(send_text(action), "Game [g1]\nUnable to get pick: Could not find draft record");
    let mut committed = record(&["card a", "card b"]);
    committed.pick_card(0);
    let (state, _) = with_game("commit");
    let (_, action) =
        state.step(BotEvent::CommitData(Some(committed), votes(), owned_game("ann")));
    assert_eq!(
        send_text(action),
        "Game [g1]\nUnable to pick: Another card is committed for this pick already"
    );
    let (state, _) = with_game("commit");
    let (_, action) =
        state.step(BotEvent::CommitData(Some(record(&["card a"])), votes(), owned_game("ann")));
    assert_eq!(send_text(action), "Game [g1]\nUnable to pick: Pick index is out of bounds");
}

#[test]
fn deck_and_offer_are_shown() {
    let (state, _) = with_game("deck");
    let (_, action) = state.step(BotEvent::Record(Some(record(&["card a"]))));
    assert_eq!(send_text(action), "Game [g1]\n```\n1x one\n2x two\n```");
    let (state, _) = with_game("deck");
    let (_, action) = state.step(BotEvent::Record(None));
    assert_eq!(send_text(action), "Game [g1]\n```\nNo data\n```");
    let (state, _) = with_game("");
    let (_, action) = state.step(BotEvent::Record(Some(record(&["card a"]))));
    assert_eq!(
        send_text(action),
        "Game [g1]\nCard 5 of 48\n```\n1 card a\n2 card b\n\n```"
    );
    let (state, _) = with_game("");
    let (_, action) = state.step(BotEvent::Record(None));
    assert_eq!(send_text(action), "Game [g1]\nNo draft data available");
}

#[test]
fn an_unexpected_event_ends_the_conversation() {
    let (state, _) = with_game("deck");
    let (state, action) = state.step(BotEvent::Done);
    assert!(state.is_finished());
    assert_eq!(send_text(action), "Game [g1]\n```\nNo data\n```");
    let (state, action) = state.step(BotEvent::Start);
    assert!(state.is_finished());
    assert!(matches!(action, BotAction::Send(_)));
    let (state, action) = Conversation::new(DraftCommand::Commit, "ann").step(BotEvent::Done);
    assert!(state.is_finished());
    assert_eq!(send_text(action), "");
}
