use crate::bot::bot_reply::{BotReply, boxed};
use crate::bot::command::{
    DRAFT_CMD_HELP, DraftCommand, DraftCommandView, get_help_text, named_in_list, resolve_vote,
    vote_target,
};
use crate::capture::card_index::INDEX_CAPACITY;
use crate::error::{DraftError, error_text};
use crate::models::draft_data::{DraftPickView, DraftRecord, DraftRecordView, optional_text};
use crate::models::draft_game::{DraftGame, DraftGameView, DraftVote, DraftVoteView, vote_views};
use crate::reconcile::stored_view;
use crate::text::{decimal, format_u64, join, joined, parsed_u8};
use crate::votes::{commit_highest_voted, voted_commit_outcome};
use vstd::prelude::*;
use vstd::string::*;

verus! {

/// How far the answer to a command on a draft has come.
#[derive(Debug, Clone, Copy, PartialEq, Eq, Structural)]
pub enum Stage {
    /// Nothing has been done yet.
    Start,
    /// The user is being registered for a game.
    Registering,
    /// The user is being made the owner of a game.
    Owning,
    /// The game of the user is being looked up.
    FindingGame,
    /// The record to vote on is being loaded.
    LoadingVote,
    /// The vote is being stored.
    StoringVote,
    /// The record to commit, its votes and its game are being loaded.
    LoadingCommit,
    /// The committed record is being stored.
    StoringCommit,
    /// The record with the deck is being loaded.
    LoadingDeck,
    /// The record with the cards on offer is being loaded.
    LoadingShow,
    /// The answer has been sent.
    Finished,
}

/// What a `Conversation` stands for.
pub struct ConversationView {
    pub stage: Stage,
    pub command: DraftCommandView,
    pub user: Seq<char>,
    pub reply: Seq<Seq<char>>,
    pub pending: Seq<char>,
}

/// The answer to one command on a draft while it is being worked out: the
/// command, the user who gave it, the messages gathered so far, and the
/// message that is due once the outside work of the current stage is done.
pub struct Conversation {
    pub stage: Stage,
    pub command: DraftCommand,
    pub user: String,
    pub reply: BotReply,
    pub pending: String,
}

impl View for Conversation {
    type V = ConversationView;

    open spec fn view(&self) -> ConversationView {
        ConversationView {
            stage: self.stage,
            command: self.command@,
            user: self.user@,
            reply: self.reply@,
            pending: self.pending@,
        }
    }
}

/// What came of the outside work that the last action asked for.
pub enum BotEvent {
    /// The command has just come in.
    Start,
    /// The work was done.
    Done,
    /// The work failed, for this reason.
    Failed(String),
    /// The game that is registered to the user, if one is.
    Game(Option<String>),
    /// The latest record of the game, if it has one.
    Record(Option<DraftRecord>),
    /// The latest record of the game, all votes that were cast in it, and
    /// the game itself, as far as they exist.
    CommitData(Option<DraftRecord>, Vec<DraftVote>, Option<DraftGame>),
}

/// What a `BotEvent` stands for.
pub enum BotEventView {
    Start,
    Done,
    Failed(Seq<char>),
    Game(Option<Seq<char>>),
    Record(Option<DraftRecordView>),
    CommitData(Option<DraftRecordView>, Seq<DraftVoteView>, Option<DraftGameView>),
}

/// What `game` stands for, where there is one.
pub open spec fn game_view(game: Option<DraftGame>) -> Option<DraftGameView> {
    match game {
        Some(g) => Some(g@),
        None => None,
    }
}

impl View for BotEvent {
    type V = BotEventView;

    open spec fn view(&self) -> BotEventView {
        match self {
            BotEvent::Start => BotEventView::Start,
            BotEvent::Done => BotEventView::Done,
            BotEvent::Failed(why) => BotEventView::Failed(why@),
            BotEvent::Game(game_id) => BotEventView::Game(optional_text(*game_id)),
            BotEvent::Record(record) => BotEventView::Record(stored_view(*record)),
            BotEvent::CommitData(record, votes, game) => BotEventView::CommitData(
                stored_view(*record),
                vote_views(votes@),
                game_view(*game),
            ),
        }
    }
}

/// The outside work that is due next.
pub enum BotAction {
    /// Send this text as the answer. Nothing is due after it.
    Send(String),
    /// Note that the user takes part in the game.
    Register { user: String, game_id: String },
    /// Note that the user takes part in the game, and make the user its
    /// owner.
    Own { user: String, game_id: String },
    /// Look up the game that is registered to the user.
    FindGame { user: String },
    /// Load the latest record of the game.
    LoadRecord { game_id: String },
    /// Load the latest record of the game, the votes cast in it, and the
    /// game itself.
    LoadCommitData { game_id: String },
    /// Store the vote, in place of an earlier vote of the same user on the
    /// same pick.
    StoreVote(DraftVote),
    /// Store the record.
    StoreRecord(DraftRecord),
}

/// What a `BotAction` stands for.
pub enum BotActionView {
    Send(Seq<char>),
    Register { user: Seq<char>, game_id: Seq<char> },
    Own { user: Seq<char>, game_id: Seq<char> },
    FindGame { user: Seq<char> },
    LoadRecord { game_id: Seq<char> },
    LoadCommitData { game_id: Seq<char> },
    StoreVote(DraftVoteView),
    StoreRecord(DraftRecordView),
}

impl View for BotAction {
    type V = BotActionView;

    open spec fn view(&self) -> BotActionView {
        match self {
            BotAction::Send(text) => BotActionView::Send(text@),
            BotAction::Register { user, game_id } => BotActionView::Register {
                user: user@,
                game_id: game_id@,
            },
            BotAction::Own { user, game_id } => BotActionView::Own {
                user: user@,
                game_id: game_id@,
            },
            BotAction::FindGame { user } => BotActionView::FindGame { user: user@ },
            BotAction::LoadRecord { game_id } => BotActionView::LoadRecord { game_id: game_id@ },
            BotAction::LoadCommitData { game_id } => BotActionView::LoadCommitData {
                game_id: game_id@,
            },
            BotAction::StoreVote(vote) => BotActionView::StoreVote(vote@),
            BotAction::StoreRecord(record) => BotActionView::StoreRecord(record@),
        }
    }
}

/// The pick as a user reads it: its number, then its label in brackets.
pub open spec fn pick_text(pick: DraftPickView) -> Seq<char> {
    decimal(pick.pick_id as nat) + seq![' ', '('] + pick.pick_str + seq![')']
}

/// The message that a game is registered to a user.
pub open spec fn registered_text(game_id: Seq<char>, user: Seq<char>) -> Seq<char> {
    "Game ["@ + game_id + "] is now registered to "@ + user
}

/// The message that a user owns a game.
pub open spec fn owned_text(game_id: Seq<char>, user: Seq<char>) -> Seq<char> {
    "Game ["@ + game_id + "] is now owned by ["@ + user + "]"@
}

/// The message that a game could not be given to a user.
pub open spec fn own_failed_text(why: Seq<char>) -> Seq<char> {
    "Unable to own game: ["@ + why + "]"@
}

/// The message that no game is registered to a user.
pub open spec fn no_game_text(user: Seq<char>) -> Seq<char> {
    "No game is registered to ["@ + user + "]"@
}

/// The message that names the game.
pub open spec fn game_text(game_id: Seq<char>) -> Seq<char> {
    "Game ["@ + game_id + "]"@
}

/// The message that a user voted for a card.
pub open spec fn voted_text(user: Seq<char>, pick: DraftPickView, card: Seq<char>) -> Seq<char> {
    "["@ + user + "] voted card for pick ["@ + pick_text(pick) + "]:\n"@ + card
}

/// The message that a user committed a card.
pub open spec fn committed_text(user: Seq<char>, pick: DraftPickView, card: Seq<char>) -> Seq<
    char,
> {
    "["@ + user + "] committed card for pick ["@ + pick_text(pick) + "]:\n"@ + card
}

/// The message that tells how far the draft has come.
pub open spec fn progress_text(pick_id: u8) -> Seq<char> {
    "Card "@ + decimal(pick_id as nat) + " of 48"@
}

/// The card at place `index` of the cards on offer; nothing where there is
/// no such place.
pub open spec fn offered_card(record: DraftRecordView, index: u8) -> Seq<char> {
    if index < record.selection_vec.len() {
        record.selection_vec[index as int]
    } else {
        Seq::empty()
    }
}

/// The conversation at its end, and the action that sends its messages,
/// one to a line, with `message` as the last.
pub open spec fn finished(state: ConversationView, message: Seq<char>) -> (
    ConversationView,
    BotActionView,
) {
    (
        ConversationView {
            stage: Stage::Finished,
            reply: state.reply.push(message),
            pending: Seq::empty(),
            ..state
        },
        BotActionView::Send(joined(state.reply.push(message), seq!['\n'])),
    )
}

/// The conversation in its next stage, with the action that the stage
/// waits for.
pub open spec fn waiting(state: ConversationView, stage: Stage, action: BotActionView) -> (
    ConversationView,
    BotActionView,
) {
    (ConversationView { stage, ..state }, action)
}

/// What the first step of a command does: help is answered at once, and
/// every other command begins with outside work.
pub open spec fn started(state: ConversationView) -> (ConversationView, BotActionView) {
    match state.command {
        DraftCommandView::Help => finished(
            state,
            seq!['`', '`', '`'] + DRAFT_CMD_HELP@ + seq!['`', '`', '`'],
        ),
        DraftCommandView::Register(game_id) => (
            ConversationView {
                stage: Stage::Registering,
                pending: registered_text(game_id, state.user),
                ..state
            },
            BotActionView::Register { user: state.user, game_id },
        ),
        DraftCommandView::Own(game_id) => (
            ConversationView {
                stage: Stage::Owning,
                pending: owned_text(game_id, state.user),
                ..state
            },
            BotActionView::Own { user: state.user, game_id },
        ),
        _ => waiting(state, Stage::FindingGame, BotActionView::FindGame { user: state.user }),
    }
}

/// What is done once the game of the user is known. Without a game the
/// user is told so. With one, its name is the first message, and the
/// record that the command needs is loaded.
pub open spec fn game_found(state: ConversationView, game_id: Option<Seq<char>>) -> (
    ConversationView,
    BotActionView,
) {
    match game_id {
        None => finished(state, no_game_text(state.user)),
        Some(game_id) => {
            let named = ConversationView { reply: state.reply.push(game_text(game_id)), ..state };
            match state.command {
                DraftCommandView::Vote(_) => waiting(
                    named,
                    Stage::LoadingVote,
                    BotActionView::LoadRecord { game_id },
                ),
                DraftCommandView::Commit => waiting(
                    named,
                    Stage::LoadingCommit,
                    BotActionView::LoadCommitData { game_id },
                ),
                DraftCommandView::Deck => waiting(
                    named,
                    Stage::LoadingDeck,
                    BotActionView::LoadRecord { game_id },
                ),
                _ => waiting(named, Stage::LoadingShow, BotActionView::LoadRecord { game_id }),
            }
        },
    }
}

/// The text of a vote; nothing for a command that is no vote.
pub open spec fn vote_text_of(command: DraftCommandView) -> Seq<char> {
    match command {
        DraftCommandView::Vote(text) => text,
        _ => Seq::empty(),
    }
}

/// What is done once the record to vote on is there: the vote is worked
/// out and handed on to be stored. `choice` is the place that the text of
/// the vote names among the cards on offer.
pub open spec fn vote_loaded(
    state: ConversationView,
    record: Option<DraftRecordView>,
    choice: Option<u8>,
) -> (ConversationView, BotActionView) {
    match record {
        None => finished(state, "Err: "@ + error_text(DraftError::NoRecord)),
        Some(record) => match vote_target(
            record.selection_vec.len() as int,
            vote_text_of(state.command),
            choice,
        ) {
            Err(e) => finished(state, "Err: "@ + error_text(e)),
            Ok(index) => (
                ConversationView {
                    stage: Stage::StoringVote,
                    pending: voted_text(state.user, record.pick, offered_card(record, index)),
                    ..state
                },
                BotActionView::StoreVote(
                    DraftVoteView {
                        game_id: record.game_id,
                        user_id: state.user,
                        draft_pick: record.pick,
                        vote_idx: index,
                    },
                ),
            ),
        },
    }
}

/// The owner of `game`; none where there is no game.
pub open spec fn owner_of(game: Option<DraftGameView>) -> Option<Seq<char>> {
    match game {
        Some(g) => g.user_id,
        None => None,
    }
}

/// The message that the card of `committed` is its choice.
pub open spec fn commit_message(user: Seq<char>, committed: DraftRecordView) -> Seq<char> {
    committed_text(
        user,
        committed.pick,
        match committed.selected_card {
            Some(index) => offered_card(committed, index),
            None => Seq::empty(),
        },
    )
}

/// What is done once record, votes and game are there: the owner's commit
/// of the voters' choice is worked out. Where it changes the record, the
/// record that comes of it is handed on to be stored. Where the record has
/// that very choice already, the commit changes nothing: the user is told
/// the choice, and nothing is written.
pub open spec fn commit_loaded(
    state: ConversationView,
    record: Option<DraftRecordView>,
    votes: Seq<DraftVoteView>,
    game: Option<DraftGameView>,
) -> (ConversationView, BotActionView) {
    match record {
        None => finished(state, "Unable to get pick: "@ + error_text(DraftError::NoRecord)),
        Some(record) => match voted_commit_outcome(record, votes, state.user, owner_of(game)) {
            Err(e) => finished(
                state,
                (if e == DraftError::NoVotes || e == DraftError::NotOwner {
                    "Unable to get pick: "@
                } else {
                    "Unable to pick: "@
                }) + error_text(e),
            ),
            Ok(committed) => if committed == record {
                finished(state, commit_message(state.user, committed))
            } else {
                (
                    ConversationView {
                        stage: Stage::StoringCommit,
                        pending: commit_message(state.user, committed),
                        ..state
                    },
                    BotActionView::StoreRecord(committed),
                )
            },
        },
    }
}

/// The next stage of the answer to a command, and the outside work that is
/// due: what the conversation does with what came of the last action. An
/// event that the stage does not wait for ends the conversation with the
/// messages gathered so far.
pub open spec fn stepped(state: ConversationView, event: BotEventView, choice: Option<u8>) -> (
    ConversationView,
    BotActionView,
) {
    match (state.stage, event) {
        (Stage::Start, BotEventView::Start) => started(state),
        (Stage::Registering, BotEventView::Done) => finished(state, state.pending),
        (Stage::Owning, BotEventView::Done) => finished(state, state.pending),
        (Stage::Owning, BotEventView::Failed(why)) => finished(state, own_failed_text(why)),
        (Stage::FindingGame, BotEventView::Game(game_id)) => game_found(state, game_id),
        (Stage::LoadingVote, BotEventView::Record(record)) => vote_loaded(state, record, choice),
        (Stage::LoadingVote, BotEventView::Failed(why)) => finished(state, "Err: "@ + why),
        (Stage::StoringVote, BotEventView::Done) => finished(state, state.pending),
        (Stage::StoringVote, BotEventView::Failed(why)) => finished(state, "Err: "@ + why),
        (Stage::LoadingCommit, BotEventView::CommitData(record, votes, game)) => commit_loaded(
            state,
            record,
            votes,
            game,
        ),
        (Stage::LoadingCommit, BotEventView::Failed(why)) => finished(
            state,
            "Unable to get pick: "@ + why,
        ),
        (Stage::StoringCommit, BotEventView::Done) => finished(state, state.pending),
        (Stage::StoringCommit, BotEventView::Failed(why)) => finished(
            state,
            "Unable to pick: "@ + why,
        ),
        (Stage::LoadingDeck, BotEventView::Record(Some(record))) => finished(
            state,
            boxed(joined(record.decklist_text, seq!['\n'])),
        ),
        (Stage::LoadingDeck, _) => finished(state, boxed("No data"@)),
        (Stage::LoadingShow, BotEventView::Record(Some(record))) => finished(
            ConversationView {
                reply: state.reply.push(progress_text(record.pick.pick_id)),
                ..state
            },
            boxed(record.selection_text),
        ),
        (Stage::LoadingShow, _) => finished(state, "No draft data available"@),
        _ => (
            ConversationView { stage: Stage::Finished, pending: Seq::empty(), ..state },
            BotActionView::Send(joined(state.reply, seq!['\n'])),
        ),
    }
}

/// The text of `pick` as a user reads it.
fn pick_text_of(pick: &crate::models::draft_data::DraftPick) -> (r: String)
    ensures
        r@ == pick_text(pick@),
{
    pick.to_string()
}

/// `text` behind `prefix`.
fn prefixed(prefix: &str, text: &str) -> (r: String)
    ensures
        r@ == prefix@ + text@,
{
    let mut r = String::from_str(prefix);
    r.append(text);
    r
}

/// `before`, `middle` and `after`, one behind the other.
fn framed(before: &str, middle: &str, after: &str) -> (r: String)
    ensures
        r@ == before@ + middle@ + after@,
{
    let mut r = String::from_str(before);
    r.append(middle);
    r.append(after);
    r
}

/// `first`, `second`, `third`, `fourth` and `fifth`, one behind the other.
fn framed_twice(first: &str, second: &str, third: &str, fourth: &str, fifth: &str) -> (r: String)
    ensures
        r@ == first@ + second@ + third@ + fourth@ + fifth@,
{
    let mut r = String::from_str(first);
    r.append(second);
    r.append(third);
    r.append(fourth);
    r.append(fifth);
    r
}

/// The card at place `index` of the cards on offer.
fn offered_card_of(record: &DraftRecord, index: u8) -> (r: String)
    ensures
        r@ == offered_card(record@, index),
{
    if (index as usize) < record.selection_vec.len() {
        assert(record@.selection_vec[index as int] == record.selection_vec[index as int]@);
        record.selection_vec[index as usize].clone()
    } else {
        String::new()
    }
}

impl Conversation {
    /// The conversation that begins when `user` gives `command`.
    pub fn new(command: DraftCommand, user: &str) -> (r: Self)
        ensures
            r@ == (ConversationView {
                stage: Stage::Start,
                command: command@,
                user: user@,
                reply: Seq::empty(),
                pending: Seq::empty(),
            }),
    {
        Conversation {
            stage: Stage::Start,
            command,
            user: String::from_str(user),
            reply: BotReply::new(),
            pending: String::new(),
        }
    }

    /// Whether the answer has been sent.
    pub fn is_finished(&self) -> (r: bool)
        ensures
            r == (self@.stage == Stage::Finished),
    {
        self.stage == Stage::Finished
    }

    /// Ends the conversation with `message` as its last message.
    fn finish(self, message: String) -> (r: (Conversation, BotAction))
        ensures
            (r.0@, r.1@) == finished(self@, message@),
    {
        let mut state = self;
        state.reply.add(message);
        state.stage = Stage::Finished;
        state.pending = String::new();
        let text = state.reply.to_string();
        (state, BotAction::Send(text))
    }

    /// Ends the conversation with the messages gathered so far.
    fn give_up(self) -> (r: (Conversation, BotAction))
        ensures
            r.0@ == (ConversationView {
                stage: Stage::Finished,
                pending: Seq::empty(),
                ..self@
            }),
            r.1@ == BotActionView::Send(joined(self@.reply, seq!['\n'])),
    {
        let mut state = self;
        state.stage = Stage::Finished;
        state.pending = String::new();
        let text = state.reply.to_string();
        (state, BotAction::Send(text))
    }

    /// The first step of a command.
    fn start(self) -> (r: (Conversation, BotAction))
        requires
            self.stage == Stage::Start,
        ensures
            (r.0@, r.1@) == started(self@),
    {
        let mut state = self;
        match &state.command {
            DraftCommand::Help => state.finish(get_help_text()),
            DraftCommand::Register(game_id) => {
                let game_id = game_id.clone();
                state.pending = framed(
                    "Game [",
                    game_id.as_str(),
                    prefixed("] is now registered to ", state.user.as_str()).as_str(),
                );
                assert(state.pending@ =~= registered_text(game_id@, state.user@));
                state.stage = Stage::Registering;
                let user = state.user.clone();
                (state, BotAction::Register { user, game_id })
            },
            DraftCommand::Own(game_id) => {
                let game_id = game_id.clone();
                state.pending = framed_twice(
                    "Game [",
                    game_id.as_str(),
                    "] is now owned by [",
                    state.user.as_str(),
                    "]",
                );
                state.stage = Stage::Owning;
                let user = state.user.clone();
                (state, BotAction::Own { user, game_id })
            },
            _ => {
                state.stage = Stage::FindingGame;
                let user = state.user.clone();
                (state, BotAction::FindGame { user })
            },
        }
    }

    /// The step that follows the lookup of the user's game.
    fn on_game(self, game_id: Option<String>) -> (r: (Conversation, BotAction))
        ensures
            (r.0@, r.1@) == game_found(self@, optional_text(game_id)),
    {
        let mut state = self;
        match game_id {
            None => {
                let message = framed("No game is registered to [", state.user.as_str(), "]");
                state.finish(message)
            },
            Some(game_id) => {
                state.reply.add(framed("Game [", game_id.as_str(), "]"));
                match &state.command {
                    DraftCommand::Vote(_) => {
                        state.stage = Stage::LoadingVote;
                        (state, BotAction::LoadRecord { game_id })
                    },
                    DraftCommand::Commit => {
                        state.stage = Stage::LoadingCommit;
                        (state, BotAction::LoadCommitData { game_id })
                    },
                    DraftCommand::Deck => {
                        state.stage = Stage::LoadingDeck;
                        (state, BotAction::LoadRecord { game_id })
                    },
                    _ => {
                        state.stage = Stage::LoadingShow;
                        (state, BotAction::LoadRecord { game_id })
                    },
                }
            },
        }
    }

    /// The step that follows the loading of the record to vote on.
    fn on_vote_record(self, record: Option<DraftRecord>) -> (r: (Conversation, BotAction))
        ensures
            record is None ==> (r.0@, r.1@) == vote_loaded(self@, None, None),
            record matches Some(rec) ==> ((parsed_u8(vote_text_of(self@.command)) is Some) ==> (
                r.0@,
                r.1@,
            ) == vote_loaded(self@, Some(rec@), None)) && (rec.selection_vec.len()
                <= INDEX_CAPACITY ==> (r.0@, r.1@) == vote_loaded(
                self@,
                Some(rec@),
                named_in_list(rec@.selection_vec, vote_text_of(self@.command)),
            )),
            r.1 matches BotAction::StoreVote(vote) ==> record is Some && vote.vote_idx
                < record->Some_0.selection_vec.len() && vote@.user_id == self@.user
                && vote@.game_id == record->Some_0@.game_id && vote@.draft_pick
                == record->Some_0@.pick,
            r.1 is Send || r.1 is StoreVote,
            r.1 is Send <==> r.0.stage == Stage::Finished,
            r.0@.command == self@.command,
            r.0@.user == self@.user,
    {
        let mut state = self;
        match record {
            None => {
                let message = prefixed("Err: ", DraftError::NoRecord.message().as_str());
                assert(message@ =~= "Err: "@ + error_text(DraftError::NoRecord));
                state.finish(message)
            },
            Some(record) => {
                let target = match &state.command {
                    DraftCommand::Vote(text) => resolve_vote(&record.selection_vec, text.as_str()),
                    _ => resolve_vote(&record.selection_vec, ""),
                };
                proof {
                    reveal_strlit("");
                    assert(""@ =~= Seq::<char>::empty());
                }
                match target {
                    Err(e) => {
                        let message = prefixed("Err: ", e.message().as_str());
                        assert(message@ =~= "Err: "@ + error_text(e));
                        state.finish(message)
                    },
                    Ok(index) => {
                        let card = offered_card_of(&record, index);
                        let mut pending = framed_twice(
                            "[",
                            state.user.as_str(),
                            "] voted card for pick [",
                            pick_text_of(&record.pick).as_str(),
                            "]:\n",
                        );
                        pending.append(card.as_str());
                        assert(pending@ =~= voted_text(state.user@, record.pick@, card@));
                        state.pending = pending;
                        state.stage = Stage::StoringVote;
                        let vote = DraftVote::new(
                            record.game_id.as_str(),
                            state.user.as_str(),
                            &record.pick,
                            index,
                        );
                        (state, BotAction::StoreVote(vote))
                    },
                }
            },
        }
    }

    /// The step that follows the loading of what a commit needs.
    fn on_commit_data(
        self,
        record: Option<DraftRecord>,
        votes: &Vec<DraftVote>,
        game: Option<DraftGame>,
    ) -> (r: (Conversation, BotAction))
        ensures
            (r.0@, r.1@) == commit_loaded(
                self@,
                stored_view(record),
                vote_views(votes@),
                game_view(game),
            ),
    {
        let mut state = self;
        match record {
            None => {
                let message = prefixed("Unable to get pick: ", DraftError::NoRecord.message().as_str());
                assert(message@ =~= "Unable to get pick: "@ + error_text(DraftError::NoRecord));
                state.finish(message)
            },
            Some(record) => {
                let ownerless = DraftGame {
                    game_id: record.game_id.clone(),
                    time: String::new(),
                    user_id: None,
                };
                let game = match game {
                    Some(g) => g,
                    None => ownerless,
                };
                let was_open = record.selected_card.is_none();
                let ghost loaded = record@;
                match commit_highest_voted(record, votes, state.user.as_str(), &game) {
                    Err(e) => {
                        let message = if e == DraftError::NoVotes || e == DraftError::NotOwner {
                            prefixed("Unable to get pick: ", e.message().as_str())
                        } else {
                            prefixed("Unable to pick: ", e.message().as_str())
                        };
                        assert(message@ =~= (if e == DraftError::NoVotes || e
                            == DraftError::NotOwner {
                            "Unable to get pick: "@
                        } else {
                            "Unable to pick: "@
                        }) + error_text(e));
                        state.finish(message)
                    },
                    Ok(committed) => {
                        let card = match committed.selected_card {
                            Some(index) => offered_card_of(&committed, index),
                            None => String::new(),
                        };
                        let mut pending = framed_twice(
                            "[",
                            state.user.as_str(),
                            "] committed card for pick [",
                            pick_text_of(&committed.pick).as_str(),
                            "]:\n",
                        );
                        pending.append(card.as_str());
                        assert(pending@ =~= commit_message(state.user@, committed@));
                        assert(was_open <==> committed@ != loaded);
                        if was_open {
                            state.pending = pending;
                            state.stage = Stage::StoringCommit;
                            (state, BotAction::StoreRecord(committed))
                        } else {
                            state.finish(pending)
                        }
                    },
                }
            },
        }
    }
}

/// The place, among the cards on offer, that the text of the vote names,
/// where `event` brings the record to vote on.
pub open spec fn vote_choice(state: ConversationView, event: BotEventView) -> Option<u8> {
    match event {
        BotEventView::Record(Some(record)) => named_in_list(
            record.selection_vec,
            vote_text_of(state.command),
        ),
        _ => None,
    }
}

/// The step does not rest on a search among more cards than the index
/// answers for: it is no vote by name on a record that offers more than
/// `INDEX_CAPACITY` cards.
pub open spec fn step_is_exact(state: ConversationView, event: BotEventView) -> bool {
    match (state.stage, event) {
        (Stage::LoadingVote, BotEventView::Record(Some(record))) => record.selection_vec.len()
            <= INDEX_CAPACITY || (parsed_u8(vote_text_of(state.command)) is Some),
        _ => true,
    }
}

impl Conversation {
    /// Takes in what came of the last action and says what is due next.
    /// The caller does the work that the action names and comes back with
    /// its outcome, until the action is `Send`.
    pub fn step(self, event: BotEvent) -> (r: (Conversation, BotAction))
        ensures
            step_is_exact(self@, event@) ==> (r.0@, r.1@) == stepped(
                self@,
                event@,
                vote_choice(self@, event@),
            ),
            r.1 is Send <==> r.0.stage == Stage::Finished,
            r.0@.command == self@.command,
            r.0@.user == self@.user,
            r.1 matches BotAction::StoreVote(vote) ==> self.stage == Stage::LoadingVote && (
            event matches BotEvent::Record(Some(record)) && vote.vote_idx
                < record.selection_vec.len() && vote@.user_id == self@.user && vote@.game_id
                == record@.game_id && vote@.draft_pick == record@.pick),
            r.1 matches BotAction::StoreRecord(stored) ==> self.stage == Stage::LoadingCommit && (
            event matches BotEvent::CommitData(Some(record), votes, game) && voted_commit_outcome(
                record@,
                vote_views(votes@),
                self@.user,
                owner_of(game_view(game)),
            ) == Ok::<DraftRecordView, DraftError>(stored@) && record@.selected_card is None
                && stored@.selected_card is Some),
    {
        let state = self;
        match state.stage {
            Stage::Start => match event {
                BotEvent::Start => state.start(),
                _ => state.give_up(),
            },
            Stage::Registering => match event {
                BotEvent::Done => {
                    let message = state.pending.clone();
                    state.finish(message)
                },
                _ => state.give_up(),
            },
            Stage::Owning => match event {
                BotEvent::Done => {
                    let message = state.pending.clone();
                    state.finish(message)
                },
                BotEvent::Failed(why) => {
                    let message = framed("Unable to own game: [", why.as_str(), "]");
                    state.finish(message)
                },
                _ => state.give_up(),
            },
            Stage::FindingGame => match event {
                BotEvent::Game(game_id) => state.on_game(game_id),
                _ => state.give_up(),
            },
            Stage::LoadingVote => match event {
                BotEvent::Record(record) => state.on_vote_record(record),
                BotEvent::Failed(why) => {
                    let message = prefixed("Err: ", why.as_str());
                    state.finish(message)
                },
                _ => state.give_up(),
            },
            Stage::StoringVote => match event {
                BotEvent::Done => {
                    let message = state.pending.clone();
                    state.finish(message)
                },
                BotEvent::Failed(why) => {
                    let message = prefixed("Err: ", why.as_str());
                    state.finish(message)
                },
                _ => state.give_up(),
            },
            Stage::LoadingCommit => match event {
                BotEvent::CommitData(record, votes, game) => state.on_commit_data(
                    record,
                    &votes,
                    game,
                ),
                BotEvent::Failed(why) => {
                    let message = prefixed("Unable to get pick: ", why.as_str());
                    state.finish(message)
                },
                _ => state.give_up(),
            },
            Stage::StoringCommit => match event {
                BotEvent::Done => {
                    let message = state.pending.clone();
                    state.finish(message)
                },
                BotEvent::Failed(why) => {
                    let message = prefixed("Unable to pick: ", why.as_str());
                    state.finish(message)
                },
                _ => state.give_up(),
            },
            Stage::LoadingDeck => match event {
                BotEvent::Record(Some(record)) => {
                    proof {
                        reveal_strlit("\n");
                        assert("\n"@ =~= seq!['\n']);
                    }
                    let deck = join(&record.decklist_text, "\n");
                    let message = framed("```\n", deck.as_str(), "\n```");
                    proof {
                        reveal_strlit("```\n");
                        reveal_strlit("\n```");
                        assert(message@ =~= boxed(deck@));
                    }
                    state.finish(message)
                },
                _ => {
                    let message = framed("```\n", "No data", "\n```");
                    proof {
                        reveal_strlit("```\n");
                        reveal_strlit("\n```");
                        assert(message@ =~= boxed("No data"@));
                    }
                    state.finish(message)
                },
            },
            Stage::LoadingShow => match event {
                BotEvent::Record(Some(record)) => {
                    let mut state = state;
                    state.reply.add(
                        framed("Card ", format_u64(record.pick.pick_id as u64).as_str(), " of 48"),
                    );
                    let message = framed("```\n", record.selection_text.as_str(), "\n```");
                    proof {
                        reveal_strlit("```\n");
                        reveal_strlit("\n```");
                        assert(message@ =~= boxed(record.selection_text@));
                    }
                    state.finish(message)
                },
                _ => state.finish(String::from_str("No draft data available")),
            },
            Stage::Finished => state.give_up(),
        }
    }
}

/// How many steps a conversation in stage `stage` can still take.
pub open spec fn steps_left(stage: Stage) -> nat {
    match stage {
        Stage::Start => 4,
        Stage::FindingGame => 3,
        Stage::LoadingVote | Stage::LoadingCommit | Stage::LoadingDeck | Stage::LoadingShow => 2,
        Stage::Registering | Stage::Owning | Stage::StoringVote | Stage::StoringCommit => 1,
        Stage::Finished => 0,
    }
}

/// Every step brings a conversation nearer to its end, and it ends exactly
/// when its answer is sent: no command is answered twice, and none is left
/// without an answer after four steps.
pub proof fn lemma_conversation_ends(state: ConversationView, event: BotEventView, choice: Option<u8>)
    ensures
        state.stage != Stage::Finished ==> steps_left(stepped(state, event, choice).0.stage)
            < steps_left(state.stage),
        stepped(state, event, choice).0.stage == Stage::Finished <==> stepped(
            state,
            event,
            choice,
        ).1 is Send,
        stepped(state, event, choice).0.command == state.command,
        stepped(state, event, choice).0.user == state.user,
{
}

/// A record is handed on to be stored only where the owner's commit of the
/// voters' choice succeeded and gave an open pick its choice, and a vote
/// only for a card that is on offer. A commit that changes nothing writes
/// nothing.
pub proof fn lemma_conversation_stores_only_decisions(
    state: ConversationView,
    event: BotEventView,
    choice: Option<u8>,
)
    requires
        event matches BotEventView::Record(Some(record)) ==> (choice matches Some(i) ==> i
            < record.selection_vec.len()),
    ensures
        stepped(state, event, choice).1 matches BotActionView::StoreRecord(stored) ==> (
        event matches BotEventView::CommitData(Some(record), votes, game) && voted_commit_outcome(
            record,
            votes,
            state.user,
            owner_of(game),
        ) == Ok::<DraftRecordView, DraftError>(stored) && stored != record
            && record.selected_card is None && stored.selected_card is Some),
        stepped(state, event, choice).1 matches BotActionView::StoreVote(vote) ==> (
        event matches BotEventView::Record(Some(record)) && vote.vote_idx
            < record.selection_vec.len() && vote.user_id == state.user),
{
}

/// Committing again what is committed already is answered and writes
/// nothing: where the owner's commit of the voters' choice leaves the
/// record as it is, the conversation ends at once with the message of the
/// choice.
pub proof fn lemma_repeated_commit_writes_nothing(
    state: ConversationView,
    record: DraftRecordView,
    votes: Seq<DraftVoteView>,
    game: Option<DraftGameView>,
    choice: Option<u8>,
)
    requires
        state.stage == Stage::LoadingCommit,
        voted_commit_outcome(record, votes, state.user, owner_of(game)) == Ok::<
            DraftRecordView,
            DraftError,
        >(record),
    ensures
        stepped(state, BotEventView::CommitData(Some(record), votes, game), choice) == finished(
            state,
            commit_message(state.user, record),
        ),
        stepped(state, BotEventView::CommitData(Some(record), votes, game), choice).1 is Send,
{
}

} // verus!
