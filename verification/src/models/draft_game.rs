use crate::models::draft_data::{DraftPick, DraftPickView, optional_text};
use crate::text::{decimal, format_u64};
use vstd::prelude::*;
use vstd::string::*;

verus! {

/// What a `DraftGame` stands for.
pub struct DraftGameView {
    pub game_id: Seq<char>,
    pub time: Seq<char>,
    pub user_id: Option<Seq<char>>,
}

/// One draft: its name, when it began, and the user who owns it, if it has
/// an owner.
#[derive(Debug)]
pub struct DraftGame {
    pub game_id: String,
    pub time: String,
    pub user_id: Option<String>,
}

impl View for DraftGame {
    type V = DraftGameView;

    open spec fn view(&self) -> DraftGameView {
        DraftGameView {
            game_id: self.game_id@,
            time: self.time@,
            user_id: optional_text(self.user_id),
        }
    }
}

impl Clone for DraftGame {
    fn clone(&self) -> (r: Self)
        ensures
            r@ == self@,
    {
        DraftGame {
            game_id: self.game_id.clone(),
            time: self.time.clone(),
            user_id: match &self.user_id {
                Some(s) => Some(s.clone()),
                None => None,
            },
        }
    }
}

/// What a `DraftVote` stands for.
pub struct DraftVoteView {
    pub game_id: Seq<char>,
    pub user_id: Seq<char>,
    pub draft_pick: DraftPickView,
    pub vote_idx: u8,
}

/// The vote of one user for the card at one position of one pick.
#[derive(Debug)]
pub struct DraftVote {
    pub game_id: String,
    pub user_id: String,
    pub draft_pick: DraftPick,
    pub vote_idx: u8,
}

impl View for DraftVote {
    type V = DraftVoteView;

    open spec fn view(&self) -> DraftVoteView {
        DraftVoteView {
            game_id: self.game_id@,
            user_id: self.user_id@,
            draft_pick: self.draft_pick@,
            vote_idx: self.vote_idx,
        }
    }
}

impl Clone for DraftVote {
    fn clone(&self) -> (r: Self)
        ensures
            r@ == self@,
    {
        DraftVote {
            game_id: self.game_id.clone(),
            user_id: self.user_id.clone(),
            draft_pick: self.draft_pick.clone(),
            vote_idx: self.vote_idx,
        }
    }
}

/// The key under which the vote of `user_id` on pick `pick_id` of game
/// `game_id` is kept. A user's later vote on the same pick has the same key
/// and so takes the place of the earlier one.
pub open spec fn vote_key(game_id: Seq<char>, user_id: Seq<char>, pick_id: u8) -> Seq<Seq<char>> {
    seq![game_id, user_id, decimal(pick_id as nat)]
}

impl DraftVote {
    /// The vote of `user_id` for position `vote_idx` at `draft_pick` of game
    /// `game_id`.
    pub fn new(game_id: &str, user_id: &str, draft_pick: &DraftPick, vote_idx: u8) -> (r: Self)
        ensures
            r@ == (DraftVoteView {
                game_id: game_id@,
                user_id: user_id@,
                draft_pick: draft_pick@,
                vote_idx,
            }),
    {
        DraftVote {
            game_id: String::from_str(game_id),
            user_id: String::from_str(user_id),
            draft_pick: draft_pick.clone(),
            vote_idx,
        }
    }

    /// The key under which this vote is kept.
    pub fn get_id(&self) -> (r: Vec<String>)
        ensures
            r.deep_view() == vote_key(self.game_id@, self.user_id@, self.draft_pick.pick_id),
    {
        let mut r: Vec<String> = Vec::new();
        r.push(self.game_id.clone());
        r.push(self.user_id.clone());
        r.push(format_u64(self.draft_pick.pick_id as u64));
        assert(r.deep_view() =~= vote_key(
            self.game_id@,
            self.user_id@,
            self.draft_pick.pick_id,
        ));
        r
    }
}

/// The views of `votes`, in order.
pub open spec fn vote_views(votes: Seq<DraftVote>) -> Seq<DraftVoteView> {
    votes.map_values(|v: DraftVote| v@)
}

/// Two votes of one user on one pick of one game have one key, whatever
/// they vote for: the later one takes the place of the earlier one.
pub proof fn lemma_vote_key_ignores_choice(first: DraftVoteView, second: DraftVoteView)
    requires
        first.game_id == second.game_id,
        first.user_id == second.user_id,
        first.draft_pick.pick_id == second.draft_pick.pick_id,
    ensures
        vote_key(first.game_id, first.user_id, first.draft_pick.pick_id) == vote_key(
            second.game_id,
            second.user_id,
            second.draft_pick.pick_id,
        ),
{
}

} // verus!
