use crate::error::DraftError;
use crate::models::draft_data::{DraftPick, DraftRecord, DraftRecordView};
use crate::models::draft_game::{DraftGame, DraftVote, DraftVoteView, vote_views};
use crate::text::same_text;
use vstd::prelude::*;

verus! {

/// The users who, among `votes`, voted for position `index`.
pub open spec fn voters_for(votes: Seq<DraftVoteView>, index: u8) -> Set<Seq<char>>
    decreases votes.len(),
{
    if votes.len() == 0 {
        Set::empty()
    } else if votes.last().vote_idx == index {
        voters_for(votes.drop_last(), index).insert(votes.last().user_id)
    } else {
        voters_for(votes.drop_last(), index)
    }
}

/// The number of different users who voted for position `index`.
pub open spec fn support(votes: Seq<DraftVoteView>, index: u8) -> nat {
    voters_for(votes, index).len()
}

/// Position `winner` has a vote, no position has more voters, and every
/// position with as many has a higher number.
pub open spec fn is_winner(votes: Seq<DraftVoteView>, winner: u8) -> bool {
    &&& support(votes, winner) > 0
    &&& forall|j: u8|
        support(votes, j) < support(votes, winner) || (#[trigger] support(votes, j) == support(
            votes,
            winner,
        ) && winner <= j)
}

/// The position that `votes` choose: the winner, where there is a vote.
pub open spec fn winner_of(votes: Seq<DraftVoteView>) -> Option<u8> {
    if votes.len() == 0 {
        None
    } else {
        Some(choose|w: u8| is_winner(votes, w))
    }
}

/// A user is among the voters for a position exactly if one of the votes is
/// that user's vote for that position; and the voters are finitely many.
pub proof fn lemma_voters_for(votes: Seq<DraftVoteView>, index: u8)
    ensures
        voters_for(votes, index).finite(),
        forall|user: Seq<char>|
            voters_for(votes, index).contains(user) <==> exists|i: int|
                0 <= i < votes.len() && (#[trigger] votes[i]).vote_idx == index && votes[i].user_id
                    == user,
    decreases votes.len(),
{
    if votes.len() > 0 {
        let rest = votes.drop_last();
        lemma_voters_for(rest, index);
        assert forall|user: Seq<char>| voters_for(votes, index).contains(user) implies exists|
            i: int,
        |
            0 <= i < votes.len() && (#[trigger] votes[i]).vote_idx == index && votes[i].user_id
                == user by {
            if voters_for(rest, index).contains(user) {
                let i = choose|i: int|
                    0 <= i < rest.len() && (#[trigger] rest[i]).vote_idx == index && rest[i].user_id
                        == user;
                assert(votes[i] == rest[i]);
            } else {
                assert(votes[votes.len() - 1].user_id == user);
            }
        }
        assert forall|user: Seq<char>|
            (exists|i: int|
                0 <= i < votes.len() && (#[trigger] votes[i]).vote_idx == index && votes[i].user_id
                    == user) implies voters_for(votes, index).contains(user) by {
            let i = choose|i: int|
                0 <= i < votes.len() && (#[trigger] votes[i]).vote_idx == index && votes[i].user_id
                    == user;
            if i < rest.len() {
                assert(rest[i] == votes[i]);
            }
        }
    }
}

/// At most one position wins.
pub proof fn lemma_winner_unique(votes: Seq<DraftVoteView>, a: u8, b: u8)
    requires
        is_winner(votes, a),
        is_winner(votes, b),
    ensures
        a == b,
{
    assert(support(votes, b) < support(votes, a) || (support(votes, b) == support(votes, a) && a
        <= b));
    assert(support(votes, a) < support(votes, b) || (support(votes, a) == support(votes, b) && b
        <= a));
}

/// Whether one of the first `n` votes is a vote of the user of vote `n` for
/// the position of vote `n`.
fn voted_before(votes: &Vec<DraftVote>, n: usize) -> (r: bool)
    requires
        n < votes.len(),
    ensures
        r == voters_for(vote_views(votes@).take(n as int), votes[n as int].vote_idx).contains(
            votes[n as int].user_id@,
        ),
{
    let ghost vs = vote_views(votes@).take(n as int);
    let ghost idx = votes[n as int].vote_idx;
    let ghost user = votes[n as int].user_id@;
    proof {
        lemma_voters_for(vs, idx);
    }
    let mut j: usize = 0;
    while j < n
        invariant
            j <= n,
            n < votes.len(),
            vs == vote_views(votes@).take(n as int),
            idx == votes[n as int].vote_idx,
            user == votes[n as int].user_id@,
            forall|k: int| 0 <= k < j ==> !((#[trigger] vs[k]).vote_idx == idx && vs[k].user_id == user),
        decreases n - j,
    {
        assert(vs[j as int] == votes[j as int]@);
        if votes[j].vote_idx == votes[n].vote_idx && same_text(
            votes[j].user_id.as_str(),
            votes[n].user_id.as_str(),
        ) {
            proof {
                lemma_voters_for(vs, idx);
                assert(vs[j as int].vote_idx == idx && vs[j as int].user_id == user);
            }
            return true;
        }
        j += 1;
    }
    false
}

/// The number of different users who voted for position `index`.
fn count_voters(votes: &Vec<DraftVote>, index: u8) -> (r: usize)
    ensures
        r == support(vote_views(votes@), index),
{
    let ghost all = vote_views(votes@);
    let mut count: usize = 0;
    let mut i: usize = 0;
    while i < votes.len()
        invariant
            i <= votes.len(),
            all == vote_views(votes@),
            count == support(all.take(i as int), index),
            count <= i,
        decreases votes.len() - i,
    {
        proof {
            assert(all.take(i + 1).drop_last() =~= all.take(i as int));
            assert(all.take(i + 1).last() == votes[i as int]@);
            lemma_voters_for(all.take(i as int), index);
        }
        if votes[i].vote_idx == index {
            let seen = voted_before(votes, i);
            if !seen {
                count += 1;
            }
        }
        i += 1;
    }
    assert(all.take(i as int) =~= all);
    count
}

/// The position that the votes choose: the one with the most different
/// voters, and of several with as many the lowest. `None` exactly where
/// there is no vote.
pub fn winning_index(votes: &Vec<DraftVote>) -> (r: Option<u8>)
    ensures
        r == winner_of(vote_views(votes@)),
        r is None <==> votes.len() == 0,
        r matches Some(w) ==> is_winner(vote_views(votes@), w),
{
    let ghost all = vote_views(votes@);
    let mut best: Option<u8> = None;
    let mut best_count: usize = 0;
    let mut index: u16 = 0;
    while index < 256
        invariant
            index <= 256,
            all == vote_views(votes@),
            best is None ==> best_count == 0,
            best matches Some(w) ==> w < index && best_count == support(all, w) && best_count > 0,
            forall|j: u8|
                j < index ==> support(all, j) < best_count || (#[trigger] support(all, j)
                    == best_count && (best matches Some(w) ==> w <= j)),
        decreases 256 - index,
    {
        let count = count_voters(votes, index as u8);
        if count > best_count {
            best = Some(index as u8);
            best_count = count;
        }
        index += 1;
    }
    proof {
        if votes.len() > 0 {
            let first = all[0];
            lemma_voters_for(all, first.vote_idx);
            assert(voters_for(all, first.vote_idx).contains(first.user_id));
            assert(support(all, first.vote_idx) > 0) by {
                if voters_for(all, first.vote_idx).len() == 0 {
                    voters_for(all, first.vote_idx).lemma_len0_is_empty();
                }
            }
            assert(best is Some);
            assert(is_winner(all, best->Some_0));
            lemma_winner_unique(all, best->Some_0, choose|w: u8| is_winner(all, w));
        } else {
            assert forall|j: u8| support(all, j) == 0 by {
                assert(all.len() == 0);
            }
        }
    }
    best
}

/// Those of `votes` that were cast on pick `pick_id` of game `game_id`, in
/// order.
pub open spec fn votes_on(votes: Seq<DraftVoteView>, game_id: Seq<char>, pick_id: u8) -> Seq<
    DraftVoteView,
>
    decreases votes.len(),
{
    if votes.len() == 0 {
        Seq::empty()
    } else if votes.last().game_id == game_id && votes.last().draft_pick.pick_id == pick_id {
        votes_on(votes.drop_last(), game_id, pick_id).push(votes.last())
    } else {
        votes_on(votes.drop_last(), game_id, pick_id)
    }
}

/// The position that the votes on `draft_pick` of game `game_id` choose.
/// Votes on other picks and other games do not count. `None` exactly where
/// nobody voted on that pick.
pub fn get_highest_voted_pick(votes: &Vec<DraftVote>, game_id: &str, draft_pick: &DraftPick) -> (r:
    Option<u8>)
    ensures
        r == winner_of(votes_on(vote_views(votes@), game_id@, draft_pick.pick_id)),
        r is None <==> votes_on(vote_views(votes@), game_id@, draft_pick.pick_id).len() == 0,
        r matches Some(w) ==> is_winner(
            votes_on(vote_views(votes@), game_id@, draft_pick.pick_id),
            w,
        ),
{
    let ghost all = vote_views(votes@);
    let mut chosen: Vec<DraftVote> = Vec::new();
    let mut i: usize = 0;
    assert(vote_views(chosen@) =~= Seq::<DraftVoteView>::empty());
    while i < votes.len()
        invariant
            i <= votes.len(),
            all == vote_views(votes@),
            vote_views(chosen@) == votes_on(all.take(i as int), game_id@, draft_pick.pick_id),
        decreases votes.len() - i,
    {
        proof {
            assert(all.take(i + 1).drop_last() =~= all.take(i as int));
            assert(all.take(i + 1).last() == votes[i as int]@);
        }
        if votes[i].draft_pick.pick_id == draft_pick.pick_id && same_text(
            votes[i].game_id.as_str(),
            game_id,
        ) {
            let ghost before = vote_views(chosen@);
            chosen.push(votes[i].clone());
            assert(vote_views(chosen@) =~= before.push(votes[i as int]@));
        }
        i += 1;
    }
    assert(all.take(i as int) =~= all);
    winning_index(&chosen)
}

/// Whether a choice has been written into the record of a pick.
#[derive(Debug, Clone, Copy, PartialEq, Eq, Structural)]
pub enum CommitState {
    /// No choice yet.
    Open,
    /// The card at this position was chosen.
    Committed(u8),
}

/// The state that `record` is in.
pub open spec fn commit_state_of(record: DraftRecordView) -> CommitState {
    match record.selected_card {
        Some(index) => CommitState::Committed(index),
        None => CommitState::Open,
    }
}

/// The state that `record` is in.
pub fn commit_state(record: &DraftRecord) -> (r: CommitState)
    ensures
        r == commit_state_of(record@),
{
    match record.selected_card {
        Some(index) => CommitState::Committed(index),
        None => CommitState::Open,
    }
}

/// What a request of `actor` to choose the card at `index` does to a record
/// of a game that `owner` owns. Only the owner may commit. An open pick
/// takes a position that is on offer as its choice. A pick that has its
/// choice keeps it: a request for the same position changes nothing, one
/// for another position is refused.
pub open spec fn commit_outcome(
    record: DraftRecordView,
    index: u8,
    actor: Seq<char>,
    owner: Option<Seq<char>>,
) -> Result<DraftRecordView, DraftError> {
    if owner != Some(actor) {
        Err(DraftError::NotOwner)
    } else {
        match record.selected_card {
            Some(chosen) => if chosen == index {
                Ok(record)
            } else {
                Err(DraftError::AlreadyCommitted)
            },
            None => if index >= record.selection_vec.len() {
                Err(DraftError::IndexOutOfBounds)
            } else {
                Ok(DraftRecordView { selected_card: Some(index), ..record })
            },
        }
    }
}

/// Whether `game` has an owner and `actor` is that owner.
pub fn is_owner(game: &DraftGame, actor: &str) -> (r: bool)
    ensures
        r == (game@.user_id == Some(actor@)),
{
    match &game.user_id {
        Some(owner) => same_text(owner.as_str(), actor),
        None => false,
    }
}

/// Commits the card at `index` as the choice of `record`, at the request of
/// `actor`, for a record of `game`.
pub fn commit_pick(record: DraftRecord, index: u8, actor: &str, game: &DraftGame) -> (r: Result<
    DraftRecord,
    DraftError,
>)
    ensures
        match commit_outcome(record@, index, actor@, game@.user_id) {
            Ok(committed) => r is Ok && r->Ok_0@ == committed,
            Err(e) => r == Err::<DraftRecord, DraftError>(e),
        },
{
    if !is_owner(game, actor) {
        return Err(DraftError::NotOwner);
    }
    match record.selected_card {
        Some(chosen) => {
            if chosen == index {
                Ok(record)
            } else {
                Err(DraftError::AlreadyCommitted)
            }
        },
        None => {
            if index as usize >= record.selection_vec.len() {
                Err(DraftError::IndexOutOfBounds)
            } else {
                let mut committed = record;
                committed.pick_card(index);
                Ok(committed)
            }
        },
    }
}

/// What a request of `actor` to commit the choice of the voters does: the
/// owner alone may ask, without a vote on the record's pick there is nothing
/// to commit, and otherwise the winning position is committed.
pub open spec fn voted_commit_outcome(
    record: DraftRecordView,
    votes: Seq<DraftVoteView>,
    actor: Seq<char>,
    owner: Option<Seq<char>>,
) -> Result<DraftRecordView, DraftError> {
    if owner != Some(actor) {
        Err(DraftError::NotOwner)
    } else {
        match winner_of(votes_on(votes, record.game_id, record.pick.pick_id)) {
            None => Err(DraftError::NoVotes),
            Some(index) => commit_outcome(record, index, actor, owner),
        }
    }
}

/// Commits, at the request of `actor`, the position that the votes on the
/// pick of `record` choose.
pub fn commit_highest_voted(
    record: DraftRecord,
    votes: &Vec<DraftVote>,
    actor: &str,
    game: &DraftGame,
) -> (r: Result<DraftRecord, DraftError>)
    ensures
        match voted_commit_outcome(record@, vote_views(votes@), actor@, game@.user_id) {
            Ok(committed) => r is Ok && r->Ok_0@ == committed,
            Err(e) => r == Err::<DraftRecord, DraftError>(e),
        },
{
    if !is_owner(game, actor) {
        return Err(DraftError::NotOwner);
    }
    match get_highest_voted_pick(votes, record.game_id.as_str(), &record.pick) {
        None => Err(DraftError::NoVotes),
        Some(index) => commit_pick(record, index, actor, game),
    }
}

/// A commit that succeeded leaves the pick committed to the position asked
/// for, and changes nothing else in the record.
pub proof fn lemma_commit_commits(
    record: DraftRecordView,
    index: u8,
    actor: Seq<char>,
    owner: Option<Seq<char>>,
)
    requires
        commit_outcome(record, index, actor, owner) is Ok,
    ensures
        commit_state_of(commit_outcome(record, index, actor, owner)->Ok_0) == CommitState::Committed(
            index,
        ),
        commit_outcome(record, index, actor, owner)->Ok_0 == (DraftRecordView {
            selected_card: Some(index),
            ..record
        }),
{
}

/// Committing the same position a second time changes nothing.
pub proof fn lemma_commit_idempotent(
    record: DraftRecordView,
    index: u8,
    actor: Seq<char>,
    owner: Option<Seq<char>>,
)
    requires
        commit_outcome(record, index, actor, owner) is Ok,
    ensures
        commit_outcome(commit_outcome(record, index, actor, owner)->Ok_0, index, actor, owner)
            == commit_outcome(record, index, actor, owner),
{
}

/// After a commit, the owner's request for any other position is refused
/// with `AlreadyCommitted`.
pub proof fn lemma_commit_is_final(
    record: DraftRecordView,
    index: u8,
    other: u8,
    actor: Seq<char>,
    owner: Option<Seq<char>>,
)
    requires
        commit_outcome(record, index, actor, owner) is Ok,
        other != index,
    ensures
        commit_outcome(commit_outcome(record, index, actor, owner)->Ok_0, other, actor, owner)
            == Err::<DraftRecordView, DraftError>(DraftError::AlreadyCommitted),
{
}

/// A request of anyone but the owner changes nothing, whatever the state.
pub proof fn lemma_commit_needs_owner(
    record: DraftRecordView,
    index: u8,
    actor: Seq<char>,
    owner: Option<Seq<char>>,
)
    requires
        owner != Some(actor),
    ensures
        commit_outcome(record, index, actor, owner) == Err::<DraftRecordView, DraftError>(
            DraftError::NotOwner,
        ),
{
}

/// The position that wins among the positions below `limit`: the one with
/// the most voters, of several with as many the lowest; none where no
/// position below `limit` has a vote.
pub open spec fn leader_below(votes: Seq<DraftVoteView>, limit: int) -> Option<u8>
    decreases limit,
{
    if limit <= 0 {
        None
    } else {
        let index = (limit - 1) as u8;
        match leader_below(votes, limit - 1) {
            Some(leader) => if support(votes, index) > support(votes, leader) {
                Some(index)
            } else {
                Some(leader)
            },
            None => if support(votes, index) > 0 {
                Some(index)
            } else {
                None
            },
        }
    }
}

/// The leader among the positions below `limit` has a vote, at least as
/// many voters as each of them, and a lower number than each with as many.
proof fn lemma_leader_below(votes: Seq<DraftVoteView>, limit: int)
    requires
        0 <= limit <= 256,
    ensures
        match leader_below(votes, limit) {
            Some(leader) => leader < limit && support(votes, leader) > 0 && forall|j: u8|
                j < limit ==> support(votes, j) < support(votes, leader) || (#[trigger] support(
                    votes,
                    j,
                ) == support(votes, leader) && leader <= j),
            None => forall|j: u8| j < limit ==> #[trigger] support(votes, j) == 0,
        },
    decreases limit,
{
    if limit > 0 {
        lemma_leader_below(votes, limit - 1);
    }
}

/// Where there is a vote, a position wins.
pub proof fn lemma_winner_exists(votes: Seq<DraftVoteView>)
    requires
        votes.len() > 0,
    ensures
        is_winner(votes, winner_of(votes)->Some_0),
        leader_below(votes, 256) == winner_of(votes),
{
    lemma_leader_below(votes, 256);
    let first = votes[0];
    lemma_voters_for(votes, first.vote_idx);
    assert(voters_for(votes, first.vote_idx).contains(first.user_id));
    if voters_for(votes, first.vote_idx).len() == 0 {
        voters_for(votes, first.vote_idx).lemma_len0_is_empty();
    }
    assert(support(votes, first.vote_idx) > 0);
    let leader = leader_below(votes, 256)->Some_0;
    assert(is_winner(votes, leader));
    lemma_winner_unique(votes, leader, choose|w: u8| is_winner(votes, w));
}

/// The tally looks at who voted for what and at nothing else: two lists
/// that hold the same votes choose the same position, in whatever order
/// the votes stand and however often a vote is repeated.
pub proof fn lemma_tally_of_a_set(first: Seq<DraftVoteView>, second: Seq<DraftVoteView>)
    requires
        forall|v: DraftVoteView| first.contains(v) <==> second.contains(v),
    ensures
        winner_of(first) == winner_of(second),
{
    if first.len() > 0 {
        assert(first.contains(first[0]));
    }
    if second.len() > 0 {
        assert(second.contains(second[0]));
    }
    if first.len() > 0 {
        assert forall|index: u8| support(first, index) == support(second, index) by {
            lemma_voters_for(first, index);
            lemma_voters_for(second, index);
            assert forall|user: Seq<char>|
                voters_for(first, index).contains(user) <==> voters_for(second, index).contains(
                    user,
                ) by {
                if voters_for(first, index).contains(user) {
                    let i = choose|i: int|
                        0 <= i < first.len() && (#[trigger] first[i]).vote_idx == index
                            && first[i].user_id == user;
                    assert(first.contains(first[i]));
                    let k = choose|k: int| 0 <= k < second.len() && second[k] == first[i];
                    assert(second[k].vote_idx == index && second[k].user_id == user);
                }
                if voters_for(second, index).contains(user) {
                    let i = choose|i: int|
                        0 <= i < second.len() && (#[trigger] second[i]).vote_idx == index
                            && second[i].user_id == user;
                    assert(second.contains(second[i]));
                    let k = choose|k: int| 0 <= k < first.len() && first[k] == second[i];
                    assert(first[k].vote_idx == index && first[k].user_id == user);
                }
            }
            assert(voters_for(first, index) =~= voters_for(second, index));
        }
        lemma_winner_exists(first);
        lemma_winner_exists(second);
        let a = winner_of(first)->Some_0;
        let b = winner_of(second)->Some_0;
        assert(is_winner(second, a)) by {
            assert forall|j: u8|
                support(second, j) < support(second, a) || (#[trigger] support(second, j)
                    == support(second, a) && a <= j) by {
                assert(support(first, j) < support(first, a) || (support(first, j) == support(
                    first,
                    a,
                ) && a <= j));
            }
        }
        lemma_winner_unique(second, a, b);
    }
}

} // verus!
