use vstd::prelude::*;
use vstd::string::*;

verus! {

/// The ways in which an operation on a draft can fail.
#[derive(Debug, Clone, Copy, PartialEq, Eq, Structural)]
pub enum DraftError {
    /// A pick number outside 1..=48.
    InvalidPick,
    /// The search gave more than one candidate; none is guessed.
    AmbiguousMatch,
    /// The search gave no candidate, also after correction.
    NoMatch,
    /// Fewer, or more, cards were recognised than the pick offers.
    IncompleteObservation,
    /// A commit was asked for and nobody has voted.
    NoVotes,
    /// A commit was asked for on a pick whose choice is another card already.
    AlreadyCommitted,
    /// Someone other than the game's owner asked for a commit.
    NotOwner,
    /// A card position beyond the cards on offer.
    IndexOutOfBounds,
    /// The text of the pick counter holds no second word.
    MissingPickNumber,
    /// The second word of the pick counter is no number up to 255.
    BadPickNumber,
    /// No card on offer was recognised.
    EmptySelection,
    /// Nothing has been recorded for the game yet.
    NoRecord,
}

/// What a user is told of an error.
pub open spec fn error_text(error: DraftError) -> Seq<char> {
    match error {
        DraftError::InvalidPick => "Invalid draft pick"@,
        DraftError::AmbiguousMatch => "Multiple cards found"@,
        DraftError::NoMatch => "Unable to find card in list with vote text"@,
        DraftError::IncompleteObservation => "Found fewer cards than expected"@,
        DraftError::NoVotes => "Unable to get highest voted pick"@,
        DraftError::AlreadyCommitted => "Another card is committed for this pick already"@,
        DraftError::NotOwner => "Only the owner of the game can commit"@,
        DraftError::IndexOutOfBounds => "Pick index is out of bounds"@,
        DraftError::MissingPickNumber => "unable to capture pick number"@,
        DraftError::BadPickNumber => "invalid pick number"@,
        DraftError::EmptySelection => "Unable to capture draft record"@,
        DraftError::NoRecord => "Could not find draft record"@,
    }
}

impl DraftError {
    /// What a user is told of this error.
    pub fn message(&self) -> (r: String)
        ensures
            r@ == error_text(*self),
    {
        match self {
            DraftError::InvalidPick => String::from_str("Invalid draft pick"),
            DraftError::AmbiguousMatch => String::from_str("Multiple cards found"),
            DraftError::NoMatch => String::from_str("Unable to find card in list with vote text"),
            DraftError::IncompleteObservation => String::from_str(
                "Found fewer cards than expected",
            ),
            DraftError::NoVotes => String::from_str("Unable to get highest voted pick"),
            DraftError::AlreadyCommitted => String::from_str(
                "Another card is committed for this pick already",
            ),
            DraftError::NotOwner => String::from_str("Only the owner of the game can commit"),
            DraftError::IndexOutOfBounds => String::from_str("Pick index is out of bounds"),
            DraftError::MissingPickNumber => String::from_str("unable to capture pick number"),
            DraftError::BadPickNumber => String::from_str("invalid pick number"),
            DraftError::EmptySelection => String::from_str("Unable to capture draft record"),
            DraftError::NoRecord => String::from_str("Could not find draft record"),
        }
    }
}

} // verus!
