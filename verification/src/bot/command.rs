use crate::capture::card_index::{CardIndex, INDEX_CAPACITY, search_hits};
use crate::capture::card_matcher::{correct_text, corrected_text, name_chars, preprocess_text};
use crate::capture::draft::{collect_name_tokens, name_tokens};
use crate::card_loader::{card_named, CardMap};
use crate::error::DraftError;
use crate::models::card::CardView;
use crate::text::{
    contains_text, fields, has_prefix, head_of, parse_u8, parsed_u8, same_text, split_char,
    split_head, starts_with, tail_of, trim, trimmed,
};
use vstd::prelude::*;
use vstd::string::*;

verus! {

/// The word that starts a command on a draft.
pub const DRAFT_CMD: &'static str = "!draft";

/// The word that starts a request for a card's picture.
pub const CARD_COMMAND: &'static str = "!card";

/// The word that asks whether the bot is there.
pub const PING_COMMAND: &'static str = "!ping";

/// The start of the names of the channels that are made for a draft.
pub const DRAFT_THREAD_PREFIX: &'static str = "draft";

/// What the commands are, for a user who asks.
pub const DRAFT_CMD_HELP: &'static str =
    "\n!draft - Get the current draft selection\n!draft reg <game_id> - Register an existing draft\n!draft own <game_id> - Register and own a game\n!draft deck - Get the current deck\n!draft vote <card_id|card_name> - Vote for a card\n!draft commit - Commit the highest voted card. Only the owner can perform this.\n";

/// What a message asks of the bot.
#[derive(Debug)]
pub enum BotCommand {
    /// A command on a draft, with what follows the command word.
    Draft(String),
    /// A request for the picture of a card, with the card's name.
    Card(String),
    /// A ping.
    Ping,
    /// Nothing.
    Ignore,
}

/// What a `BotCommand` stands for.
pub enum BotCommandView {
    Draft(Seq<char>),
    Card(Seq<char>),
    Ping,
    Ignore,
}

impl View for BotCommand {
    type V = BotCommandView;

    open spec fn view(&self) -> BotCommandView {
        match self {
            BotCommand::Draft(args) => BotCommandView::Draft(args@),
            BotCommand::Card(args) => BotCommandView::Card(args@),
            BotCommand::Ping => BotCommandView::Ping,
            BotCommand::Ignore => BotCommandView::Ignore,
        }
    }
}

/// What the message `content` asks: its first word is the command, and
/// what stands behind the first white-space character goes with it.
pub open spec fn message_command(content: Seq<char>) -> BotCommandView {
    if head_of(content) == DRAFT_CMD@ {
        BotCommandView::Draft(tail_of(content))
    } else if head_of(content) == CARD_COMMAND@ {
        BotCommandView::Card(tail_of(content))
    } else if head_of(content) == PING_COMMAND@ {
        BotCommandView::Ping
    } else {
        BotCommandView::Ignore
    }
}

/// Reads what a message asks of the bot.
pub fn parse_message(content: &str) -> (r: BotCommand)
    ensures
        r@ == message_command(content@),
{
    let (cmd, args) = split_head(content);
    if same_text(cmd.as_str(), DRAFT_CMD) {
        BotCommand::Draft(args)
    } else if same_text(cmd.as_str(), CARD_COMMAND) {
        BotCommand::Card(args)
    } else if same_text(cmd.as_str(), PING_COMMAND) {
        BotCommand::Ping
    } else {
        BotCommand::Ignore
    }
}

/// One of the entries of the list `channel_list`, which are set off by
/// commas, is `channel_id`, white space around it aside.
pub open spec fn is_listed(channel_list: Seq<char>, channel_id: Seq<char>) -> bool {
    exists|i: int|
        0 <= i < fields(channel_list, ',').len() && trimmed(#[trigger] fields(channel_list, ',')[i])
            == channel_id
}

/// Whether the channel `channel_id` is one of those in which the bot
/// answers.
pub fn channel_listed(channel_list: &str, channel_id: &str) -> (r: bool)
    ensures
        r == is_listed(channel_list@, channel_id@),
{
    let entries = split_char(channel_list, ',');
    let ghost all = fields(channel_list@, ',');
    let mut i: usize = 0;
    while i < entries.len()
        invariant
            i <= entries.len(),
            all == entries.deep_view(),
            all == fields(channel_list@, ','),
            forall|k: int| 0 <= k < i ==> trimmed(#[trigger] all[k]) != channel_id@,
        decreases entries.len() - i,
    {
        assert(all[i as int] == entries[i as int]@);
        let entry = trim(entries[i].as_str());
        if same_text(entry.as_str(), channel_id) {
            return true;
        }
        i += 1;
    }
    false
}

/// Whether a channel of the name `channel_name` was made for a draft.
pub fn is_draft_thread(channel_name: &str) -> (r: bool)
    ensures
        r == has_prefix(channel_name@, DRAFT_THREAD_PREFIX@),
{
    starts_with(channel_name, DRAFT_THREAD_PREFIX)
}

/// What a command on a draft asks for.
#[derive(Debug)]
pub enum DraftCommand {
    /// The list of commands.
    Help,
    /// To take part in the game of this name.
    Register(String),
    /// To take part in the game of this name and to own it.
    Own(String),
    /// To vote for the card that this text names.
    Vote(String),
    /// To commit the card with the most votes.
    Commit,
    /// The deck so far.
    Deck,
    /// The cards on offer.
    Show,
}

/// What a `DraftCommand` stands for.
pub enum DraftCommandView {
    Help,
    Register(Seq<char>),
    Own(Seq<char>),
    Vote(Seq<char>),
    Commit,
    Deck,
    Show,
}

impl View for DraftCommand {
    type V = DraftCommandView;

    open spec fn view(&self) -> DraftCommandView {
        match self {
            DraftCommand::Help => DraftCommandView::Help,
            DraftCommand::Register(game_id) => DraftCommandView::Register(game_id@),
            DraftCommand::Own(game_id) => DraftCommandView::Own(game_id@),
            DraftCommand::Vote(text) => DraftCommandView::Vote(text@),
            DraftCommand::Commit => DraftCommandView::Commit,
            DraftCommand::Deck => DraftCommandView::Deck,
            DraftCommand::Show => DraftCommandView::Show,
        }
    }
}

impl Clone for DraftCommand {
    fn clone(&self) -> (r: Self)
        ensures
            r@ == self@,
    {
        match self {
            DraftCommand::Help => DraftCommand::Help,
            DraftCommand::Register(game_id) => DraftCommand::Register(game_id.clone()),
            DraftCommand::Own(game_id) => DraftCommand::Own(game_id.clone()),
            DraftCommand::Vote(text) => DraftCommand::Vote(text.clone()),
            DraftCommand::Commit => DraftCommand::Commit,
            DraftCommand::Deck => DraftCommand::Deck,
            DraftCommand::Show => DraftCommand::Show,
        }
    }
}

/// What the words behind the command word ask for: the first of them names
/// the command, and what stands behind the first white-space character
/// goes with it. Anything that names no command asks for the cards on
/// offer.
pub open spec fn draft_command(args: Seq<char>) -> DraftCommandView {
    if head_of(args) == "help"@ {
        DraftCommandView::Help
    } else if head_of(args) == "reg"@ {
        DraftCommandView::Register(tail_of(args))
    } else if head_of(args) == "own"@ {
        DraftCommandView::Own(tail_of(args))
    } else if head_of(args) == "vote"@ {
        DraftCommandView::Vote(tail_of(args))
    } else if head_of(args) == "commit"@ {
        DraftCommandView::Commit
    } else if head_of(args) == "deck"@ {
        DraftCommandView::Deck
    } else {
        DraftCommandView::Show
    }
}

/// Reads what a command on a draft asks for.
pub fn parse_draft_command(args: &str) -> (r: DraftCommand)
    ensures
        r@ == draft_command(args@),
{
    let (sub_cmd, rest) = split_head(args);
    if same_text(sub_cmd.as_str(), "help") {
        DraftCommand::Help
    } else if same_text(sub_cmd.as_str(), "reg") {
        DraftCommand::Register(rest)
    } else if same_text(sub_cmd.as_str(), "own") {
        DraftCommand::Own(rest)
    } else if same_text(sub_cmd.as_str(), "vote") {
        DraftCommand::Vote(rest)
    } else if same_text(sub_cmd.as_str(), "commit") {
        DraftCommand::Commit
    } else if same_text(sub_cmd.as_str(), "deck") {
        DraftCommand::Deck
    } else {
        DraftCommand::Show
    }
}

/// The list of commands, set off as preformatted text.
pub fn get_help_text() -> (r: String)
    ensures
        r@ == seq!['`', '`', '`'] + DRAFT_CMD_HELP@ + seq!['`', '`', '`'],
{
    let mut r = String::new();
    r.push('`');
    r.push('`');
    r.push('`');
    r.append(DRAFT_CMD_HELP);
    r.push('`');
    r.push('`');
    r.push('`');
    assert(r@ =~= seq!['`', '`', '`'] + DRAFT_CMD_HELP@ + seq!['`', '`', '`']);
    r
}

/// The place of the first entry of `list`, from place `from` on, that is
/// among `hits`; the length of `list` where none is.
pub open spec fn first_listed(list: Seq<Seq<char>>, hits: Seq<Seq<char>>, from: int) -> int
    decreases list.len() - from,
{
    if from >= list.len() {
        list.len() as int
    } else if from >= 0 && hits.contains(list[from]) {
        from
    } else {
        first_listed(list, hits, from + 1)
    }
}

/// The place of the card of `list` that `hits` name: the first entry of the
/// list that is among them, if there is one and its place is below 256.
pub open spec fn listed_choice(list: Seq<Seq<char>>, hits: Seq<Seq<char>>) -> Option<u8> {
    if first_listed(list, hits, 0) < list.len() && first_listed(list, hits, 0) < 256 {
        Some(first_listed(list, hits, 0) as u8)
    } else {
        None
    }
}

/// The place of the first entry of `list` that is among `hits`.
pub fn choose_listed(list: &Vec<String>, hits: &Vec<String>) -> (r: Option<u8>)
    ensures
        r == listed_choice(list.deep_view(), hits.deep_view()),
        r matches Some(i) ==> i < list.len(),
{
    let ghost l = list.deep_view();
    let ghost h = hits.deep_view();
    let mut i: usize = list.len();
    let mut found: usize = list.len();
    while i > 0
        invariant
            i <= list.len(),
            l == list.deep_view(),
            h == hits.deep_view(),
            found == first_listed(l, h, i as int),
            found <= list.len(),
        decreases i,
    {
        i -= 1;
        assert(l[i as int] == list[i as int]@);
        if contains_text(hits, list[i].as_str()) {
            found = i;
        }
    }
    if found < list.len() && found < 256 {
        Some(found as u8)
    } else {
        None
    }
}

/// The place in `list` of the card that the text `input` names. The text
/// is read as recognised text is: a search for its name characters among
/// the cards of the list gives the candidates, and where that gives none of
/// them, a search for the text with its words corrected against the words
/// of the list. Of several candidates the one that stands first in the list
/// is meant.
pub open spec fn named_in_list(list: Seq<Seq<char>>, input: Seq<char>) -> Option<u8> {
    let text = name_chars(input);
    let direct = listed_choice(list, search_hits(list.to_set(), text));
    if direct is Some {
        direct
    } else {
        listed_choice(
            list,
            search_hits(list.to_set(), corrected_text(text, name_tokens(list))),
        )
    }
}

/// The place in `list` of the card that `input_str` names.
pub fn find_card_in_list(list: &Vec<String>, input_str: &str) -> (r: Option<u8>)
    ensures
        r matches Some(i) ==> i < list.len(),
        list.len() <= INDEX_CAPACITY ==> r == named_in_list(list.deep_view(), input_str@),
{
    let card_index = CardIndex::from_names(list);
    let text = preprocess_text(input_str);
    let hits = card_index.search(text.as_str());
    match choose_listed(list, &hits) {
        Some(i) => Some(i),
        None => {
            let dictionary = collect_name_tokens(list);
            let corrected = correct_text(text.as_str(), &dictionary);
            let second = card_index.search(corrected.as_str());
            choose_listed(list, &second)
        },
    }
}

/// The place of the card on offer that a vote for `vote_text` means. A
/// numeral counts the cards on offer from one. Any other text names a card
/// through `choice`, the place that the text names in the list of the
/// cards.
pub open spec fn vote_target(offered: int, vote_text: Seq<char>, choice: Option<u8>) -> Result<
    u8,
    DraftError,
> {
    match parsed_u8(vote_text) {
        Some(number) => if 1 <= number <= offered {
            Ok((number - 1) as u8)
        } else {
            Err(DraftError::IndexOutOfBounds)
        },
        None => match choice {
            Some(i) => Ok(i),
            None => Err(DraftError::NoMatch),
        },
    }
}

/// The place of the card among `selection_vec`, the cards on offer, that a
/// vote for `vote_text` means.
pub fn resolve_vote(selection_vec: &Vec<String>, vote_text: &str) -> (r: Result<u8, DraftError>)
    ensures
        r matches Ok(i) ==> i < selection_vec.len(),
        parsed_u8(vote_text@) is Some ==> r == vote_target(
            selection_vec.len() as int,
            vote_text@,
            None,
        ),
        selection_vec.len() <= INDEX_CAPACITY ==> r == vote_target(
            selection_vec.len() as int,
            vote_text@,
            named_in_list(selection_vec.deep_view(), vote_text@),
        ),
{
    match parse_u8(vote_text) {
        Some(number) => {
            if number >= 1 && (number as usize) <= selection_vec.len() {
                Ok(number - 1)
            } else {
                Err(DraftError::IndexOutOfBounds)
            }
        },
        None => match find_card_in_list(selection_vec, vote_text) {
            Some(i) => Ok(i),
            None => Err(DraftError::NoMatch),
        },
    }
}

/// The names `names`, each in square brackets.
pub open spec fn bracketed(names: Seq<Seq<char>>) -> Seq<Seq<char>> {
    names.map_values(|n: Seq<char>| seq!['['] + n + seq![']'])
}

/// Why a search that gave `hits` names no card to show: there was no hit,
/// or there were several, of which the first three are named. Also a hit
/// that is no card of the catalogue counts as none.
pub open spec fn card_search_failure(hits: Seq<Seq<char>>) -> Seq<char> {
    if hits.len() > 1 {
        "Multiple cards found: "@ + crate::text::joined(
            bracketed(
                if hits.len() <= 3 {
                    hits
                } else {
                    hits.take(3)
                },
            ),
            seq![',', ' '],
        )
    } else {
        "No card found"@
    }
}

/// The card that a search with the hits `hits` names: the card of the one
/// hit; or the reason why there is none.
pub open spec fn card_found(hits: Seq<Seq<char>>, cards: Seq<CardView>) -> Result<
    CardView,
    Seq<char>,
> {
    if hits.len() == 1 {
        match card_named(cards, hits[0]) {
            Some(card) => Ok(card),
            None => Err("No card found"@),
        }
    } else {
        Err(card_search_failure(hits))
    }
}

/// The view of a card, or the reason in its place.
pub open spec fn card_result_view(r: Result<crate::models::card::Card, String>) -> Result<
    CardView,
    Seq<char>,
> {
    match r {
        Ok(card) => Ok(card@),
        Err(why) => Err(why@),
    }
}

/// The card that the search results `hits` name, looked up in `card_map`.
pub fn card_of_hits(hits: &Vec<String>, card_map: &CardMap) -> (r: Result<
    crate::models::card::Card,
    String,
>)
    ensures
        card_result_view(r) == card_found(hits.deep_view(), card_map@),
{
    if hits.len() == 1 {
        assert(hits.deep_view()[0] == hits[0]@);
        match card_map.get(hits[0].as_str()) {
            Some(card) => Ok(card.clone()),
            None => Err(String::from_str("No card found")),
        }
    } else if hits.len() == 0 {
        Err(String::from_str("No card found"))
    } else {
        let n: usize = if hits.len() <= 3 {
            hits.len()
        } else {
            3
        };
        let ghost shown = if hits.len() <= 3 {
            hits.deep_view()
        } else {
            hits.deep_view().take(3)
        };
        let mut names: Vec<String> = Vec::new();
        let mut i: usize = 0;
        while i < n
            invariant
                i <= n,
                n <= hits.len(),
                names.len() == i,
                forall|k: int|
                    0 <= k < i ==> names[k]@ == seq!['['] + #[trigger] hits[k]@ + seq![']'],
            decreases n - i,
        {
            let mut name = String::new();
            name.push('[');
            name.append(hits[i].as_str());
            name.push(']');
            assert(name@ =~= seq!['['] + hits[i as int]@ + seq![']']);
            names.push(name);
            i += 1;
        }
        assert(names.deep_view() =~= bracketed(shown));
        proof {
            reveal_strlit(", ");
            assert(", "@ =~= seq![',', ' ']);
        }
        let mut message = String::from_str("Multiple cards found: ");
        message.append(crate::text::join(&names, ", ").as_str());
        Err(message)
    }
}

/// The card that `input_str` names in the catalogue, or the reason why it
/// names none: no card, or more than one.
pub fn get_card(card_index: &CardIndex, card_map: &CardMap, input_str: &str) -> (r: Result<
    crate::models::card::Card,
    String,
>)
    ensures
        card_index.exact() ==> card_result_view(r) == card_found(
            search_hits(card_index.names(), input_str@),
            card_map@,
        ),
        r matches Ok(card) ==> card_index.names().contains(card@.name) && card_map@.contains(
            card@,
        ),
{
    let hits = card_index.search(input_str);
    let r = card_of_hits(&hits, card_map);
    proof {
        if r is Ok {
            assert(hits.deep_view()[0] == hits[0]@);
            crate::card_loader::lemma_card_named(card_map@, hits[0]@);
        }
    }
    r
}

/// The answer to a request for a card's picture: where the picture is
/// kept, or why there is none to show.
pub fn card_reply(found: &Result<crate::models::card::Card, String>) -> (r: String)
    ensures
        r@ == match found {
            Ok(card) => card@.image_url,
            Err(why) => "Unable to find card: "@ + why@,
        },
{
    match found {
        Ok(card) => card.image_url.clone(),
        Err(why) => {
            let mut r = String::from_str("Unable to find card: ");
            r.append(why.as_str());
            r
        },
    }
}

} // verus!
