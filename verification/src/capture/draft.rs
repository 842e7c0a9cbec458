use crate::capture::card_index::{CardIndex, INDEX_CAPACITY};
use crate::capture::card_matcher::{find_card_name_matches, resolved_all};
use crate::capture::screen::ScreenData;
use crate::card_loader::{card_named, card_views, CardMap, load_card_hashmap_by_name};
use crate::error::DraftError;
use crate::models::card::{
    Card, card_line, card_to_text_opt_default, CardToTextOpt, CardView, influence_text,
};
use crate::models::draft_data::{
    DraftPick, DraftPickView, DraftRecord, DraftRecordView, expected_option_count_of, position_of,
    valid_pick_id,
};
use crate::text::{
    char_is_digit, contains_text, decimal, format_u64, is_digit, lemma_contains_push, pad_right,
    padded_right, parse_u8, parsed_u8, split_whitespace, to_chars, words,
};
use crate::text_map::{lookup, pair_views, TextMap};
use vstd::prelude::*;
use vstd::string::*;

verus! {

/// How strictly a picture is read.
#[derive(Debug, Clone, Copy, PartialEq, Eq, Structural)]
pub struct CaptureOpt {
    /// Whether a picture counts only if it shows as many cards as its pick
    /// offers. Without it a picture with fewer cards is taken as it is.
    pub ocr_pick: bool,
}

impl Default for CaptureOpt {
    fn default() -> (r: Self)
        ensures
            r.ocr_pick,
    {
        CaptureOpt { ocr_pick: true }
    }
}

/// `tokens` with `token` at its end, unless it holds it already.
pub open spec fn with_token(tokens: Seq<Seq<char>>, token: Seq<char>) -> Seq<Seq<char>> {
    if tokens.contains(token) {
        tokens
    } else {
        tokens.push(token)
    }
}

/// `tokens` with each of `more` added that it does not hold yet, one after
/// the other.
pub open spec fn with_tokens(tokens: Seq<Seq<char>>, more: Seq<Seq<char>>) -> Seq<Seq<char>>
    decreases more.len(),
{
    if more.len() == 0 {
        tokens
    } else {
        with_token(with_tokens(tokens, more.drop_last()), more.last())
    }
}

/// The different words of `names`, each at the place of its first
/// occurrence.
pub open spec fn name_tokens(names: Seq<Seq<char>>) -> Seq<Seq<char>>
    decreases names.len(),
{
    if names.len() == 0 {
        Seq::empty()
    } else {
        with_tokens(name_tokens(names.drop_last()), words(names.last()))
    }
}

/// The names of `cards`, in order.
pub open spec fn card_names(cards: Seq<CardView>) -> Seq<Seq<char>> {
    cards.map_values(|c: CardView| c.name)
}

/// The different words of the names in `names`, each once, in the order of
/// their first occurrence: the dictionary against which recognised words
/// are corrected.
pub fn collect_name_tokens(names: &Vec<String>) -> (r: Vec<String>)
    ensures
        r.deep_view() == name_tokens(names.deep_view()),
{
    let ghost all = names.deep_view();
    let mut r: Vec<String> = Vec::new();
    let mut i: usize = 0;
    assert(r.deep_view() =~= Seq::<Seq<char>>::empty());
    while i < names.len()
        invariant
            i <= names.len(),
            all == names.deep_view(),
            r.deep_view() == name_tokens(all.take(i as int)),
        decreases names.len() - i,
    {
        let tokens = split_whitespace(names[i].as_str());
        let ghost more = tokens.deep_view();
        let ghost start = r.deep_view();
        proof {
            assert(all.take(i + 1).drop_last() =~= all.take(i as int));
            assert(all.take(i + 1).last() == names[i as int]@);
        }
        let mut j: usize = 0;
        while j < tokens.len()
            invariant
                j <= tokens.len(),
                more == tokens.deep_view(),
                r.deep_view() == with_tokens(start, more.take(j as int)),
            decreases tokens.len() - j,
        {
            proof {
                assert(more.take(j + 1).drop_last() =~= more.take(j as int));
                assert(more.take(j + 1).last() == tokens[j as int]@);
            }
            if !contains_text(&r, tokens[j].as_str()) {
                let ghost before = r.deep_view();
                r.push(tokens[j].clone());
                assert(r.deep_view() =~= before.push(tokens[j as int]@));
            }
            j += 1;
        }
        assert(more.take(j as int) =~= more);
        i += 1;
    }
    assert(all.take(i as int) =~= all);
    r
}

/// What is known of the cards while pictures are read: the cards by name,
/// the words of their names, the index to search them in, and their
/// ratings.
pub struct RuntimeData {
    pub card_map: CardMap,
    pub card_name_tokens: Vec<String>,
    pub card_index: CardIndex,
    pub card_ratings: TextMap,
}

/// Prepares what is known of `cards` and their ratings for reading
/// pictures.
pub fn initialize_runtime_data(cards: Vec<Card>, card_ratings: TextMap) -> (r: RuntimeData)
    ensures
        r.card_map@ == card_views(cards@),
        r.card_ratings@ == card_ratings@,
        r.card_name_tokens.deep_view() == name_tokens(card_names(card_views(cards@))),
        r.card_index.names() == card_names(card_views(cards@)).to_set(),
        cards.len() <= INDEX_CAPACITY ==> r.card_index.exact(),
{
    let ghost all = card_names(card_views(cards@));
    let mut names: Vec<String> = Vec::new();
    let mut i: usize = 0;
    while i < cards.len()
        invariant
            i <= cards.len(),
            names.len() == i,
            forall|k: int| 0 <= k < i ==> names[k]@ == cards[k]@.name,
        decreases cards.len() - i,
    {
        names.push(cards[i].name.clone());
        i += 1;
    }
    assert(names.deep_view() =~= all);
    let card_index = CardIndex::from_names(&names);
    let card_name_tokens = collect_name_tokens(&names);
    RuntimeData {
        card_map: load_card_hashmap_by_name(cards),
        card_name_tokens,
        card_index,
        card_ratings,
    }
}

/// What a `ScreenData` stands for.
pub struct ScreenDataView {
    pub pick_num: Seq<char>,
    pub cards: Seq<Seq<char>>,
    pub deck: Seq<(Seq<char>, Seq<char>)>,
}

impl View for ScreenData {
    type V = ScreenDataView;

    open spec fn view(&self) -> ScreenDataView {
        ScreenDataView {
            pick_num: self.pick_num@,
            cards: self.cards.deep_view(),
            deck: pair_views(self.deck@),
        }
    }
}

/// What a `ScreenMatchedData` stands for.
pub struct ScreenMatchedDataView {
    pub pick_num: u8,
    pub selection_text: Seq<char>,
    pub selection_vec: Seq<Seq<char>>,
    pub deck: Seq<Seq<char>>,
    pub image_path: Seq<char>,
}

/// What one picture of a pick says once its texts have been matched with
/// the catalogue.
#[derive(Debug)]
pub struct ScreenMatchedData {
    pub pick_num: u8,
    pub selection_text: String,
    pub selection_vec: Vec<String>,
    pub deck: Vec<String>,
    pub image_path: String,
}

impl View for ScreenMatchedData {
    type V = ScreenMatchedDataView;

    open spec fn view(&self) -> ScreenMatchedDataView {
        ScreenMatchedDataView {
            pick_num: self.pick_num,
            selection_text: self.selection_text@,
            selection_vec: self.selection_vec.deep_view(),
            deck: self.deck.deep_view(),
            image_path: self.image_path@,
        }
    }
}

/// The pick that the text of the pick counter names. The counter reads as
/// two words, and the second is the number of the pick.
pub open spec fn pick_number_in(text: Seq<char>) -> Result<u8, DraftError> {
    let w = words(text);
    if w.len() < 2 {
        Err(DraftError::MissingPickNumber)
    } else {
        match parsed_u8(w[1]) {
            None => Err(DraftError::BadPickNumber),
            Some(n) => if valid_pick_id(n as int) {
                Ok(n)
            } else {
                Err(DraftError::InvalidPick)
            },
        }
    }
}

/// Reads the number of the pick from the text of the pick counter.
pub fn parse_pick_number(text: &str) -> (r: Result<u8, DraftError>)
    ensures
        r == pick_number_in(text@),
{
    let w = split_whitespace(text);
    if w.len() < 2 {
        return Err(DraftError::MissingPickNumber);
    }
    assert(w.deep_view()[1] == w[1]@);
    match parse_u8(w[1].as_str()) {
        None => Err(DraftError::BadPickNumber),
        Some(n) => match position_of(n) {
            Ok(_) => Ok(n),
            Err(e) => Err(e),
        },
    }
}

/// The cards of the catalogue that go by `names`, in the order of the
/// names; a name that no card goes by is passed over.
pub open spec fn found_cards(cards: Seq<CardView>, names: Seq<Seq<char>>) -> Seq<CardView>
    decreases names.len(),
{
    if names.len() == 0 {
        Seq::empty()
    } else {
        match card_named(cards, names.last()) {
            Some(card) => found_cards(cards, names.drop_last()).push(card),
            None => found_cards(cards, names.drop_last()),
        }
    }
}

/// Every card that is found is a card of the catalogue.
pub proof fn lemma_found_cards(cards: Seq<CardView>, names: Seq<Seq<char>>)
    ensures
        found_cards(cards, names).len() <= names.len(),
        forall|k: int|
            0 <= k < found_cards(cards, names).len() ==> cards.contains(
                #[trigger] found_cards(cards, names)[k],
            ),
    decreases names.len(),
{
    if names.len() > 0 {
        lemma_found_cards(cards, names.drop_last());
        crate::card_loader::lemma_card_named(cards, names.last());
        let before = found_cards(cards, names.drop_last());
        assert forall|k: int| 0 <= k < found_cards(cards, names).len() implies cards.contains(
            #[trigger] found_cards(cards, names)[k],
        ) by {
            if k < before.len() {
                assert(found_cards(cards, names)[k] == before[k]);
            }
        }
    }
}

/// The cards of `card_map` that go by `names`.
fn find_cards(card_map: &CardMap, names: &Vec<String>) -> (r: Vec<Card>)
    ensures
        card_views(r@) == found_cards(card_map@, names.deep_view()),
        r.len() <= names.len(),
{
    let ghost all = names.deep_view();
    let mut r: Vec<Card> = Vec::new();
    let mut i: usize = 0;
    assert(card_views(r@) =~= Seq::<CardView>::empty());
    while i < names.len()
        invariant
            i <= names.len(),
            all == names.deep_view(),
            r.len() <= i,
            card_views(r@) == found_cards(card_map@, all.take(i as int)),
        decreases names.len() - i,
    {
        proof {
            assert(all.take(i + 1).drop_last() =~= all.take(i as int));
            assert(all.take(i + 1).last() == names[i as int]@);
        }
        match card_map.get(names[i].as_str()) {
            Some(card) => {
                let ghost before = card_views(r@);
                r.push(card.clone());
                assert(card_views(r@) =~= before.push(card@));
            },
            None => {},
        }
        i += 1;
    }
    assert(all.take(i as int) =~= all);
    r
}

/// The rating to show for the card `name`: its rating, or `NA` where it
/// has none.
pub open spec fn rating_shown(ratings: Seq<(Seq<char>, Seq<char>)>, name: Seq<char>) -> Seq<char> {
    match lookup(ratings, name) {
        Some(rating) => rating,
        None => "NA"@,
    }
}

/// The line of the card at place `idx` of the cards on offer: its number,
/// counted from one, in a field of two; its rating in square brackets, in a
/// field of two; the line of the card with its rarity; and a line break.
pub open spec fn selection_line(idx: int, card: CardView, ratings: Seq<(Seq<char>, Seq<char>)>)
    -> Seq<char> {
    padded_right(decimal((idx + 1) as nat), 2) + seq![' ', '['] + padded_right(
        rating_shown(ratings, card.name),
        2,
    ) + seq![']', ' '] + card_line(card, CardToTextOpt { inclued_rarity: true }) + seq!['\n']
}

/// The lines of the cards on offer, one after the other.
pub open spec fn selection_lines(cards: Seq<CardView>, ratings: Seq<(Seq<char>, Seq<char>)>) -> Seq<
    char,
>
    decreases cards.len(),
{
    if cards.len() == 0 {
        Seq::empty()
    } else {
        selection_lines(cards.drop_last(), ratings) + selection_line(
            cards.len() - 1,
            cards.last(),
            ratings,
        )
    }
}

/// The line of `card` at place `idx` of the cards on offer.
fn selection_line_of(idx: usize, card: &Card, ratings: &TextMap) -> (r: String)
    requires
        idx < usize::MAX,
    ensures
        r@ == selection_line(idx as int, card@, ratings@),
{
    let rating = match ratings.get(card.name.as_str()) {
        Some(rating) => rating,
        None => String::from_str("NA"),
    };
    let mut r = pad_right(format_u64((idx + 1) as u64).as_str(), 2);
    r.push(' ');
    r.push('[');
    r.append(pad_right(rating.as_str(), 2).as_str());
    r.push(']');
    r.push(' ');
    r.append(card.to_text(card_to_text_opt_default()).as_str());
    r.push('\n');
    assert(r@ =~= selection_line(idx as int, card@, ratings@));
    r
}

/// The text that shows the cards on offer.
fn selection_text_of(cards: &Vec<Card>, ratings: &TextMap) -> (r: String)
    ensures
        r@ == selection_lines(card_views(cards@), ratings@),
{
    let ghost all = card_views(cards@);
    let mut r = String::new();
    let mut i: usize = 0;
    while i < cards.len()
        invariant
            i <= cards.len(),
            all == card_views(cards@),
            r@ == selection_lines(all.take(i as int), ratings@),
        decreases cards.len() - i,
    {
        proof {
            assert(all.take(i + 1).drop_last() =~= all.take(i as int));
            assert(all.take(i + 1).last() == cards[i as int]@);
        }
        r.append(selection_line_of(i, &cards[i], ratings).as_str());
        i += 1;
    }
    assert(all.take(i as int) =~= all);
    r
}

/// The names of `cards`, in order.
fn names_of(cards: &Vec<Card>) -> (r: Vec<String>)
    ensures
        r.deep_view() == card_names(card_views(cards@)),
{
    let mut r: Vec<String> = Vec::new();
    let mut i: usize = 0;
    while i < cards.len()
        invariant
            i <= cards.len(),
            r.len() == i,
            forall|k: int| 0 <= k < i ==> r[k]@ == cards[k]@.name,
        decreases cards.len() - i,
    {
        r.push(cards[i].name.clone());
        i += 1;
    }
    assert(r.deep_view() =~= card_names(card_views(cards@)));
    r
}

/// The decimal digits of `s`, in order.
pub open spec fn digits_in(s: Seq<char>) -> Seq<char>
    decreases s.len(),
{
    if s.len() == 0 {
        Seq::empty()
    } else if is_digit(s.last()) {
        digits_in(s.drop_last()).push(s.last())
    } else {
        digits_in(s.drop_last())
    }
}

/// The decimal digits of `text`.
fn keep_digits(text: &str) -> (r: String)
    ensures
        r@ == digits_in(text@),
{
    let chars = to_chars(text);
    let mut r = String::new();
    let mut i: usize = 0;
    while i < chars.len()
        invariant
            i <= chars.len(),
            chars@ == text@,
            r@ == digits_in(chars@.take(i as int)),
        decreases chars.len() - i,
    {
        proof {
            assert(chars@.take(i + 1).drop_last() =~= chars@.take(i as int));
            assert(chars@.take(i + 1).last() == chars[i as int]);
        }
        if char_is_digit(chars[i]) {
            r.push(chars[i]);
        }
        i += 1;
    }
    assert(chars@.take(i as int) =~= chars@);
    r
}

/// The line of a card in the deck list: how often the deck holds it, an
/// `x`, a space, and then, in a field of thirty, its cost, its influence in
/// a field of six, a space and its name.
pub open spec fn deck_line(count: Seq<char>, card: CardView) -> Seq<char> {
    count + seq!['x', ' '] + padded_right(
        decimal(card.cost as nat) + padded_right(influence_text(card.influence), 6) + seq![' ']
            + card.name,
        30,
    )
}

/// The lines of the deck list: the cards that were recognised, one after
/// the other, each with the count that was read at its place in the list.
pub open spec fn deck_lines(cards: Seq<CardView>, deck: Seq<(Seq<char>, Seq<char>)>) -> Seq<
    Seq<char>,
> {
    Seq::new(
        if cards.len() <= deck.len() {
            cards.len()
        } else {
            deck.len()
        },
        |i: int| deck_line(digits_in(deck[i].1), cards[i]),
    )
}

/// The lines of the deck list.
fn deck_text_of(cards: &Vec<Card>, deck: &Vec<(String, String)>) -> (r: Vec<String>)
    ensures
        r.deep_view() == deck_lines(card_views(cards@), pair_views(deck@)),
{
    let n = if cards.len() <= deck.len() {
        cards.len()
    } else {
        deck.len()
    };
    let mut r: Vec<String> = Vec::new();
    let mut i: usize = 0;
    while i < n
        invariant
            i <= n,
            n <= cards.len(),
            n <= deck.len(),
            r.len() == i,
            forall|k: int|
                0 <= k < i ==> r[k]@ == deck_line(digits_in(deck[k].1@), #[trigger] cards[k]@),
        decreases n - i,
    {
        let card = &cards[i];
        let mut shown = format_u64(card.cost as u64);
        shown.append(card.influence.to_padded_text().as_str());
        shown.push(' ');
        shown.append(card.name.as_str());
        let mut line = keep_digits(deck[i].1.as_str());
        line.push('x');
        line.push(' ');
        line.append(pad_right(shown.as_str(), 30).as_str());
        assert(shown@ =~= decimal(card.cost as nat) + padded_right(
            influence_text(card@.influence),
            6,
        ) + seq![' '] + card@.name);
        assert(line@ =~= deck_line(digits_in(deck[i as int].1@), card@));
        r.push(line);
        i += 1;
    }
    assert(r.deep_view() =~= deck_lines(card_views(cards@), pair_views(deck@)));
    r
}

/// The first parts of the pairs in `deck`.
pub open spec fn deck_names(deck: Seq<(Seq<char>, Seq<char>)>) -> Seq<Seq<char>> {
    deck.map_values(|p: (Seq<char>, Seq<char>)| p.0)
}

/// The cards that the texts `texts` name: each text is resolved against
/// the catalogue, and each name that comes of it is looked up.
pub open spec fn matched_cards(
    names: Set<Seq<char>>,
    dictionary: Seq<Seq<char>>,
    cards: Seq<CardView>,
    texts: Seq<Seq<char>>,
) -> Seq<CardView> {
    found_cards(cards, resolved_all(names, dictionary, texts))
}

/// What a picture says. The pick counter gives the pick, and the pick the
/// number of cards on offer. Of the card texts only that many count. Read
/// strictly, a picture in which fewer cards were recognised than the pick
/// offers is refused as a whole.
pub open spec fn matched_screen(
    names: Set<Seq<char>>,
    dictionary: Seq<Seq<char>>,
    cards: Seq<CardView>,
    ratings: Seq<(Seq<char>, Seq<char>)>,
    screen: ScreenDataView,
    ocr_pick: bool,
    image_path: Seq<char>,
) -> Result<ScreenMatchedDataView, DraftError> {
    match pick_number_in(screen.pick_num) {
        Err(e) => Err(e),
        Ok(pick_num) => {
            let expected = expected_option_count_of(pick_num as int);
            let texts = if screen.cards.len() <= expected {
                screen.cards
            } else {
                screen.cards.take(expected)
            };
            let offered = matched_cards(names, dictionary, cards, texts);
            if ocr_pick && offered.len() != expected {
                Err(DraftError::IncompleteObservation)
            } else {
                Ok(
                    ScreenMatchedDataView {
                        pick_num,
                        selection_text: selection_lines(offered, ratings),
                        selection_vec: card_names(offered),
                        deck: deck_lines(
                            matched_cards(names, dictionary, cards, deck_names(screen.deck)),
                            screen.deck,
                        ),
                        image_path,
                    },
                )
            }
        },
    }
}

/// The view of what was matched, or the error in its place.
pub open spec fn matched_view(r: Result<ScreenMatchedData, DraftError>) -> Result<
    ScreenMatchedDataView,
    DraftError,
> {
    match r {
        Ok(data) => Ok(data@),
        Err(e) => Err(e),
    }
}

/// Matches the texts of one picture with the catalogue. `image_path` is
/// where the picture is kept.
pub fn get_draft_selection_text(
    data: &RuntimeData,
    screen_data: &ScreenData,
    capture_opt: &CaptureOpt,
    image_path: String,
) -> (r: Result<ScreenMatchedData, DraftError>)
    ensures
        match pick_number_in(screen_data.pick_num@) {
            Err(e) => r == Err::<ScreenMatchedData, DraftError>(e),
            Ok(pick_num) => match r {
                Ok(matched) => matched.pick_num == pick_num && matched.image_path@ == image_path@
                    && (forall|k: int|
                    0 <= k < matched.selection_vec.len() ==> card_names(data.card_map@).contains(
                        #[trigger] matched.selection_vec[k]@,
                    )) && matched.selection_vec.len() <= expected_option_count_of(pick_num as int)
                    && (capture_opt.ocr_pick ==> matched.selection_vec.len()
                    == expected_option_count_of(pick_num as int)),
                Err(e) => e == DraftError::IncompleteObservation && capture_opt.ocr_pick,
            },
        },
        data.card_index.exact() ==> matched_view(r) == matched_screen(
            data.card_index.names(),
            data.card_name_tokens.deep_view(),
            data.card_map@,
            data.card_ratings@,
            screen_data@,
            capture_opt.ocr_pick,
            image_path@,
        ),
{
    let pick_num = match parse_pick_number(screen_data.pick_num.as_str()) {
        Ok(n) => n,
        Err(e) => {
            return Err(e);
        },
    };
    let expected = DraftPick::new(pick_num).get_expected_card_selection_count() as usize;
    let ghost texts = if screen_data@.cards.len() <= expected {
        screen_data@.cards
    } else {
        screen_data@.cards.take(expected as int)
    };
    let mut card_texts: Vec<&str> = Vec::new();
    let mut i: usize = 0;
    while i < screen_data.cards.len() && i < expected
        invariant
            i <= screen_data.cards.len(),
            i <= expected,
            card_texts.len() == i,
            forall|k: int| 0 <= k < i ==> card_texts[k]@ == screen_data.cards[k]@,
        decreases screen_data.cards.len() - i,
    {
        card_texts.push(screen_data.cards[i].as_str());
        i += 1;
    }
    assert(card_texts@.map_values(|s: &str| s@) =~= texts);
    let matched_card_names = find_card_name_matches(
        &data.card_index,
        &data.card_name_tokens,
        card_texts.as_slice(),
    );
    let offered = find_cards(&data.card_map, &matched_card_names);
    if capture_opt.ocr_pick && offered.len() != expected {
        return Err(DraftError::IncompleteObservation);
    }
    let selection_text = selection_text_of(&offered, &data.card_ratings);
    let selection_vec = names_of(&offered);
    assert(selection_vec.deep_view().len() == offered.len());
    assert(selection_vec.len() == offered.len());
    proof {
        lemma_found_cards(data.card_map@, matched_card_names.deep_view());
        assert forall|k: int| 0 <= k < selection_vec.len() implies card_names(
            data.card_map@,
        ).contains(#[trigger] selection_vec[k]@) by {
            let card = card_views(offered@)[k];
            assert(selection_vec[k]@ == selection_vec.deep_view()[k]);
            assert(selection_vec.deep_view()[k] == card.name);
            assert(data.card_map@.contains(card));
            let i = choose|i: int| 0 <= i < data.card_map@.len() && data.card_map@[i] == card;
            assert(card_names(data.card_map@)[i] == card.name);
        }
    }

    let mut deck_texts: Vec<&str> = Vec::new();
    let mut j: usize = 0;
    while j < screen_data.deck.len()
        invariant
            j <= screen_data.deck.len(),
            deck_texts.len() == j,
            forall|k: int| 0 <= k < j ==> deck_texts[k]@ == screen_data.deck[k].0@,
        decreases screen_data.deck.len() - j,
    {
        deck_texts.push(screen_data.deck[j].0.as_str());
        j += 1;
    }
    assert(deck_texts@.map_values(|s: &str| s@) =~= deck_names(screen_data@.deck));
    let matched_deck_names = find_card_name_matches(
        &data.card_index,
        &data.card_name_tokens,
        deck_texts.as_slice(),
    );
    let deck_cards = find_cards(&data.card_map, &matched_deck_names);
    let deck = deck_text_of(&deck_cards, &screen_data.deck);
    Ok(ScreenMatchedData { pick_num, selection_text, selection_vec, deck, image_path })
}

/// The record of what a picture showed, for game `game_id`, and where the
/// picture is kept. A picture that showed no card gives no record.
pub open spec fn recorded(matched: ScreenMatchedDataView, game_id: Seq<char>) -> Result<
    (DraftRecordView, Seq<char>),
    DraftError,
> {
    if !valid_pick_id(matched.pick_num as int) {
        Err(DraftError::InvalidPick)
    } else if matched.selection_text.len() == 0 {
        Err(DraftError::EmptySelection)
    } else {
        Ok(
            (
                DraftRecordView {
                    game_id,
                    pick: DraftPickView {
                        pick_id: matched.pick_num,
                        pick_str: crate::models::draft_data::pick_label(matched.pick_num as int),
                    },
                    selection_text: matched.selection_text,
                    selection_vec: matched.selection_vec,
                    decklist_text: matched.deck,
                    selected_card: None,
                    image_url: None,
                },
                matched.image_path,
            ),
        )
    }
}

/// The view of a record and the place of its picture, or the error in
/// their place.
pub open spec fn record_result_view(r: Result<(DraftRecord, String), DraftError>) -> Result<
    (DraftRecordView, Seq<char>),
    DraftError,
> {
    match r {
        Ok(pair) => Ok((pair.0@, pair.1@)),
        Err(e) => Err(e),
    }
}

/// Makes the record of game `game_id` from what a picture showed.
pub fn draft_record_of(matched: ScreenMatchedData, game_id: &str) -> (r: Result<
    (DraftRecord, String),
    DraftError,
>)
    ensures
        record_result_view(r) == recorded(matched@, game_id@),
{
    if matched.pick_num < 1 || matched.pick_num > 48 {
        return Err(DraftError::InvalidPick);
    }
    if matched.selection_text.as_str().unicode_len() == 0 {
        return Err(DraftError::EmptySelection);
    }
    let record = DraftRecord {
        game_id: String::from_str(game_id),
        pick: DraftPick::new(matched.pick_num),
        selection_text: matched.selection_text,
        selection_vec: matched.selection_vec,
        decklist_text: matched.deck,
        selected_card: None,
        image_url: None,
    };
    Ok((record, matched.image_path))
}

/// Reads one picture into the record of game `game_id`: the texts are
/// matched with the catalogue, and what they show becomes the record.
pub fn capture_draft_record(
    runtime_data: &RuntimeData,
    screen_data: &ScreenData,
    capture_opt: &CaptureOpt,
    image_path: String,
    game_id: &str,
) -> (r: Result<(DraftRecord, String), DraftError>)
    ensures
        r matches Ok(pair) ==> pair.0@.game_id == game_id@ && pair.1@ == image_path@
            && pair.0.pick.wf() && pick_number_in(screen_data.pick_num@) == Ok::<u8, DraftError>(
            pair.0.pick.pick_id,
        ) && pair.0@.selected_card is None && pair.0@.image_url is None
            && pair.0.selection_vec.len() <= expected_option_count_of(pair.0.pick.pick_id as int)
            && (capture_opt.ocr_pick ==> pair.0.selection_vec.len() == expected_option_count_of(
            pair.0.pick.pick_id as int,
        )),
        pick_number_in(screen_data.pick_num@) matches Err(e) ==> r == Err::<
            (DraftRecord, String),
            DraftError,
        >(e),
        runtime_data.card_index.exact() ==> record_result_view(r) == match matched_screen(
            runtime_data.card_index.names(),
            runtime_data.card_name_tokens.deep_view(),
            runtime_data.card_map@,
            runtime_data.card_ratings@,
            screen_data@,
            capture_opt.ocr_pick,
            image_path@,
        ) {
            Ok(matched) => recorded(matched, game_id@),
            Err(e) => Err(e),
        },
{
    match get_draft_selection_text(runtime_data, screen_data, capture_opt, image_path) {
        Ok(matched) => {
            let ghost offered = matched.selection_vec.len();
            let r = draft_record_of(matched, game_id);
            proof {
                if r is Ok {
                    assert(r->Ok_0.0@.selection_vec.len() == offered);
                    assert(r->Ok_0.0.selection_vec.deep_view().len() == r->Ok_0.0.selection_vec.len());
                }
            }
            r
        },
        Err(e) => Err(e),
    }
}

/// Adding tokens keeps what was there and brings in what is added; and a
/// list without repetitions stays without.
pub proof fn lemma_with_tokens(tokens: Seq<Seq<char>>, more: Seq<Seq<char>>)
    ensures
        forall|t: Seq<char>|
            with_tokens(tokens, more).contains(t) <==> tokens.contains(t) || more.contains(t),
        tokens.no_duplicates() ==> with_tokens(tokens, more).no_duplicates(),
    decreases more.len(),
{
    if more.len() > 0 {
        let before = with_tokens(tokens, more.drop_last());
        lemma_with_tokens(tokens, more.drop_last());
        assert forall|t: Seq<char>|
            with_tokens(tokens, more).contains(t) <==> tokens.contains(t) || more.contains(
                t,
            ) by {
            lemma_contains_push(before, more.last(), t);
            lemma_contains_push(more.drop_last(), more.last(), t);
            assert(more.drop_last().push(more.last()) =~= more);
        }
        if tokens.no_duplicates() && !before.contains(more.last()) {
            let after = before.push(more.last());
            assert forall|i: int, j: int| 0 <= i < after.len() && 0 <= j < after.len() && i
                != j implies after[i] != after[j] by {
                if i < before.len() && j < before.len() {
                } else if i < before.len() {
                    assert(before.contains(before[i]));
                } else {
                    assert(before.contains(before[j]));
                }
            }
        }
    } else {
        assert forall|t: Seq<char>| !more.contains(t) by {}
    }
}

/// The dictionary holds every word of every name, and nothing else, and
/// holds no word twice.
pub proof fn lemma_name_tokens(names: Seq<Seq<char>>)
    ensures
        name_tokens(names).no_duplicates(),
        forall|t: Seq<char>|
            name_tokens(names).contains(t) <==> exists|i: int|
                0 <= i < names.len() && words(#[trigger] names[i]).contains(t),
    decreases names.len(),
{
    if names.len() > 0 {
        let rest = names.drop_last();
        lemma_name_tokens(rest);
        lemma_with_tokens(name_tokens(rest), words(names.last()));
        assert forall|t: Seq<char>| name_tokens(names).contains(t) implies exists|i: int|
            0 <= i < names.len() && words(#[trigger] names[i]).contains(t) by {
            if name_tokens(rest).contains(t) {
                let i = choose|i: int| 0 <= i < rest.len() && words(#[trigger] rest[i]).contains(t);
                assert(names[i] == rest[i]);
            } else {
                assert(words(names[names.len() - 1]).contains(t));
            }
        }
        assert forall|t: Seq<char>|
            (exists|i: int|
                0 <= i < names.len() && words(#[trigger] names[i]).contains(
                    t,
                )) implies name_tokens(names).contains(t) by {
            let i = choose|i: int| 0 <= i < names.len() && words(#[trigger] names[i]).contains(t);
            if i < rest.len() {
                assert(rest[i] == names[i]);
                assert(words(rest[i]).contains(t));
                assert(name_tokens(rest).contains(t));
            } else {
                assert(names[i] == names.last());
            }
        }
    } else {
        assert forall|t: Seq<char>| !name_tokens(names).contains(t) by {}
    }
}

/// The number of characters in the name of a game.
pub const GAME_ID_LENGTH: usize = 8;

/// The setting under which the name of the current game is kept.
pub const CURRENT_GAME_ID_KEY: &'static str = "current_game_id";

/// A character that can stand in the name of a game: an unaccented letter
/// or a digit.
pub open spec fn is_game_id_char(c: char) -> bool {
    ('a' <= c && c <= 'z') || ('A' <= c && c <= 'Z') || ('0' <= c && c <= '9')
}

/// A text that can be the name of a game made here.
pub open spec fn is_game_id(id: Seq<char>) -> bool {
    id.len() == GAME_ID_LENGTH && forall|i: int| 0 <= i < id.len() ==> is_game_id_char(#[trigger] id[i])
}

/// The characters from which the names of games are made.
fn game_id_alphabet() -> (r: Vec<char>)
    ensures
        r.len() == 62,
        forall|i: int| 0 <= i < r.len() ==> is_game_id_char(#[trigger] r[i]),
{
    proof {
        reveal_strlit("abcdefghijklmnopqrstuvwxyzABCDEFGHIJKLMNOPQRSTUVWXYZ0123456789");
    }
    to_chars("abcdefghijklmnopqrstuvwxyzABCDEFGHIJKLMNOPQRSTUVWXYZ0123456789")
}

/// `nanoid::format` with the crate's default source of random bytes, which
/// is seeded by the operating system: a text of `size` characters, each
/// drawn from `alphabet`. Which text comes is left to chance, so nothing
/// more is said of it. The crate does not return for an empty alphabet or a
/// size of zero, refuses an alphabet of more than 255 characters, and counts
/// the size in bytes, so those inputs and characters beyond the ASCII range
/// are left out.
#[verifier::external_body]
fn random_id(alphabet: &Vec<char>, size: usize) -> (r: String)
    requires
        1 <= alphabet.len() <= 255,
        size >= 1,
        forall|i: int| 0 <= i < alphabet.len() ==> (#[trigger] alphabet[i]) <= '\x7f',
    ensures
        r@.len() == size,
        forall|i: int| 0 <= i < r@.len() ==> alphabet@.contains(#[trigger] r@[i]),
{
    nanoid::format(nanoid::rngs::default, alphabet.as_slice(), size)
}

/// Makes up the name of a new game and notes it in `context` as the current
/// game. Writing the settings to their place is left to the caller.
pub fn create_new_game(context: &mut crate::context::Context) -> (game_id: String)
    ensures
        is_game_id(game_id@),
        final(context).data@ == crate::text_map::upserted(
            old(context).data@,
            CURRENT_GAME_ID_KEY@,
            game_id@,
        ),
        final(context).config_file_path == old(context).config_file_path,
{
    let alphabet = game_id_alphabet();
    let game_id = random_id(&alphabet, GAME_ID_LENGTH);
    proof {
        assert forall|i: int| 0 <= i < game_id@.len() implies is_game_id_char(
            #[trigger] game_id@[i],
        ) by {
            let k = choose|k: int| 0 <= k < alphabet@.len() && alphabet@[k] == game_id@[i];
            assert(is_game_id_char(alphabet[k]));
        }
    }
    context.write_data(CURRENT_GAME_ID_KEY, game_id.as_str());
    game_id
}

} // verus!
