use crate::error::DraftError;
use crate::text::{clone_texts, decimal, fields, format_u64, parse_u8, parsed_u8, split_char};
use vstd::prelude::*;
use vstd::string::*;

verus! {

/// The number of picks in one pack.
pub const PACK_SIZE: u8 = 12;

/// The number of picks in a whole draft: four packs.
pub const LAST_PICK: u8 = 48;

/// `id` numbers one of the picks of a draft.
pub open spec fn valid_pick_id(id: int) -> bool {
    1 <= id <= 48
}

/// The pack, counted from one, in which pick `id` falls.
pub open spec fn pack_number_of(id: int) -> int {
    (id - 1) / 12 + 1
}

/// The place of pick `id` within its pack, counted from one.
pub open spec fn pick_in_pack_of(id: int) -> int {
    (id - 1) % 12 + 1
}

/// The number of cards still on offer at pick `id`: twelve at the first pick
/// of a pack, one at its last.
pub open spec fn expected_option_count_of(id: int) -> int {
    12 - (id - 1) % 12
}

/// The pick that stands at place `pick` of pack `pack`.
pub open spec fn pick_id_at(pack: int, pick: int) -> int {
    (pack - 1) * 12 + pick
}

/// The label of pick `id`: `p`, the pack, `p`, the place within the pack.
pub open spec fn pick_label(id: int) -> Seq<char> {
    seq!['p'] + decimal(pack_number_of(id) as nat) + seq!['p'] + decimal(pick_in_pack_of(id) as nat)
}

/// Where a pick stands in the draft.
#[derive(Debug, Clone, Copy, PartialEq, Eq, Structural)]
pub struct PickPosition {
    pub pick_id: u8,
    pub pack_number: u8,
    pub pick_in_pack: u8,
    pub expected_option_count: u8,
}

/// The position that belongs to pick `id`.
pub open spec fn position_at(id: u8) -> PickPosition {
    PickPosition {
        pick_id: id,
        pack_number: pack_number_of(id as int) as u8,
        pick_in_pack: pick_in_pack_of(id as int) as u8,
        expected_option_count: expected_option_count_of(id as int) as u8,
    }
}

/// The position of pick `pick_id`, or `InvalidPick` for a number outside
/// 1..=48. Nothing is clamped.
pub fn position_of(pick_id: u8) -> (r: Result<PickPosition, DraftError>)
    ensures
        valid_pick_id(pick_id as int) ==> r == Ok::<PickPosition, DraftError>(position_at(pick_id)),
        !valid_pick_id(pick_id as int) ==> r == Err::<PickPosition, DraftError>(
            DraftError::InvalidPick,
        ),
{
    if pick_id < 1 || pick_id > LAST_PICK {
        return Err(DraftError::InvalidPick);
    }
    let offset: u8 = pick_id - 1;
    Ok(
        PickPosition {
            pick_id,
            pack_number: offset / PACK_SIZE + 1,
            pick_in_pack: offset % PACK_SIZE + 1,
            expected_option_count: PACK_SIZE - offset % PACK_SIZE,
        },
    )
}

/// The pick at place `pick_in_pack` of pack `pack_number`, or `InvalidPick`
/// where there is no such pack or no such place.
pub fn pick_id_of(pack_number: u8, pick_in_pack: u8) -> (r: Result<u8, DraftError>)
    ensures
        (1 <= pack_number <= 4 && 1 <= pick_in_pack <= 12) ==> r == Ok::<u8, DraftError>(
            pick_id_at(pack_number as int, pick_in_pack as int) as u8,
        ),
        !(1 <= pack_number <= 4 && 1 <= pick_in_pack <= 12) ==> r == Err::<u8, DraftError>(
            DraftError::InvalidPick,
        ),
{
    if pack_number < 1 || pack_number > 4 || pick_in_pack < 1 || pick_in_pack > PACK_SIZE {
        return Err(DraftError::InvalidPick);
    }
    Ok((pack_number - 1) * PACK_SIZE + pick_in_pack)
}

/// Pack and place of a valid pick give the pick back, lie in their ranges,
/// and the cards on offer count down from twelve to one within each pack.
pub proof fn lemma_position_round_trip(pick_id: int)
    requires
        valid_pick_id(pick_id),
    ensures
        pick_id_at(pack_number_of(pick_id), pick_in_pack_of(pick_id)) == pick_id,
        1 <= pack_number_of(pick_id) <= 4,
        1 <= pick_in_pack_of(pick_id) <= 12,
        expected_option_count_of(pick_id) == 13 - pick_in_pack_of(pick_id),
        1 <= expected_option_count_of(pick_id) <= 12,
{
}

/// A pack and a place within it name a valid pick, whose pack and place they
/// are.
pub proof fn lemma_pick_id_round_trip(pack: int, pick: int)
    requires
        1 <= pack <= 4,
        1 <= pick <= 12,
    ensures
        valid_pick_id(pick_id_at(pack, pick)),
        pack_number_of(pick_id_at(pack, pick)) == pack,
        pick_in_pack_of(pick_id_at(pack, pick)) == pick,
{
}

/// What a `DraftPick` stands for.
pub struct DraftPickView {
    pub pick_id: u8,
    pub pick_str: Seq<char>,
}

/// One pick of a draft: its number and its label.
#[derive(Debug)]
pub struct DraftPick {
    pub pick_id: u8,
    pub pick_str: String,
}

impl View for DraftPick {
    type V = DraftPickView;

    open spec fn view(&self) -> DraftPickView {
        DraftPickView { pick_id: self.pick_id, pick_str: self.pick_str@ }
    }
}

impl Clone for DraftPick {
    fn clone(&self) -> (r: Self)
        ensures
            r@ == self@,
    {
        DraftPick { pick_id: self.pick_id, pick_str: self.pick_str.clone() }
    }
}

/// The text of the label of pick `id`.
fn make_label(id: u8) -> (r: String)
    requires
        id >= 1,
    ensures
        r@ == pick_label(id as int),
{
    let pack: u8 = (id - 1) / PACK_SIZE + 1;
    let pick: u8 = (id - 1) % PACK_SIZE + 1;
    let mut r = String::new();
    r.push('p');
    r.append(format_u64(pack as u64).as_str());
    r.push('p');
    r.append(format_u64(pick as u64).as_str());
    assert(r@ =~= pick_label(id as int));
    r
}

impl DraftPick {
    /// The pick is one of the 48 and carries its own label.
    pub open spec fn wf(&self) -> bool {
        valid_pick_id(self.pick_id as int) && self.pick_str@ == pick_label(self.pick_id as int)
    }

    /// Pick `id` with its label.
    pub fn new(id: u8) -> (r: Self)
        requires
            valid_pick_id(id as int),
        ensures
            r.pick_id == id,
            r.pick_str@ == pick_label(id as int),
            r.wf(),
    {
        DraftPick { pick_id: id, pick_str: make_label(id) }
    }

    /// The number of the pick, then its label in round brackets.
    pub fn to_string(&self) -> (r: String)
        ensures
            r@ == decimal(self.pick_id as nat) + seq![' ', '('] + self.pick_str@ + seq![')'],
    {
        let mut r = format_u64(self.pick_id as u64);
        r.push(' ');
        r.push('(');
        r.append(self.pick_str.as_str());
        r.push(')');
        assert(r@ =~= decimal(self.pick_id as nat) + seq![' ', '('] + self.pick_str@ + seq![')']);
        r
    }

    /// The number of cards that are on offer at this pick.
    pub fn get_expected_card_selection_count(&self) -> (r: u8)
        requires
            self.pick_id >= 1,
        ensures
            r == expected_option_count_of(self.pick_id as int),
            1 <= r <= 12,
    {
        PACK_SIZE - (self.pick_id - 1) % PACK_SIZE
    }
}

/// The pick that follows `pick`.
pub fn get_next_draft_pick(pick: &DraftPick) -> (r: DraftPick)
    requires
        pick.pick_id < 48,
    ensures
        r.pick_id == pick.pick_id + 1,
        r.wf(),
{
    DraftPick::new(pick.pick_id + 1)
}

/// The pick numbered `id`, one of the 48, with the label that its number
/// gives.
pub fn get_draft_pick(id: u8) -> (r: DraftPick)
    requires
        valid_pick_id(id as int),
    ensures
        r.pick_id == id,
        r.pick_str@ == pick_label(id as int),
        r.wf(),
{
    DraftPick { pick_id: id, pick_str: make_label(id) }
}

/// The pick that a label of the form `p<pack>p<place>` names: the second and
/// the third of the pieces between the letters `p` are numerals, the first
/// of them one of the packs 1 to 4 and the second one of the places 1 to 12
/// of a pack. `None` for every other text: a pack or a place out of its
/// range is never read as another pick.
pub open spec fn labelled_pick_id(label: Seq<char>) -> Option<u8> {
    let parts = fields(label, 'p');
    if parts.len() < 3 {
        None
    } else {
        match (parsed_u8(parts[1]), parsed_u8(parts[2])) {
            (Some(pack), Some(place)) => if 1 <= pack <= 4 && 1 <= place <= 12 {
                Some(pick_id_at(pack as int, place as int) as u8)
            } else {
                None
            },
            _ => None,
        }
    }
}

/// The pick that the label `pick` names, or `InvalidPick` where it names
/// none.
pub fn get_draft_pick_from_str(pick: &str) -> (r: Result<DraftPick, DraftError>)
    ensures
        match labelled_pick_id(pick@) {
            Some(id) => r is Ok && r->Ok_0.pick_id == id && r->Ok_0.wf(),
            None => r == Err::<DraftPick, DraftError>(DraftError::InvalidPick),
        },
{
    let parts = split_char(pick, 'p');
    if parts.len() < 3 {
        return Err(DraftError::InvalidPick);
    }
    assert(parts.deep_view()[1] == parts[1]@ && parts.deep_view()[2] == parts[2]@);
    let pack = match parse_u8(parts[1].as_str()) {
        Some(n) => n,
        None => {
            return Err(DraftError::InvalidPick);
        },
    };
    let place = match parse_u8(parts[2].as_str()) {
        Some(n) => n,
        None => {
            return Err(DraftError::InvalidPick);
        },
    };
    match pick_id_of(pack, place) {
        Ok(id) => Ok(DraftPick::new(id)),
        Err(e) => Err(e),
    }
}

/// A label names a pick only through a pack and a place that `pick_id_of`
/// takes, and then names the pick that `pick_id_of` gives: the two never
/// disagree on what is a pick.
pub proof fn lemma_label_agrees_with_position(label: Seq<char>)
    ensures
        labelled_pick_id(label) matches Some(id) ==> valid_pick_id(id as int) && fields(
            label,
            'p',
        ).len() >= 3 && parsed_u8(fields(label, 'p')[1]) == Some(pack_number_of(id as int) as u8)
            && parsed_u8(fields(label, 'p')[2]) == Some(pick_in_pack_of(id as int) as u8),
{
    if labelled_pick_id(label) is Some {
        let parts = fields(label, 'p');
        let pack = parsed_u8(parts[1])->Some_0;
        let place = parsed_u8(parts[2])->Some_0;
        lemma_pick_id_round_trip(pack as int, place as int);
    }
}

/// The text of an optional string.
pub open spec fn optional_text(o: Option<String>) -> Option<Seq<char>> {
    match o {
        Some(s) => Some(s@),
        None => None,
    }
}

/// What a `DraftRecord` stands for.
pub struct DraftRecordView {
    pub game_id: Seq<char>,
    pub pick: DraftPickView,
    pub selection_text: Seq<char>,
    pub selection_vec: Seq<Seq<char>>,
    pub decklist_text: Seq<Seq<char>>,
    pub selected_card: Option<u8>,
    pub image_url: Option<Seq<char>>,
}

/// What was seen and decided at one pick of one game: the cards on offer in
/// the order of their display, the card that was chosen, if one was, and the
/// picture that shows it, if one was stored.
#[derive(Debug)]
pub struct DraftRecord {
    pub game_id: String,
    pub pick: DraftPick,
    pub selection_text: String,
    pub selection_vec: Vec<String>,
    pub decklist_text: Vec<String>,
    pub selected_card: Option<u8>,
    pub image_url: Option<String>,
}

impl View for DraftRecord {
    type V = DraftRecordView;

    open spec fn view(&self) -> DraftRecordView {
        DraftRecordView {
            game_id: self.game_id@,
            pick: self.pick@,
            selection_text: self.selection_text@,
            selection_vec: self.selection_vec.deep_view(),
            decklist_text: self.decklist_text.deep_view(),
            selected_card: self.selected_card,
            image_url: optional_text(self.image_url),
        }
    }
}

impl Clone for DraftRecord {
    fn clone(&self) -> (r: Self)
        ensures
            r@ == self@,
    {
        DraftRecord {
            game_id: self.game_id.clone(),
            pick: self.pick.clone(),
            selection_text: self.selection_text.clone(),
            selection_vec: clone_texts(&self.selection_vec),
            decklist_text: clone_texts(&self.decklist_text),
            selected_card: self.selected_card,
            image_url: match &self.image_url {
                Some(s) => Some(s.clone()),
                None => None,
            },
        }
    }
}

/// The texts of `items` as owned strings, in order.
fn owned_texts(items: &[&str]) -> (r: Vec<String>)
    ensures
        r.deep_view() == items@.map_values(|s: &str| s@),
{
    let mut r: Vec<String> = Vec::new();
    let mut i: usize = 0;
    while i < items.len()
        invariant
            i <= items.len(),
            r.len() == i,
            forall|k: int| 0 <= k < i ==> r[k]@ == items@[k]@,
        decreases items.len() - i,
    {
        r.push(String::from_str(items[i]));
        i += 1;
    }
    assert(r.deep_view() =~= items@.map_values(|s: &str| s@));
    r
}

/// The key under which the record of pick `pick_id` of game `game_id` is
/// kept: the game, then the pick's number as a numeral.
pub open spec fn record_key(game_id: Seq<char>, pick_id: u8) -> Seq<Seq<char>> {
    seq![game_id, decimal(pick_id as nat)]
}

impl DraftRecord {
    /// An empty record for `pick` of game `game_id`: nothing on offer yet,
    /// nothing chosen, no picture.
    pub fn new(game_id: String, pick: DraftPick) -> (r: Self)
        ensures
            r@ == (DraftRecordView {
                game_id: game_id@,
                pick: pick@,
                selection_text: Seq::empty(),
                selection_vec: Seq::empty(),
                decklist_text: Seq::empty(),
                selected_card: None,
                image_url: None,
            }),
    {
        let r = DraftRecord {
            game_id,
            pick,
            selection_text: String::new(),
            selection_vec: Vec::new(),
            decklist_text: Vec::new(),
            selected_card: None,
            image_url: None,
        };
        assert(r.selection_vec.deep_view() =~= Seq::<Seq<char>>::empty());
        assert(r.decklist_text.deep_view() =~= Seq::<Seq<char>>::empty());
        r
    }

    /// The key under which this record is kept.
    pub fn get_id(&self) -> (r: Vec<String>)
        ensures
            r.deep_view() == record_key(self.game_id@, self.pick.pick_id),
    {
        DraftRecord::generate_id(self.game_id.as_str(), &self.pick)
    }

    /// The key under which the record of `pick` of game `game_id` is kept.
    pub fn generate_id(game_id: &str, pick: &DraftPick) -> (r: Vec<String>)
        ensures
            r.deep_view() == record_key(game_id@, pick.pick_id),
    {
        let mut r: Vec<String> = Vec::new();
        r.push(String::from_str(game_id));
        r.push(format_u64(pick.pick_id as u64));
        assert(r.deep_view() =~= record_key(game_id@, pick.pick_id));
        r
    }

    /// Replaces the cards on offer.
    pub fn set_selection_vec(&mut self, selections: &[&str])
        ensures
            final(self)@ == (DraftRecordView {
                selection_vec: selections@.map_values(|s: &str| s@),
                ..old(self)@
            }),
    {
        self.selection_vec = owned_texts(selections);
    }

    /// Replaces the text that shows the cards on offer.
    pub fn set_selection_text(&mut self, text: &str)
        ensures
            final(self)@ == (DraftRecordView { selection_text: text@, ..old(self)@ }),
    {
        self.selection_text = String::from_str(text);
    }

    /// Replaces the lines that show the deck.
    pub fn set_decklist_text(&mut self, text: &[&str])
        ensures
            final(self)@ == (DraftRecordView {
                decklist_text: text@.map_values(|s: &str| s@),
                ..old(self)@
            }),
    {
        self.decklist_text = owned_texts(text);
    }

    /// Records the card at position `selected_card` as the one chosen,
    /// whatever stood there before.
    pub fn pick_card(&mut self, selected_card: u8)
        ensures
            final(self)@ == (DraftRecordView { selected_card: Some(selected_card), ..old(self)@ }),
    {
        self.selected_card = Some(selected_card);
    }

    /// Records where the picture of this pick is kept.
    pub fn set_image_url(&mut self, image_url: &str)
        ensures
            final(self)@ == (DraftRecordView { image_url: Some(image_url@), ..old(self)@ }),
    {
        self.image_url = Some(String::from_str(image_url));
    }
}

/// The label of a pick names that pick: reading a label that was written
/// for one of the 48 picks gives the pick back.
pub proof fn lemma_label_round_trip(id: int)
    requires
        valid_pick_id(id),
    ensures
        labelled_pick_id(pick_label(id)) == Some(id as u8),
{
    let pack = decimal(pack_number_of(id) as nat);
    let place = decimal(pick_in_pack_of(id) as nat);
    crate::text::lemma_decimal_reads_back(pack_number_of(id) as nat);
    crate::text::lemma_decimal_reads_back(pick_in_pack_of(id) as nat);
    assert forall|i: int| 0 <= i < pack.len() implies #[trigger] pack[i] != 'p' by {
        assert(crate::text::is_digit(pack[i]));
    }
    assert forall|i: int| 0 <= i < place.len() implies #[trigger] place[i] != 'p' by {
        assert(crate::text::is_digit(place[i]));
    }
    let none = Seq::<char>::empty();
    let x0 = none.push('p');
    let x1 = x0 + pack;
    let x2 = x1.push('p');
    let x3 = x2 + place;
    crate::text::lemma_fields_of_separator(none, 'p');
    crate::text::lemma_fields_of_plain_text(x0, pack, 'p');
    crate::text::lemma_fields_of_separator(x1, 'p');
    crate::text::lemma_fields_of_plain_text(x2, place, 'p');
    assert(pick_label(id) =~= x3);
    assert(none + pack =~= pack);
    assert(none + place =~= place);
    assert(fields(x3, 'p') =~= seq![none, pack, place]);
    lemma_position_round_trip(id);
}

} // verus!
