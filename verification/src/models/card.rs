use crate::text::{
    decimal, format_i64, format_u64, lemma_contains_push, pad_center, pad_left, pad_right,
    padded_center, padded_left, padded_right, same_text, signed_decimal, split_whitespace,
    to_chars, words,
};
use vstd::prelude::*;
use vstd::string::*;

verus! {

/// One of the five factions whose influence a card can ask for, or none.
#[derive(Debug, Clone, Copy, PartialEq, Eq, Structural)]
pub enum Influence {
    Fire,
    Time,
    Justice,
    Primal,
    Shadow,
    NoInfluence,
}

/// The letter that stands for an influence.
pub open spec fn influence_symbol(influence: Influence) -> char {
    match influence {
        Influence::Fire => 'F',
        Influence::Time => 'T',
        Influence::Justice => 'J',
        Influence::Primal => 'P',
        Influence::Shadow => 'S',
        Influence::NoInfluence => 'x',
    }
}

/// The influence that a letter stands for; none for every other character.
pub open spec fn influence_of(c: char) -> Influence {
    if c == 'F' {
        Influence::Fire
    } else if c == 'T' {
        Influence::Time
    } else if c == 'J' {
        Influence::Justice
    } else if c == 'P' {
        Influence::Primal
    } else if c == 'S' {
        Influence::Shadow
    } else {
        Influence::NoInfluence
    }
}

impl Influence {
    /// The letter that stands for this influence.
    pub fn symbol(&self) -> (r: char)
        ensures
            r == influence_symbol(*self),
    {
        match self {
            Influence::Fire => 'F',
            Influence::Time => 'T',
            Influence::Justice => 'J',
            Influence::Primal => 'P',
            Influence::Shadow => 'S',
            Influence::NoInfluence => 'x',
        }
    }

    /// The influence that the letter `c` stands for.
    pub fn from_symbol(c: char) -> (r: Influence)
        ensures
            r == influence_of(c),
    {
        if c == 'F' {
            Influence::Fire
        } else if c == 'T' {
            Influence::Time
        } else if c == 'J' {
            Influence::Justice
        } else if c == 'P' {
            Influence::Primal
        } else if c == 'S' {
            Influence::Shadow
        } else {
            Influence::NoInfluence
        }
    }
}

/// Reading a letter back gives the influence that wrote it.
pub proof fn lemma_influence_symbol_round_trip(influence: Influence)
    ensures
        influence_of(influence_symbol(influence)) == influence,
{
}

/// The influence that a card asks for, symbol by symbol.
#[derive(Debug)]
pub struct CardInfluence {
    pub influences: Vec<Influence>,
}

impl View for CardInfluence {
    type V = Seq<Influence>;

    open spec fn view(&self) -> Seq<Influence> {
        self.influences@
    }
}

impl Clone for CardInfluence {
    fn clone(&self) -> (r: Self)
        ensures
            r@ == self@,
    {
        let mut influences: Vec<Influence> = Vec::new();
        let mut i: usize = 0;
        while i < self.influences.len()
            invariant
                i <= self.influences.len(),
                influences@ == self.influences@.take(i as int),
            decreases self.influences.len() - i,
        {
            influences.push(self.influences[i]);
            assert(self.influences@.take(i as int).push(self.influences@[i as int])
                =~= self.influences@.take(i + 1));
            i += 1;
        }
        assert(self.influences@.take(i as int) =~= self.influences@);
        CardInfluence { influences }
    }
}

/// The letters of a list of influences, in order.
pub open spec fn influence_text(influences: Seq<Influence>) -> Seq<char> {
    influences.map_values(|i: Influence| influence_symbol(i))
}

/// The influences that a cost such as `{F}{F}{T}` writes: of each group of
/// three characters the second one is a symbol; a last group of two counts,
/// a last group of one does not.
pub open spec fn parsed_influences(s: Seq<char>) -> Seq<Influence> {
    Seq::new(((s.len() + 1) / 3) as nat, |k: int| influence_of(s[3 * k + 1]))
}

impl CardInfluence {
    /// The number of symbols, counted up to 255 and then again from zero.
    pub fn count(&self) -> (r: u8)
        ensures
            r == self@.len() % 256,
    {
        (self.influences.len() % 256) as u8
    }

    /// The letters of the symbols, in order.
    pub fn to_text(&self) -> (r: String)
        ensures
            r@ == influence_text(self@),
    {
        let mut r = String::new();
        let mut i: usize = 0;
        while i < self.influences.len()
            invariant
                i <= self.influences.len(),
                r@ == influence_text(self@.take(i as int)),
            decreases self.influences.len() - i,
        {
            r.push(self.influences[i].symbol());
            assert(influence_text(self@.take(i as int)).push(influence_symbol(self@[i as int]))
                =~= influence_text(self@.take(i + 1)));
            i += 1;
        }
        assert(self@.take(i as int) =~= self@);
        r
    }

    /// The letters of the symbols, filled up with spaces to six characters.
    pub fn to_padded_text(&self) -> (r: String)
        ensures
            r@ == padded_right(influence_text(self@), 6),
    {
        pad_right(self.to_text().as_str(), 6)
    }

    /// Reads a cost such as `{F}{F}{T}`.
    pub fn parse(text: &str) -> (r: Self)
        ensures
            r@ == parsed_influences(text@),
    {
        let chars = to_chars(text);
        let mut influences: Vec<Influence> = Vec::new();
        let mut i: usize = 0;
        while i < chars.len()
            invariant
                i <= chars.len(),
                chars@ == text@,
                influences@.len() == (i + 1) / 3,
                forall|j: int|
                    0 <= j < influences@.len() ==> influences@[j] == influence_of(chars@[3 * j + 1]),
            decreases chars.len() - i,
        {
            if i % 3 == 1 {
                influences.push(Influence::from_symbol(chars[i]));
            }
            i += 1;
        }
        assert(influences@ =~= parsed_influences(text@));
        CardInfluence { influences }
    }
}

/// The kinds of card.
#[derive(Debug, Clone, Copy, PartialEq, Eq, Structural)]
pub enum CardTypeEnum {
    Unit,
    Spell,
    Relic,
    Weapon,
    Power,
    Site,
    Curse,
    NoType,
}

/// The kind that a word names: the kind's own name, spelled as it stands
/// here. No kind for every other word.
pub open spec fn named_card_type(word: Seq<char>) -> Option<CardTypeEnum> {
    if word == "Unit"@ {
        Some(CardTypeEnum::Unit)
    } else if word == "Spell"@ {
        Some(CardTypeEnum::Spell)
    } else if word == "Relic"@ {
        Some(CardTypeEnum::Relic)
    } else if word == "Weapon"@ {
        Some(CardTypeEnum::Weapon)
    } else if word == "Power"@ {
        Some(CardTypeEnum::Power)
    } else if word == "Site"@ {
        Some(CardTypeEnum::Site)
    } else if word == "Curse"@ {
        Some(CardTypeEnum::Curse)
    } else if word == "None"@ {
        Some(CardTypeEnum::NoType)
    } else {
        None
    }
}

impl CardTypeEnum {
    /// The kind that `word` names.
    pub fn from_name(word: &str) -> (r: Option<CardTypeEnum>)
        ensures
            r == named_card_type(word@),
    {
        if same_text(word, "Unit") {
            Some(CardTypeEnum::Unit)
        } else if same_text(word, "Spell") {
            Some(CardTypeEnum::Spell)
        } else if same_text(word, "Relic") {
            Some(CardTypeEnum::Relic)
        } else if same_text(word, "Weapon") {
            Some(CardTypeEnum::Weapon)
        } else if same_text(word, "Power") {
            Some(CardTypeEnum::Power)
        } else if same_text(word, "Site") {
            Some(CardTypeEnum::Site)
        } else if same_text(word, "Curse") {
            Some(CardTypeEnum::Curse)
        } else if same_text(word, "None") {
            Some(CardTypeEnum::NoType)
        } else {
            None
        }
    }
}

/// What a `CardType` stands for.
pub struct CardTypeView {
    pub card_type: Seq<CardTypeEnum>,
    pub is_fast: bool,
}

/// The kinds that a card belongs to, and whether it can be played at any
/// time.
#[derive(Debug)]
pub struct CardType {
    pub card_type: Vec<CardTypeEnum>,
    pub is_fast: bool,
}

impl View for CardType {
    type V = CardTypeView;

    open spec fn view(&self) -> CardTypeView {
        CardTypeView { card_type: self.card_type@, is_fast: self.is_fast }
    }
}

impl Clone for CardType {
    fn clone(&self) -> (r: Self)
        ensures
            r@ == self@,
    {
        let mut card_type: Vec<CardTypeEnum> = Vec::new();
        let mut i: usize = 0;
        while i < self.card_type.len()
            invariant
                i <= self.card_type.len(),
                card_type@ == self.card_type@.take(i as int),
            decreases self.card_type.len() - i,
        {
            card_type.push(self.card_type[i]);
            assert(self.card_type@.take(i as int).push(self.card_type@[i as int])
                =~= self.card_type@.take(i + 1));
            i += 1;
        }
        assert(self.card_type@.take(i as int) =~= self.card_type@);
        CardType { card_type, is_fast: self.is_fast }
    }
}

/// The kinds that the words name, in order. The word `Fast` and words that
/// name no kind are passed over.
pub open spec fn named_card_types(tokens: Seq<Seq<char>>) -> Seq<CardTypeEnum>
    decreases tokens.len(),
{
    if tokens.len() == 0 {
        Seq::empty()
    } else {
        let before = named_card_types(tokens.drop_last());
        if tokens.last() == "Fast"@ {
            before
        } else {
            match named_card_type(tokens.last()) {
                Some(kind) => before.push(kind),
                None => before,
            }
        }
    }
}

/// What a type line such as `Fast Spell` says.
pub open spec fn parsed_card_type(s: Seq<char>) -> CardTypeView {
    CardTypeView {
        card_type: named_card_types(words(s)),
        is_fast: words(s).contains("Fast"@),
    }
}

impl CardType {
    /// Reads a type line: its words name the kinds, and the word `Fast`
    /// among them marks a fast card.
    pub fn parse(text: &str) -> (r: Self)
        ensures
            r@ == parsed_card_type(text@),
    {
        let tokens = split_whitespace(text);
        let ghost all = tokens.deep_view();
        let mut card_type: Vec<CardTypeEnum> = Vec::new();
        let mut is_fast = false;
        let mut i: usize = 0;
        while i < tokens.len()
            invariant
                i <= tokens.len(),
                all == tokens.deep_view(),
                card_type@ == named_card_types(all.take(i as int)),
                is_fast == all.take(i as int).contains("Fast"@),
            decreases tokens.len() - i,
        {
            proof {
                assert(all.take(i + 1).drop_last() =~= all.take(i as int));
                assert(all.take(i + 1).last() == tokens[i as int]@);
                assert(all.take(i + 1) =~= all.take(i as int).push(tokens[i as int]@));
            }
            proof {
                lemma_contains_push(all.take(i as int), tokens[i as int]@, "Fast"@);
            }
            if same_text(tokens[i].as_str(), "Fast") {
                is_fast = true;
            } else {
                match CardTypeEnum::from_name(tokens[i].as_str()) {
                    Some(kind) => {
                        card_type.push(kind);
                    },
                    None => {},
                }
            }
            i += 1;
        }
        assert(all.take(i as int) =~= all);
        CardType { card_type, is_fast }
    }
}

/// How rare a card is.
#[derive(Debug, Clone, Copy, PartialEq, Eq, Structural)]
pub enum CardRarity {
    Legendary,
    Rare,
    Uncommon,
    Common,
    Promo,
    NoRarity,
}

/// The letter that stands for a rarity.
pub open spec fn rarity_symbol(rarity: CardRarity) -> char {
    match rarity {
        CardRarity::Legendary => 'L',
        CardRarity::Rare => 'R',
        CardRarity::Uncommon => 'U',
        CardRarity::Common => 'C',
        CardRarity::Promo => 'P',
        CardRarity::NoRarity => 'x',
    }
}

/// The rank of a rarity: the rarer, the higher. Legendary is above Rare,
/// Rare above Uncommon, then Common, Promo and None.
pub open spec fn rarity_rank(rarity: CardRarity) -> int {
    match rarity {
        CardRarity::Legendary => 5,
        CardRarity::Rare => 4,
        CardRarity::Uncommon => 3,
        CardRarity::Common => 2,
        CardRarity::Promo => 1,
        CardRarity::NoRarity => 0,
    }
}

/// The name of a rarity.
pub open spec fn rarity_name(rarity: CardRarity) -> Seq<char> {
    match rarity {
        CardRarity::Legendary => "Legendary"@,
        CardRarity::Rare => "Rare"@,
        CardRarity::Uncommon => "Uncommon"@,
        CardRarity::Common => "Common"@,
        CardRarity::Promo => "Promo"@,
        CardRarity::NoRarity => "None"@,
    }
}

impl CardRarity {
    /// The name of this rarity, centred in a field of ten characters.
    pub fn to_text(&self) -> (r: String)
        ensures
            r@ == padded_center(rarity_name(*self), 10),
    {
        match self {
            CardRarity::Legendary => pad_center("Legendary", 10),
            CardRarity::Rare => pad_center("Rare", 10),
            CardRarity::Uncommon => pad_center("Uncommon", 10),
            CardRarity::Common => pad_center("Common", 10),
            CardRarity::Promo => pad_center("Promo", 10),
            CardRarity::NoRarity => pad_center("None", 10),
        }
    }

    /// The letter that stands for this rarity.
    pub fn symbol(&self) -> (r: char)
        ensures
            r == rarity_symbol(*self),
    {
        match self {
            CardRarity::Legendary => 'L',
            CardRarity::Rare => 'R',
            CardRarity::Uncommon => 'U',
            CardRarity::Common => 'C',
            CardRarity::Promo => 'P',
            CardRarity::NoRarity => 'x',
        }
    }

    /// The rank of this rarity.
    pub fn rank(&self) -> (r: u8)
        ensures
            r == rarity_rank(*self),
    {
        match self {
            CardRarity::Legendary => 5,
            CardRarity::Rare => 4,
            CardRarity::Uncommon => 3,
            CardRarity::Common => 2,
            CardRarity::Promo => 1,
            CardRarity::NoRarity => 0,
        }
    }
}

/// Two rarities of the same rank are the same rarity.
pub proof fn lemma_rarity_rank_is_an_order(a: CardRarity, b: CardRarity)
    ensures
        rarity_rank(a) == rarity_rank(b) ==> a == b,
        0 <= rarity_rank(a) <= 5,
{
}

/// What a `Card` stands for.
pub struct CardView {
    pub set_number: u32,
    pub name: Seq<char>,
    pub card_text: Seq<char>,
    pub cost: u32,
    pub influence: Seq<Influence>,
    pub attack: i32,
    pub health: i32,
    pub rarity: CardRarity,
    pub card_type: CardTypeView,
    pub image_url: Seq<char>,
    pub details_url: Seq<char>,
    pub deck_buildable: bool,
    pub set_name: Seq<char>,
}

/// One card of the catalogue.
#[derive(Debug)]
pub struct Card {
    pub set_number: u32,
    pub name: String,
    pub card_text: String,
    pub cost: u32,
    pub influence: CardInfluence,
    pub attack: i32,
    pub health: i32,
    pub rarity: CardRarity,
    pub card_type: CardType,
    pub image_url: String,
    pub details_url: String,
    pub deck_buildable: bool,
    pub set_name: String,
}

impl View for Card {
    type V = CardView;

    open spec fn view(&self) -> CardView {
        CardView {
            set_number: self.set_number,
            name: self.name@,
            card_text: self.card_text@,
            cost: self.cost,
            influence: self.influence@,
            attack: self.attack,
            health: self.health,
            rarity: self.rarity,
            card_type: self.card_type@,
            image_url: self.image_url@,
            details_url: self.details_url@,
            deck_buildable: self.deck_buildable,
            set_name: self.set_name@,
        }
    }
}

impl Clone for Card {
    fn clone(&self) -> (r: Self)
        ensures
            r@ == self@,
    {
        Card {
            set_number: self.set_number,
            name: self.name.clone(),
            card_text: self.card_text.clone(),
            cost: self.cost,
            influence: self.influence.clone(),
            attack: self.attack,
            health: self.health,
            rarity: self.rarity,
            card_type: self.card_type.clone(),
            image_url: self.image_url.clone(),
            details_url: self.details_url.clone(),
            deck_buildable: self.deck_buildable,
            set_name: self.set_name.clone(),
        }
    }
}

/// The text that stands for the rules text of a card that has none.
pub fn no_card_text() -> (r: String)
    ensures
        r@ == "No card text"@,
{
    String::from_str("No card text")
}

/// What the line of a card shows.
#[derive(Debug, Clone, Copy, PartialEq, Eq, Structural)]
pub struct CardToTextOpt {
    pub inclued_rarity: bool,
}

/// The line shows the rarity.
pub fn card_to_text_opt_default() -> (r: CardToTextOpt)
    ensures
        r.inclued_rarity,
{
    CardToTextOpt { inclued_rarity: true }
}

/// The line does not show the rarity.
pub fn card_to_text_opt_no_rarity() -> (r: CardToTextOpt)
    ensures
        !r.inclued_rarity,
{
    CardToTextOpt { inclued_rarity: false }
}

/// The last kind of a card, which decides what its line ends with; no kind
/// where it has none.
pub open spec fn main_card_type(card_type: CardTypeView) -> CardTypeEnum {
    if card_type.card_type.len() == 0 {
        CardTypeEnum::NoType
    } else {
        card_type.card_type.last()
    }
}

/// What the line of a card ends with: attack and strength of a unit or a
/// weapon, each in a field of two, and else the kind of the card, with an
/// `F` before a fast spell. Nothing for a power and for a card of no kind.
pub open spec fn card_extra(card: CardView) -> Seq<char> {
    match main_card_type(card.card_type) {
        CardTypeEnum::Unit | CardTypeEnum::Weapon => padded_left(
            signed_decimal(card.attack as int),
            2,
        ) + seq!['/'] + padded_left(signed_decimal(card.health as int), 2),
        CardTypeEnum::Spell => if card.card_type.is_fast {
            "FSpell"@
        } else {
            "Spell"@
        },
        CardTypeEnum::Relic => "Relic"@,
        CardTypeEnum::Site => "Site"@,
        CardTypeEnum::Curse => "Curse"@,
        _ => Seq::empty(),
    }
}

/// The line of a card: the letter of its rarity and a space, where the
/// rarity is asked for; then its cost, its influence in a field of six, a
/// space, its name in a field of thirty, and its ending, right-aligned in a
/// field of seven.
pub open spec fn card_line(card: CardView, opt: CardToTextOpt) -> Seq<char> {
    (if opt.inclued_rarity {
        seq![rarity_symbol(card.rarity), ' ']
    } else {
        Seq::empty()
    }) + decimal(card.cost as nat) + padded_right(influence_text(card.influence), 6) + seq![' ']
        + padded_right(card.name, 30) + padded_left(card_extra(card), 7)
}

impl Card {
    /// What the line of this card ends with.
    fn extra(&self) -> (r: String)
        ensures
            r@ == card_extra(self@),
    {
        let kind = if self.card_type.card_type.len() == 0 {
            CardTypeEnum::NoType
        } else {
            self.card_type.card_type[self.card_type.card_type.len() - 1]
        };
        match kind {
            CardTypeEnum::Unit | CardTypeEnum::Weapon => {
                let mut r = pad_left(format_i64(self.attack as i64).as_str(), 2);
                r.push('/');
                r.append(pad_left(format_i64(self.health as i64).as_str(), 2).as_str());
                assert(r@ =~= card_extra(self@));
                r
            },
            CardTypeEnum::Spell => {
                if self.card_type.is_fast {
                    String::from_str("FSpell")
                } else {
                    String::from_str("Spell")
                }
            },
            CardTypeEnum::Relic => String::from_str("Relic"),
            CardTypeEnum::Site => String::from_str("Site"),
            CardTypeEnum::Curse => String::from_str("Curse"),
            _ => String::new(),
        }
    }

    /// The line that shows this card in a list.
    pub fn to_text(&self, opt: CardToTextOpt) -> (r: String)
        ensures
            r@ == card_line(self@, opt),
    {
        let mut r = String::new();
        if opt.inclued_rarity {
            r.push(self.rarity.symbol());
            r.push(' ');
        }
        r.append(format_u64(self.cost as u64).as_str());
        r.append(self.influence.to_padded_text().as_str());
        r.push(' ');
        r.append(pad_right(self.name.as_str(), 30).as_str());
        r.append(pad_left(self.extra().as_str(), 7).as_str());
        assert(r@ =~= card_line(self@, opt));
        r
    }
}

} // verus!
