use crate::models::card::{Card, CardView};
use crate::models::card_rating::{CardRating, CardRatingView};
use crate::text::{fields, same_text, split_char};
use crate::text_map::{TextMap, upserted};
use vstd::prelude::*;
use vstd::string::*;

verus! {

/// The views of `cards`, in order.
pub open spec fn card_views(cards: Seq<Card>) -> Seq<CardView> {
    cards.map_values(|c: Card| c@)
}

/// The card of `cards` that goes by `name`: the last one of that name,
/// since a later card takes the place of an earlier one of the same name.
pub open spec fn card_named(cards: Seq<CardView>, name: Seq<char>) -> Option<CardView>
    decreases cards.len(),
{
    if cards.len() == 0 {
        None
    } else if cards.last().name == name {
        Some(cards.last())
    } else {
        card_named(cards.drop_last(), name)
    }
}

/// The cards of the catalogue, to be found by name.
#[derive(Debug)]
pub struct CardMap {
    pub cards: Vec<Card>,
}

impl View for CardMap {
    type V = Seq<CardView>;

    open spec fn view(&self) -> Seq<CardView> {
        card_views(self.cards@)
    }
}

/// A card that is found goes by the name that was asked for.
pub proof fn lemma_card_named(cards: Seq<CardView>, name: Seq<char>)
    ensures
        card_named(cards, name) matches Some(card) ==> card.name == name && cards.contains(card),
    decreases cards.len(),
{
    if cards.len() > 0 {
        if cards.last().name == name {
            assert(cards[cards.len() - 1] == cards.last());
        } else {
            lemma_card_named(cards.drop_last(), name);
            if card_named(cards, name) is Some {
                let card = card_named(cards, name)->Some_0;
                let k = choose|k: int|
                    0 <= k < cards.drop_last().len() && cards.drop_last()[k] == card;
                assert(cards[k] == card);
            }
        }
    }
}

impl CardMap {
    /// The card that goes by `name`, if there is one.
    pub fn get(&self, name: &str) -> (r: Option<&Card>)
        ensures
            match r {
                Some(card) => card_named(self@, name@) == Some(card@),
                None => card_named(self@, name@) is None,
            },
    {
        let ghost all = self@;
        let mut i: usize = self.cards.len();
        assert(all.take(i as int) =~= all);
        while i > 0
            invariant
                i <= self.cards.len(),
                all == self@,
                card_named(all, name@) == card_named(all.take(i as int), name@),
            decreases i,
        {
            proof {
                assert(all.take(i as int).drop_last() =~= all.take(i - 1));
                assert(all.take(i as int).last() == self.cards[i - 1]@);
            }
            i -= 1;
            if same_text(self.cards[i].name.as_str(), name) {
                return Some(&self.cards[i]);
            }
        }
        None
    }

    /// The number of cards that were loaded, cards of one name counted each.
    pub fn len(&self) -> (r: usize)
        ensures
            r == self@.len(),
    {
        self.cards.len()
    }
}

/// The catalogue to look cards up in by name. Of two cards of one name the
/// later one is found.
pub fn load_card_hashmap_by_name(cards: Vec<Card>) -> (r: CardMap)
    ensures
        r@ == card_views(cards@),
{
    CardMap { cards }
}

/// The version of the draft format that the ratings are for.
pub open spec fn rating_format() -> Seq<char> {
    "14.0"@
}

/// The rating that a heading of the ratings file stands for: two headings
/// are notes that took the place of a grade, and every other heading is the
/// grade itself.
pub open spec fn remapped_rating(heading: Seq<char>) -> Seq<char> {
    if heading == "4 deliveries"@ {
        "D+"@
    } else if heading == "10 cylices"@ {
        "D"@
    } else {
        heading
    }
}

/// `table` after each name among `names` that is not empty has been given
/// `rating`, one after the other.
pub open spec fn rated_names(
    table: Seq<(Seq<char>, Seq<char>)>,
    names: Seq<Seq<char>>,
    rating: Seq<char>,
) -> Seq<(Seq<char>, Seq<char>)>
    decreases names.len(),
{
    if names.len() == 0 {
        table
    } else if names.last().len() == 0 {
        rated_names(table, names.drop_last(), rating)
    } else {
        upserted(rated_names(table, names.drop_last(), rating), names.last(), rating)
    }
}

/// `table` after the lines `lines` have been read, one after the other. A
/// line holds a heading and then the names of the cards under it, with a
/// tabulator before each name.
pub open spec fn rated_lines(table: Seq<(Seq<char>, Seq<char>)>, lines: Seq<Seq<char>>) -> Seq<
    (Seq<char>, Seq<char>),
>
    decreases lines.len(),
{
    if lines.len() == 0 {
        table
    } else {
        let pieces = fields(lines.last(), '\t');
        rated_names(
            rated_lines(table, lines.drop_last()),
            pieces.drop_first(),
            remapped_rating(pieces[0]),
        )
    }
}

/// The ratings that a ratings file holds. Its first line is a title and
/// says nothing.
pub open spec fn parsed_ratings(lines: Seq<Seq<char>>) -> Seq<(Seq<char>, Seq<char>)> {
    if lines.len() == 0 {
        Seq::empty()
    } else {
        rated_lines(Seq::empty(), lines.drop_first())
    }
}

/// The rating that `heading` stands for.
fn remap_rating(heading: &str) -> (r: String)
    ensures
        r@ == remapped_rating(heading@),
{
    if same_text(heading, "4 deliveries") {
        String::from_str("D+")
    } else if same_text(heading, "10 cylices") {
        String::from_str("D")
    } else {
        String::from_str(heading)
    }
}

/// Reads the ratings from the lines of a ratings file.
pub fn load_card_rating(lines: &Vec<String>) -> (r: TextMap)
    ensures
        r@ == parsed_ratings(lines.deep_view()),
{
    let mut table = TextMap::new();
    if lines.len() == 0 {
        return table;
    }
    let ghost body = lines.deep_view().drop_first();
    let mut i: usize = 1;
    assert(body.take(0) =~= Seq::<Seq<char>>::empty());
    while i < lines.len()
        invariant
            1 <= i <= lines.len(),
            body == lines.deep_view().drop_first(),
            table@ == rated_lines(Seq::empty(), body.take(i - 1)),
        decreases lines.len() - i,
    {
        let pieces = split_char(lines[i].as_str(), '\t');
        let rating = remap_rating(pieces[0].as_str());
        let ghost names = pieces.deep_view().drop_first();
        let ghost start = table@;
        proof {
            assert(body.take(i as int).drop_last() =~= body.take(i - 1));
            assert(body.take(i as int).last() == lines[i as int]@);
            assert(pieces.deep_view()[0] == pieces[0]@);
            assert(names.take(0) =~= Seq::<Seq<char>>::empty());
        }
        let mut j: usize = 1;
        while j < pieces.len()
            invariant
                1 <= j <= pieces.len(),
                names == pieces.deep_view().drop_first(),
                table@ == rated_names(start, names.take(j - 1), rating@),
            decreases pieces.len() - j,
        {
            proof {
                assert(names.take(j as int).drop_last() =~= names.take(j - 1));
                assert(names.take(j as int).last() == pieces[j as int]@);
            }
            if pieces[j].as_str().unicode_len() > 0 {
                table.insert(pieces[j].as_str(), rating.as_str());
            }
            j += 1;
        }
        assert(names.take(j - 1) =~= names);
        i += 1;
    }
    assert(body.take(i - 1) =~= body);
    table
}

/// The ratings of `ratings` as records, in the order of the table.
pub open spec fn rating_records(ratings: Seq<(Seq<char>, Seq<char>)>) -> Seq<CardRatingView> {
    ratings.map_values(
        |p: (Seq<char>, Seq<char>)|
            CardRatingView { format: rating_format(), name: p.0, rating: p.1 },
    )
}

/// The views of `ratings`, in order.
pub open spec fn card_rating_views(ratings: Seq<CardRating>) -> Seq<CardRatingView> {
    ratings.map_values(|r: CardRating| r@)
}

/// The ratings as records to store, one for each card of the table.
pub fn get_card_rating_list(ratings: &TextMap) -> (r: Vec<CardRating>)
    ensures
        card_rating_views(r@) == rating_records(ratings@),
{
    let mut r: Vec<CardRating> = Vec::new();
    let mut i: usize = 0;
    while i < ratings.entries.len()
        invariant
            i <= ratings.entries.len(),
            r.len() == i,
            forall|k: int|
                0 <= k < i ==> (#[trigger] r[k])@ == (CardRatingView {
                    format: rating_format(),
                    name: ratings.entries[k].0@,
                    rating: ratings.entries[k].1@,
                }),
        decreases ratings.entries.len() - i,
    {
        r.push(
            CardRating {
                format: String::from_str("14.0"),
                name: ratings.entries[i].0.clone(),
                rating: ratings.entries[i].1.clone(),
            },
        );
        i += 1;
    }
    assert(card_rating_views(r@) =~= rating_records(ratings@));
    r
}

} // verus!
