use crate::error::DraftError;
use crate::text::{format_i64, signed_decimal};
use vstd::prelude::*;
use vstd::string::*;

verus! {

/// A rectangle of the game's picture, in pixels.
#[derive(Debug, Clone, Copy, PartialEq, Eq, Structural)]
pub struct ScreenRect {
    pub x: i32,
    pub y: i32,
    pub width: i32,
    pub height: i32,
}

impl ScreenRect {
    /// The rectangle with its upper left corner at (`x`, `y`).
    pub fn new(x: i32, y: i32, width: i32, height: i32) -> (r: Self)
        ensures
            r == (ScreenRect { x, y, width, height }),
    {
        Self { x, y, width, height }
    }
}

/// The number of cards that the picture of a pick can show: three rows of
/// four.
pub const CARD_SLOTS: u8 = 12;

/// Where the name of the card in slot `slot` stands in a picture of 1920 by
/// 1080 pixels. The slots are counted row by row, from zero.
pub open spec fn card_position_at(slot: int) -> ScreenRect {
    ScreenRect {
        x: if slot % 4 == 0 {
            393
        } else if slot % 4 == 1 {
            615
        } else if slot % 4 == 2 {
            839
        } else {
            1062
        },
        y: if slot / 4 == 0 {
            250
        } else if slot / 4 == 1 {
            565
        } else {
            880
        },
        width: 160,
        height: 14,
    }
}

/// Where the pick counter stands in the picture.
pub open spec fn pick_num_position_spec() -> ScreenRect {
    ScreenRect { x: 1055, y: 1008, width: 185, height: 31 }
}

/// The places of the names of the twelve cards, slot by slot.
pub fn card_positions() -> (r: Vec<ScreenRect>)
    ensures
        r.len() == CARD_SLOTS,
        forall|slot: int| 0 <= slot < 12 ==> #[trigger] r[slot] == card_position_at(slot),
{
    let mut r: Vec<ScreenRect> = Vec::new();
    let mut slot: u8 = 0;
    while slot < CARD_SLOTS
        invariant
            slot <= CARD_SLOTS,
            r.len() == slot,
            forall|k: int| 0 <= k < slot ==> #[trigger] r[k] == card_position_at(k),
        decreases CARD_SLOTS - slot,
    {
        let column = slot % 4;
        let row = slot / 4;
        let x: i32 = if column == 0 {
            393
        } else if column == 1 {
            615
        } else if column == 2 {
            839
        } else {
            1062
        };
        let y: i32 = if row == 0 {
            250
        } else if row == 1 {
            565
        } else {
            880
        };
        r.push(ScreenRect::new(x, y, 160, 14));
        slot += 1;
    }
    r
}

/// The places of the lines of the deck list, each with the place of its
/// count. This layout shows no deck list.
pub fn deck_positions() -> (r: Vec<(ScreenRect, ScreenRect)>)
    ensures
        r.len() == 0,
{
    Vec::new()
}

/// The place of the pick counter.
pub fn pick_num_position() -> (r: ScreenRect)
    ensures
        r == pick_num_position_spec(),
{
    ScreenRect::new(1055, 1008, 185, 31)
}

/// The texts that were recognised in one picture of a pick.
#[derive(Debug)]
pub struct ScreenData {
    pub pick_num: String,
    pub cards: Vec<String>,
    pub deck: Vec<(String, String)>,
}

/// The point at which to touch the card in slot `card_index`.
pub fn get_card_position(card_index: u8) -> (r: (i32, i32))
    requires
        card_index < CARD_SLOTS,
    ensures
        r == (card_position_at(card_index as int).x, card_position_at(card_index as int).y),
{
    let positions = card_positions();
    (positions[card_index as usize].x, positions[card_index as usize].y)
}

/// The words of the command that touches the point (`x`, `y`) of the
/// device's screen.
pub open spec fn tap_command(x: int, y: int) -> Seq<Seq<char>> {
    seq!["shell"@, "input"@, "tap"@, signed_decimal(x), signed_decimal(y)]
}

/// The words of the command that selects the card in slot `card_index`, or
/// `IndexOutOfBounds` where the picture has no such slot. Running the
/// command is left to the caller.
pub fn select_card(card_index: u8) -> (r: Result<Vec<String>, DraftError>)
    ensures
        card_index < CARD_SLOTS ==> r is Ok && r->Ok_0.deep_view() == tap_command(
            card_position_at(card_index as int).x as int,
            card_position_at(card_index as int).y as int,
        ),
        card_index >= CARD_SLOTS ==> r == Err::<Vec<String>, DraftError>(
            DraftError::IndexOutOfBounds,
        ),
{
    if card_index >= CARD_SLOTS {
        return Err(DraftError::IndexOutOfBounds);
    }
    let (x, y) = get_card_position(card_index);
    let mut words: Vec<String> = Vec::new();
    words.push(String::from_str("shell"));
    words.push(String::from_str("input"));
    words.push(String::from_str("tap"));
    words.push(format_i64(x as i64));
    words.push(format_i64(y as i64));
    assert(words.deep_view() =~= tap_command(x as int, y as int));
    Ok(words)
}

} // verus!
