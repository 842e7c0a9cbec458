pub mod card_index;
pub mod card_matcher;
pub mod draft;
pub mod screen;
