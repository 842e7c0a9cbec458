pub mod card;
pub mod card_rating;
pub mod draft_data;
pub mod draft_game;
