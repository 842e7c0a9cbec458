pub mod bot;
pub mod capture;
pub mod card_loader;
pub mod context;
pub mod error;
pub mod models;
pub mod reconcile;
pub mod scan;
pub mod text;
pub mod text_map;
pub mod votes;
