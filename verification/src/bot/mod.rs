pub mod bot_reply;
pub mod command;
pub mod dialog;
