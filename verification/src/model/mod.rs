//! The bot's configuration model.
pub mod application;
