//! Decisions of the bot's commands.
pub mod misc;
