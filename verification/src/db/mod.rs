//! The records that the bot keeps in its database.
pub mod model;
