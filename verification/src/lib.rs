//! Verified core of the ReVanced Discord bot: the decisions and text
//! processing that the bot performs on messages, members and configuration.
use vstd::prelude::*;

pub mod api;
pub mod commands;
pub mod db;
pub mod events;
pub mod model;
pub mod text;
pub mod utils;

verus! {

} // verus!
