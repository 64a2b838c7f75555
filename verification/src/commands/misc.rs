//! The `reply` command: where the bot's message goes, and what it confirms.
use vstd::prelude::*;

use crate::text::{chars_of, parse_unsigned, parse_unsigned_chars, push_str};

verus! {

/// Where the `reply` command sends the message.
pub enum ReplyTarget {
    /// Into the channel, as a new message.
    Channel,
    /// As a reply to this message.
    Message(u64),
    /// Nowhere: the given message id is no number.
    InvalidId,
}

/// Where the `reply` command sends its message, given the id of the message
/// to reply to, if any.
pub fn reply_target(reply_message: &Option<String>) -> (r: ReplyTarget)
    ensures
        match *reply_message {
            None => r is Channel,
            Some(t) => match parse_unsigned(t@, u64::MAX as nat) {
                Some(id) => r matches ReplyTarget::Message(x) && x == id,
                None => r is InvalidId,
            },
        },
{
    match reply_message {
        None => ReplyTarget::Channel,
        Some(t) => {
            let v = chars_of(t.as_str());
            match parse_unsigned_chars(v.as_slice(), u64::MAX) {
                Some(id) => ReplyTarget::Message(id),
                None => ReplyTarget::InvalidId,
            }
        },
    }
}

/// The private note with which the `reply` command confirms its message.
pub fn reply_confirmation(message: &String) -> (s: String)
    ensures
        s@ == "Response: "@ + message@,
{
    let mut s = "Response: ".to_owned();
    push_str(&mut s, message.as_str());
    s
}

} // verus!
