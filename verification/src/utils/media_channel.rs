//! Media channels: channels where only messages with attachments stay.
use vstd::prelude::*;

use crate::model::application::Administrators;

verus! {

/// What the bot does with a message in a channel.
pub struct MediaDecision {
    /// The channel is a media channel.
    pub is_media_channel: bool,
    /// The message is deleted.
    pub delete: bool,
}

/// Whether the channel is a media channel, and whether the message is
/// deleted: in a media channel, a message without attachments by someone
/// who is no administrator (what `handle_media_channel` decides).
pub fn handle_media_channel(
    media_channels: &Vec<u64>,
    admins: &Administrators,
    channel_id: u64,
    author_id: u64,
    has_attachments: bool,
) -> (r: MediaDecision)
    ensures
        r.is_media_channel == media_channels@.contains(channel_id),
        r.delete == (r.is_media_channel && !has_attachments && !admins.users@.contains(author_id)),
{
    broadcast use vstd::std_specs::hash::group_hash_axioms;
    let mut is_media = false;
    let mut i: usize = 0;
    while i < media_channels.len()
        invariant
            i <= media_channels.len(),
            is_media == exists|k: int| 0 <= k < i && media_channels@[k] == channel_id,
        decreases media_channels.len() - i,
    {
        if media_channels[i] == channel_id {
            is_media = true;
        }
        i += 1;
    }
    let is_admin = admins.users.contains(&author_id);
    MediaDecision { is_media_channel: is_media, delete: is_media && !has_attachments && !is_admin }
}

} // verus!
