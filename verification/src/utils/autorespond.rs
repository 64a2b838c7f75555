//! Automatic responses: whether a configured auto-response answers a
//! message, judged by its channel, its author, its text and the text read
//! from its images.
use vstd::prelude::*;

use crate::model::application::{Configuration, Message};
use crate::text::opt_view;
use crate::utils::message_response::{patterns_view, regex_finds, OutgoingResponse, Pattern};
use crate::utils::{create_embed, spec_create_embed};
use crate::utils::moderation::latest_now;
use crate::utils::poll::{max_age_days, poll_eligible, poll_eligible_spec};

verus! {

/// Patterns for the text of a message and for the text read from its images.
pub struct MatchField {
    pub text: Vec<Pattern>,
    pub ocr: Vec<Pattern>,
}

/// Where an auto-response applies.
pub struct Includes {
    pub channels: Vec<u64>,
    pub match_field: MatchField,
}

/// Where an auto-response does not apply.
pub struct Excludes {
    pub roles: Vec<u64>,
    pub match_field: MatchField,
}

/// An automatic response.
pub struct AutoResponse {
    pub includes: Includes,
    pub excludes: Excludes,
    /// The number of days a member must have been in the server; 0 for none.
    pub server_age: i64,
    pub response: Message,
}

/// Some pattern matches the text.
pub open spec fn any_match(patterns: Seq<Seq<char>>, text: Seq<char>) -> bool {
    exists|i: int| 0 <= i < patterns.len() && #[trigger] regex_finds(patterns[i], text)
}

/// Whether one of the patterns matches the text (`contains_match`).
pub fn contains_match(regex: &[Pattern], text: &str) -> (b: bool)
    ensures
        b == any_match(patterns_view(regex@), text@),
{
    let mut i: usize = 0;
    while i < regex.len()
        invariant
            i <= regex.len(),
            forall|k: int| 0 <= k < i ==> !#[trigger] regex_finds(patterns_view(regex@)[k], text@),
        decreases regex.len() - i,
    {
        if regex[i].is_match(text) {
            assert(patterns_view(regex@)[i as int] == regex@[i as int].source());
            return true;
        }
        i += 1;
    }
    false
}

/// Some pattern matches the text of some image.
pub open spec fn images_match(texts: Seq<Seq<char>>, patterns: Seq<Seq<char>>) -> bool {
    exists|i: int| 0 <= i < texts.len() && #[trigger] any_match(patterns, texts[i])
}

pub open spec fn texts_view(v: Seq<String>) -> Seq<Seq<char>> {
    v.map_values(|s: String| s@)
}

/// Whether a pattern matches the text of one of the images
/// (`attachments_contains`, given the text read from each image).
pub fn attachments_contains(image_texts: &Vec<String>, regex: &[Pattern]) -> (b: bool)
    ensures
        b == images_match(texts_view(image_texts@), patterns_view(regex@)),
{
    let mut i: usize = 0;
    while i < image_texts.len()
        invariant
            i <= image_texts.len(),
            forall|k: int| 0 <= k < i ==> !#[trigger] any_match(patterns_view(regex@), texts_view(image_texts@)[k]),
        decreases image_texts.len() - i,
    {
        if contains_match(regex, image_texts[i].as_str()) {
            assert(texts_view(image_texts@)[i as int] == image_texts@[i as int]@);
            return true;
        }
        i += 1;
    }
    false
}

/// Whether an auto-response answers a message in `channel_id` by
/// `author_id` with text `text`, with attachments or not, whose images
/// read as `image_texts`: the channel is included; the author is not
/// excluded; neither the text nor an image matches an excluding pattern;
/// and the text or an image matches an including pattern.
pub open spec fn auto_response_applies(
    r: AutoResponse,
    channel_id: u64,
    author_id: u64,
    text: Seq<char>,
    has_attachments: bool,
    image_texts: Seq<Seq<char>>,
) -> bool {
    &&& r.includes.channels@.contains(channel_id)
    &&& !r.excludes.roles@.contains(author_id)
    &&& !any_match(patterns_view(r.excludes.match_field.text@), text)
    &&& !(has_attachments && r.excludes.match_field.ocr@.len() > 0 && images_match(
        image_texts,
        patterns_view(r.excludes.match_field.ocr@),
    ))
    &&& (any_match(patterns_view(r.includes.match_field.text@), text) || (has_attachments
        && r.includes.match_field.ocr@.len() > 0 && images_match(
        image_texts,
        patterns_view(r.includes.match_field.ocr@),
    )))
}

fn contains_id(v: &Vec<u64>, x: u64) -> (b: bool)
    ensures
        b == v@.contains(x),
{
    let mut i: usize = 0;
    while i < v.len()
        invariant
            i <= v.len(),
            forall|k: int| 0 <= k < i ==> v@[k] != x,
        decreases v.len() - i,
    {
        if v[i] == x {
            assert(v@[i as int] == x);
            return true;
        }
        i += 1;
    }
    false
}

/// Whether an auto-response answers a message (the checks of `auto_respond`).
pub fn auto_response_matches(
    response: &AutoResponse,
    channel_id: u64,
    author_id: u64,
    text: &String,
    has_attachments: bool,
    image_texts: &Vec<String>,
) -> (b: bool)
    ensures
        b == auto_response_applies(*response, channel_id, author_id, text@, has_attachments, texts_view(image_texts@)),
{
    if !contains_id(&response.includes.channels, channel_id) {
        return false;
    }
    if contains_id(&response.excludes.roles, author_id) {
        return false;
    }
    let ex = &response.excludes.match_field;
    if contains_match(ex.text.as_slice(), text.as_str()) {
        return false;
    }
    if has_attachments && ex.ocr.len() > 0 && attachments_contains(image_texts, ex.ocr.as_slice()) {
        return false;
    }
    let inc = &response.includes.match_field;
    contains_match(inc.text.as_slice(), text.as_str()) || (has_attachments && inc.ocr.len() > 0
        && attachments_contains(image_texts, inc.ocr.as_slice()))
}


/// Whether an auto-response that applies stops the auto-responses instead
/// of answering: the author joined `min_age` days ago or earlier. (An
/// auto-response without a minimum age answers nothing.)
pub fn auto_response_stops(joined_secs: i64, now_secs: i64, now_subsec: u32, min_age: i64) -> (b: bool)
    requires
        0 <= now_secs <= latest_now(),
        -max_age_days() <= min_age <= max_age_days(),
        -latest_now() <= now_secs - min_age * 86_400 <= latest_now(),
        now_subsec < 1_000_000_000,
    ensures
        b == poll_eligible_spec(joined_secs, 0, now_secs, now_subsec, min_age),
{
    poll_eligible(joined_secs, 0, now_secs, now_subsec, min_age)
}

/// What the bot does next with an auto-response and a message.
pub enum AutoResponseStep {
    /// Nothing: the response does not apply, or it has no minimum age.
    Skip,
    /// Compare the author's join date with this minimum age in days; the
    /// response answers a newer member and stops the auto-responses for an
    /// older one (see `auto_response_stops`).
    CheckAge(i64),
}

/// The step of `auto_respond` for one auto-response: messages outside a
/// server and messages of bots are skipped, as are messages that the
/// response does not apply to and responses without a minimum age.
pub fn auto_response_step(
    response: &AutoResponse,
    in_guild: bool,
    author_is_bot: bool,
    channel_id: u64,
    author_id: u64,
    text: &String,
    has_attachments: bool,
    image_texts: &Vec<String>,
) -> (r: AutoResponseStep)
    ensures
        (!in_guild || author_is_bot || !auto_response_applies(*response, channel_id, author_id, text@, has_attachments, texts_view(image_texts@))
            || response.server_age == 0) ==> r is Skip,
        (in_guild && !author_is_bot && auto_response_applies(*response, channel_id, author_id, text@, has_attachments, texts_view(image_texts@))
            && response.server_age != 0) ==> (r matches AutoResponseStep::CheckAge(a) && a == response.server_age),
{
    if !in_guild || author_is_bot {
        return AutoResponseStep::Skip;
    }
    if !auto_response_matches(response, channel_id, author_id, text, has_attachments, image_texts) {
        return AutoResponseStep::Skip;
    }
    if response.server_age == 0 {
        AutoResponseStep::Skip
    } else {
        AutoResponseStep::CheckAge(response.server_age)
    }
}

/// The reply of an auto-response to the message `message_id`: its embed
/// (completed from the default embed) where it has one, else its text.
pub fn auto_response_reply(configuration: &Configuration, response: &AutoResponse, message_id: u64) -> (r: OutgoingResponse)
    requires
        response.response.embed is Some || response.response.content is Some,
    ensures
        r.reference == message_id,
        match response.response.embed {
            Some(e) => r.content is None && (r.embed matches Some(c) && c@ == spec_create_embed(e@, configuration.default_embed@)),
            None => r.embed is None && opt_view(r.content) == opt_view(response.response.content),
        },
{
    match &response.response.embed {
        Some(e) => OutgoingResponse { reference: message_id, embed: Some(create_embed(configuration, e)), content: None },
        None => OutgoingResponse { reference: message_id, embed: None, content: response.response.content.clone() },
    }
}

/// The channel check of an auto-response is membership: a message in any
/// one of the included channels passes it, wherever that channel stands in
/// the list, so the response answers alike in all its channels; a message
/// in no included channel is never answered. Likewise an author in the
/// excluded list is never answered.
pub proof fn law_auto_response_channels(
    r: AutoResponse,
    author_id: u64,
    text: Seq<char>,
    has_attachments: bool,
    image_texts: Seq<Seq<char>>,
    channel_id: u64,
    i: int,
    k: int,
)
    ensures
        0 <= i < r.includes.channels@.len() && 0 <= k < r.includes.channels@.len() ==> auto_response_applies(
            r,
            r.includes.channels@[i],
            author_id,
            text,
            has_attachments,
            image_texts,
        ) == auto_response_applies(r, r.includes.channels@[k], author_id, text, has_attachments, image_texts),
        (forall|m: int| 0 <= m < r.includes.channels@.len() ==> #[trigger] r.includes.channels@[m] != channel_id)
            ==> !auto_response_applies(r, channel_id, author_id, text, has_attachments, image_texts),
        (exists|m: int| 0 <= m < r.excludes.roles@.len() && #[trigger] r.excludes.roles@[m] == author_id)
            ==> !auto_response_applies(r, channel_id, author_id, text, has_attachments, image_texts),
        0 <= i < r.includes.channels@.len() && 0 <= k < r.includes.match_field.text@.len()
            && regex_finds(r.includes.match_field.text@[k].source(), text)
            && !r.excludes.roles@.contains(author_id)
            && r.excludes.match_field.text@.len() == 0
            && r.excludes.match_field.ocr@.len() == 0
            ==> auto_response_applies(r, r.includes.channels@[i], author_id, text, has_attachments, image_texts),
{
    if 0 <= i < r.includes.channels@.len() {
        assert(r.includes.channels@.contains(r.includes.channels@[i]));
    }
    if 0 <= k < r.includes.channels@.len() {
        assert(r.includes.channels@.contains(r.includes.channels@[k]));
    }
    if 0 <= k < r.includes.match_field.text@.len() {
        assert(patterns_view(r.includes.match_field.text@)[k] == r.includes.match_field.text@[k].source());
    }
    if exists|m: int| 0 <= m < r.excludes.roles@.len() && #[trigger] r.excludes.roles@[m] == author_id {
        let m = choose|m: int| 0 <= m < r.excludes.roles@.len() && #[trigger] r.excludes.roles@[m] == author_id;
        assert(r.excludes.roles@.contains(r.excludes.roles@[m]));
    }
}

} // verus!
