//! Copies of messages: the reply that repeats a message and its first embed.
use vstd::prelude::*;

use crate::model::application::{Author, Footer};
use crate::text::opt_view;
use crate::utils::{embed_fields_view, EmbedContent, EmbedContentView, EmbedField};

verus! {

/// An embed of a received message, as far as a copy reads it.
pub struct ReceivedEmbed {
    pub colour: Option<i32>,
    pub title: Option<String>,
    pub description: Option<String>,
    pub footer_text: Option<String>,
    pub author_name: Option<String>,
    pub image_url: Option<String>,
    pub thumbnail_url: Option<String>,
    pub fields: Vec<EmbedField>,
}

/// A copy of a message: its text and a copy of its first embed, with the
/// time the copy's embed is stamped with.
pub struct ClonedMessage {
    pub content: String,
    pub embed: Option<EmbedContent>,
    /// The timestamp of the copy's embed, in milliseconds since 1970; set
    /// exactly where there is an embed.
    pub embed_timestamp: Option<i64>,
}

/// The copy of an embed: its color, title, description, footer text,
/// author name, image, thumbnail and fields; the copy is stamped with the
/// time it is sent.
pub open spec fn embed_copy(e: ReceivedEmbed) -> EmbedContentView {
    EmbedContentView {
        title: opt_view(e.title),
        description: opt_view(e.description),
        color: e.colour,
        fields: embed_fields_view(e.fields@),
        footer: match e.footer_text {
            Some(t) => Some(crate::model::application::FooterView { text: t@, icon_url: None }),
            None => None,
        },
        image_url: opt_view(e.image_url),
        thumbnail_url: opt_view(e.thumbnail_url),
        author: match e.author_name {
            Some(n) => Some(crate::model::application::AuthorView { name: n@, icon_url: None, url: None }),
            None => None,
        },
    }
}

fn copy_fields(fields: &Vec<EmbedField>) -> (r: Vec<EmbedField>)
    ensures
        embed_fields_view(r@) == embed_fields_view(fields@),
{
    let mut r: Vec<EmbedField> = Vec::new();
    let mut i: usize = 0;
    while i < fields.len()
        invariant
            i <= fields.len(),
            embed_fields_view(r@) =~= embed_fields_view(fields@).take(i as int),
        decreases fields.len() - i,
    {
        let f = &fields[i];
        let ghost before = r@;
        r.push(EmbedField { name: f.name.clone(), value: f.value.clone(), inline: f.inline });
        assert(embed_fields_view(r@) =~= embed_fields_view(before).push(fields@[i as int]@));
        assert(embed_fields_view(fields@).take(i + 1) =~= embed_fields_view(fields@).take(i as int).push(fields@[i as int]@));
        i += 1;
    }
    assert(embed_fields_view(fields@).take(fields.len() as int) =~= embed_fields_view(fields@));
    r
}

/// The copy of a message with text `content` and its first embed, if any
/// (what `clone_message` builds), made at `now_millis` milliseconds since
/// 1970: the copy of the embed is stamped with that time.
pub fn clone_message(content: &String, first_embed: &Option<ReceivedEmbed>, now_millis: i64) -> (r: ClonedMessage)
    ensures
        r.content@ == content@,
        match *first_embed {
            Some(e) => (r.embed matches Some(c) && c@ == embed_copy(e)) && r.embed_timestamp == Some(now_millis),
            None => r.embed is None && r.embed_timestamp is None,
        },
{
    let embed = match first_embed {
        Some(e) => Some(
            EmbedContent {
                title: e.title.clone(),
                description: e.description.clone(),
                color: e.colour,
                fields: copy_fields(&e.fields),
                footer: match &e.footer_text {
                    Some(t) => Some(Footer { text: t.clone(), icon_url: None }),
                    None => None,
                },
                image_url: e.image_url.clone(),
                thumbnail_url: e.thumbnail_url.clone(),
                author: match &e.author_name {
                    Some(n) => Some(Author { name: n.clone(), icon_url: None, url: None }),
                    None => None,
                },
            },
        ),
        None => None,
    };
    let embed_timestamp = match first_embed {
        Some(_) => Some(now_millis),
        None => None,
    };
    ClonedMessage { content: content.clone(), embed, embed_timestamp }
}

} // verus!
