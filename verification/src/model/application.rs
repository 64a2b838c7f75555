//! The configuration of the bot: administrators, the default embed, the
//! mute settings and the message responses.
use std::collections::HashSet;
use vstd::prelude::*;

use crate::text::{opt_view, push_str};
use crate::utils::message_response::Trigger;

verus! {

/// The bot's configuration.
pub struct Configuration {
    pub administrators: Administrators,
    pub default_embed: Embed,
    pub mute: Mute,
    pub log_channel: u64,
    pub responses: Vec<Response>,
}

/// The mute settings: the role that mutes and the roles taken while muted.
pub struct Mute {
    pub role: u64,
    pub take: HashSet<u64>,
}

/// The users and roles that may run the bot's commands.
pub struct Administrators {
    pub roles: HashSet<u64>,
    pub users: HashSet<u64>,
}

/// A message response: when it applies, and what it answers.
pub struct Response {
    pub whitelist: Option<Trigger>,
    pub blacklist: Option<Trigger>,
    pub message: Message,
    pub respond_to_reference: Option<bool>,
}

/// A configured message: text, an embed, or both.
pub struct Message {
    pub content: Option<String>,
    pub embed: Option<Embed>,
}

/// A configured embed; what it leaves out comes from the default embed.
pub struct Embed {
    pub author: Option<Author>,
    pub color: Option<i32>,
    pub title: Option<String>,
    pub description: Option<String>,
    pub fields: Option<Vec<Field>>,
    pub footer: Option<Footer>,
    pub image_url: Option<String>,
    pub thumbnail_url: Option<String>,
}

/// A configured embed field.
pub struct Field {
    pub name: String,
    pub value: String,
    pub inline: Option<bool>,
}

/// An embed footer.
pub struct Footer {
    pub text: String,
    pub icon_url: Option<String>,
}

/// An embed author.
pub struct Author {
    pub name: String,
    pub icon_url: Option<String>,
    pub url: Option<String>,
}

pub struct FooterView {
    pub text: Seq<char>,
    pub icon_url: Option<Seq<char>>,
}

pub struct AuthorView {
    pub name: Seq<char>,
    pub icon_url: Option<Seq<char>>,
    pub url: Option<Seq<char>>,
}

pub struct FieldView {
    pub name: Seq<char>,
    pub value: Seq<char>,
    pub inline: Option<bool>,
}

pub struct EmbedView {
    pub author: Option<AuthorView>,
    pub color: Option<i32>,
    pub title: Option<Seq<char>>,
    pub description: Option<Seq<char>>,
    pub fields: Option<Seq<FieldView>>,
    pub footer: Option<FooterView>,
    pub image_url: Option<Seq<char>>,
    pub thumbnail_url: Option<Seq<char>>,
}

impl View for Footer {
    type V = FooterView;

    open spec fn view(&self) -> FooterView {
        FooterView { text: self.text@, icon_url: opt_view(self.icon_url) }
    }
}

impl View for Author {
    type V = AuthorView;

    open spec fn view(&self) -> AuthorView {
        AuthorView { name: self.name@, icon_url: opt_view(self.icon_url), url: opt_view(self.url) }
    }
}

impl View for Field {
    type V = FieldView;

    open spec fn view(&self) -> FieldView {
        FieldView { name: self.name@, value: self.value@, inline: self.inline }
    }
}

pub open spec fn opt_footer_view(o: Option<Footer>) -> Option<FooterView> {
    match o {
        Some(f) => Some(f@),
        None => None,
    }
}

pub open spec fn opt_author_view(o: Option<Author>) -> Option<AuthorView> {
    match o {
        Some(a) => Some(a@),
        None => None,
    }
}

pub open spec fn fields_view(v: Seq<Field>) -> Seq<FieldView> {
    v.map_values(|f: Field| f@)
}

pub open spec fn opt_fields_view(o: Option<Vec<Field>>) -> Option<Seq<FieldView>> {
    match o {
        Some(v) => Some(fields_view(v@)),
        None => None,
    }
}

impl View for Embed {
    type V = EmbedView;

    open spec fn view(&self) -> EmbedView {
        EmbedView {
            author: opt_author_view(self.author),
            color: self.color,
            title: opt_view(self.title),
            description: opt_view(self.description),
            fields: opt_fields_view(self.fields),
            footer: opt_footer_view(self.footer),
            image_url: opt_view(self.image_url),
            thumbnail_url: opt_view(self.thumbnail_url),
        }
    }
}

impl Footer {
    /// A copy of the footer.
    pub fn duplicate(&self) -> (r: Footer)
        ensures
            r@ == self@,
    {
        Footer { text: self.text.clone(), icon_url: self.icon_url.clone() }
    }
}

impl Author {
    /// A copy of the author.
    pub fn duplicate(&self) -> (r: Author)
        ensures
            r@ == self@,
    {
        Author { name: self.name.clone(), icon_url: self.icon_url.clone(), url: self.url.clone() }
    }
}

/// Changes to the standard censor: words to add and words to remove.
pub struct CensorConfiguration {
    pub additions: Vec<String>,
    pub removals: Vec<String>,
}


/// Where the configuration is read from.
pub enum ConfigSource {
    /// `configuration.json` in the working directory.
    Local,
    /// The file in the system's configuration directory.
    System,
    /// Neither exists: a default configuration is written first.
    CreateDefault,
}

/// Where the configuration is read from (the choice of
/// `Configuration::load`): the local file wins over the system one.
pub fn config_source(local_exists: bool, system_exists: bool) -> (r: ConfigSource)
    ensures
        local_exists ==> r is Local,
        !local_exists && system_exists ==> r is System,
        !local_exists && !system_exists ==> r is CreateDefault,
{
    if local_exists {
        ConfigSource::Local
    } else if system_exists {
        ConfigSource::System
    } else {
        ConfigSource::CreateDefault
    }
}

/// The bot's directory in the system's configuration directory.
pub fn system_config_dir(config_dir: &str) -> (s: String)
    ensures
        s@ == config_dir@ + "/revanced-discord-bot"@,
{
    let mut s = config_dir.to_owned();
    push_str(&mut s, "/revanced-discord-bot");
    s
}

/// The configuration file in the system's configuration directory.
pub fn system_config_path(config_dir: &str) -> (s: String)
    ensures
        s@ == config_dir@ + "/revanced-discord-bot"@ + "/configuration.json"@,
{
    let mut s = system_config_dir(config_dir);
    push_str(&mut s, "/configuration.json");
    s
}

} // verus!
