//! The bot's utilities: embeds built from the configuration, code previews,
//! moderation, message responses and more.
pub mod autorespond;
pub mod bot;
pub mod code_embed;
pub mod cure_names;
pub mod media_channel;
pub mod message;
pub mod message_response;
pub mod moderation;
pub mod poll;
pub mod purge;
pub mod role_embed;

use vstd::prelude::*;

use crate::model::application::{
    fields_view, opt_author_view, opt_footer_view, Author, AuthorView, Configuration, Embed,
    EmbedView, Field, FieldView, Footer, FooterView,
};
use crate::text::opt_view;

verus! {

/// A field of an embed to send.
pub struct EmbedField {
    pub name: String,
    pub value: String,
    pub inline: bool,
}

pub struct EmbedFieldView {
    pub name: Seq<char>,
    pub value: Seq<char>,
    pub inline: bool,
}

impl View for EmbedField {
    type V = EmbedFieldView;

    open spec fn view(&self) -> EmbedFieldView {
        EmbedFieldView { name: self.name@, value: self.value@, inline: self.inline }
    }
}

/// An embed to send: what each of its parts is set to, where it is set.
pub struct EmbedContent {
    pub title: Option<String>,
    pub description: Option<String>,
    pub color: Option<i32>,
    pub fields: Vec<EmbedField>,
    pub footer: Option<Footer>,
    pub image_url: Option<String>,
    pub thumbnail_url: Option<String>,
    pub author: Option<Author>,
}

pub struct EmbedContentView {
    pub title: Option<Seq<char>>,
    pub description: Option<Seq<char>>,
    pub color: Option<i32>,
    pub fields: Seq<EmbedFieldView>,
    pub footer: Option<FooterView>,
    pub image_url: Option<Seq<char>>,
    pub thumbnail_url: Option<Seq<char>>,
    pub author: Option<AuthorView>,
}

pub open spec fn embed_fields_view(v: Seq<EmbedField>) -> Seq<EmbedFieldView> {
    v.map_values(|f: EmbedField| f@)
}

impl View for EmbedContent {
    type V = EmbedContentView;

    open spec fn view(&self) -> EmbedContentView {
        EmbedContentView {
            title: opt_view(self.title),
            description: opt_view(self.description),
            color: self.color,
            fields: embed_fields_view(self.fields@),
            footer: opt_footer_view(self.footer),
            image_url: opt_view(self.image_url),
            thumbnail_url: opt_view(self.thumbnail_url),
            author: opt_author_view(self.author),
        }
    }
}

/// `a`, or `b` where `a` is absent (`Option::or`).
pub open spec fn or_else<T>(a: Option<T>, b: Option<T>) -> Option<T> {
    match a {
        Some(x) => Some(x),
        None => b,
    }
}

/// The field that a configured field becomes; it is not inline unless
/// the configuration says so.
pub open spec fn embed_field_of(f: FieldView) -> EmbedFieldView {
    EmbedFieldView {
        name: f.name,
        value: f.value,
        inline: match f.inline {
            Some(b) => b,
            None => false,
        },
    }
}

/// The embed that a configured embed describes: each part is taken from
/// the embed where it sets it, else from the default embed.
pub open spec fn spec_create_embed(e: EmbedView, d: EmbedView) -> EmbedContentView {
    EmbedContentView {
        title: or_else(e.title, d.title),
        description: or_else(e.description, d.description),
        color: or_else(e.color, d.color),
        fields: match or_else(e.fields, d.fields) {
            Some(fs) => fs.map_values(|f: FieldView| embed_field_of(f)),
            None => seq![],
        },
        footer: or_else(e.footer, d.footer),
        image_url: or_else(e.image_url, d.image_url),
        thumbnail_url: or_else(e.thumbnail_url, d.thumbnail_url),
        author: or_else(e.author, d.author),
    }
}

fn pick_string(a: &Option<String>, b: &Option<String>) -> (r: Option<String>)
    ensures
        opt_view(r) == or_else(opt_view(*a), opt_view(*b)),
{
    match a {
        Some(x) => Some(x.clone()),
        None => match b {
            Some(y) => Some(y.clone()),
            None => None,
        },
    }
}

fn embed_fields_of(fields: &Vec<Field>) -> (r: Vec<EmbedField>)
    ensures
        embed_fields_view(r@) == fields_view(fields@).map_values(|f: FieldView| embed_field_of(f)),
{
    let mut r: Vec<EmbedField> = Vec::new();
    let mut i: usize = 0;
    while i < fields.len()
        invariant
            i <= fields.len(),
            embed_fields_view(r@) =~= fields_view(fields@).take(i as int).map_values(
                |f: FieldView| embed_field_of(f),
            ),
        decreases fields.len() - i,
    {
        let f = &fields[i];
        let inline = match f.inline {
            Some(b) => b,
            None => false,
        };
        let ghost before = r@;
        let field = EmbedField { name: f.name.clone(), value: f.value.clone(), inline };
        assert(field@ == embed_field_of(f@));
        r.push(field);
        assert(embed_fields_view(r@) =~= embed_fields_view(before).push(embed_field_of(f@)));
        assert(fields_view(fields@).take(i + 1) =~= fields_view(fields@).take(i as int).push(
            f@,
        ));
        assert(fields_view(fields@).take(i + 1).map_values(|f: FieldView| embed_field_of(f))
            =~= fields_view(fields@).take(i as int).map_values(|f: FieldView| embed_field_of(f))
            .push(embed_field_of(f@)));
        i += 1;
    }
    assert(fields_view(fields@).take(fields.len() as int) =~= fields_view(fields@));
    r
}

/// The embed to send for a configured embed, with the configuration's
/// default embed filling in what it leaves out.
pub fn create_embed(configuration: &Configuration, embed_configuration: &Embed) -> (r:
    EmbedContent)
    ensures
        r@ == spec_create_embed(embed_configuration@, configuration.default_embed@),
{
    let e = embed_configuration;
    let d = &configuration.default_embed;
    let fields = match &e.fields {
        Some(fs) => embed_fields_of(fs),
        None => match &d.fields {
            Some(fs) => embed_fields_of(fs),
            None => Vec::new(),
        },
    };
    let footer = match &e.footer {
        Some(f) => Some(f.duplicate()),
        None => match &d.footer {
            Some(f) => Some(f.duplicate()),
            None => None,
        },
    };
    let author = match &e.author {
        Some(a) => Some(a.duplicate()),
        None => match &d.author {
            Some(a) => Some(a.duplicate()),
            None => None,
        },
    };
    let color = match e.color {
        Some(c) => Some(c),
        None => d.color,
    };
    let r = EmbedContent {
        title: pick_string(&e.title, &d.title),
        description: pick_string(&e.description, &d.description),
        color,
        fields,
        footer,
        image_url: pick_string(&e.image_url, &d.image_url),
        thumbnail_url: pick_string(&e.thumbnail_url, &d.thumbnail_url),
        author,
    };
    proof {
        if e.fields is None && d.fields is None {
            assert(embed_fields_view(r.fields@) =~= Seq::<EmbedFieldView>::empty());
        }
    }
    r
}

/// The embed to send for the configuration's default embed.
pub fn create_default_embed(configuration: &Configuration) -> (r: EmbedContent)
    ensures
        r@ == spec_create_embed(configuration.default_embed@, configuration.default_embed@),
{
    create_embed(configuration, &configuration.default_embed)
}


/// The parts that a configured embed sets are its own; the parts it leaves
/// out are the default embed's. The default embed resolved against itself
/// keeps its own parts.
pub proof fn law_embed_parts(e: EmbedView, d: EmbedView)
    ensures
        e.title is Some ==> spec_create_embed(e, d).title == e.title,
        e.title is None ==> spec_create_embed(e, d).title == d.title,
        e.description is Some ==> spec_create_embed(e, d).description == e.description,
        e.description is None ==> spec_create_embed(e, d).description == d.description,
        e.color is Some ==> spec_create_embed(e, d).color == e.color,
        e.color is None ==> spec_create_embed(e, d).color == d.color,
        e.footer is Some ==> spec_create_embed(e, d).footer == e.footer,
        e.footer is None ==> spec_create_embed(e, d).footer == d.footer,
        e.author is Some ==> spec_create_embed(e, d).author == e.author,
        e.author is None ==> spec_create_embed(e, d).author == d.author,
        e.image_url is Some ==> spec_create_embed(e, d).image_url == e.image_url,
        e.thumbnail_url is Some ==> spec_create_embed(e, d).thumbnail_url == e.thumbnail_url,
        e.fields matches Some(fs) ==> spec_create_embed(e, d).fields.len() == fs.len(),
        spec_create_embed(d, d).title == d.title,
        spec_create_embed(d, d).description == d.description,
        spec_create_embed(d, d).color == d.color,
        spec_create_embed(d, d).footer == d.footer,
        spec_create_embed(d, d).author == d.author,
        e.image_url is None ==> spec_create_embed(e, d).image_url == d.image_url,
        e.thumbnail_url is None ==> spec_create_embed(e, d).thumbnail_url == d.thumbnail_url,
{
}

/// The fields of a configured embed are its own fields where it sets them,
/// else the default embed's, else none; each keeps its name, value and
/// inline setting, and is not inline where the configuration does not say.
pub proof fn law_embed_fields(e: EmbedView, d: EmbedView, i: int)
    ensures
        e.fields is None && d.fields is None ==> spec_create_embed(e, d).fields.len() == 0,
        ({
            let source = match e.fields {
                Some(fs) => Some(fs),
                None => d.fields,
            };
            source matches Some(fs) ==> {
                &&& spec_create_embed(e, d).fields.len() == fs.len()
                &&& (0 <= i < fs.len() ==> {
                    &&& spec_create_embed(e, d).fields[i].name == fs[i].name
                    &&& spec_create_embed(e, d).fields[i].value == fs[i].value
                    &&& (fs[i].inline matches Some(b) ==> spec_create_embed(e, d).fields[i].inline == b)
                    &&& (fs[i].inline is None ==> !spec_create_embed(e, d).fields[i].inline)
                })
            }
        }),
{
}

#[verifier::external_type_specification]
#[verifier::external_body]
pub struct ExDurationError(parse_duration::parse::Error);

/// The length in nanoseconds that `parse_duration::parse` reads from a
/// text; `None` where it refuses the text.
pub uninterp spec fn parsed_duration(text: Seq<char>) -> Option<nat>;

/// `parse_duration::parse`, with the duration in nanoseconds.
#[verifier::external_body]
fn parse_duration_nanos(text: &str) -> (r: Result<u128, parse_duration::parse::Error>)
    ensures
        r is Ok <==> parsed_duration(text@) is Some,
        r matches Ok(n) ==> parsed_duration(text@) == Some(n as nat),
{
    parse_duration::parse(text).map(|d| d.as_nanos())
}

/// Parses a duration such as `1h 30m` into nanoseconds, as an `i64`
/// (wrapping where the duration is longer than an `i64` holds).
pub fn parse_duration(duration: String) -> (r: Result<i64, parse_duration::parse::Error>)
    ensures
        match parsed_duration(duration@) {
            Some(n) => r matches Ok(x) && x == n as i64,
            None => r is Err,
        },
{
    match parse_duration_nanos(duration.as_str()) {
        Ok(n) => Ok(#[verifier::truncate] (n as i64)),
        Err(e) => Err(e),
    }
}

} // verus!
