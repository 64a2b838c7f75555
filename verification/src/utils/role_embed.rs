//! The role embed: a message that lists roles with a button for each one
//! that members can toggle.
use vstd::prelude::*;

use crate::db::model::SavedRoleEmbed;
use crate::text::{decimal, decimal_string, opt_view, push_char, push_str};
use crate::utils::moderation::field_view;
use crate::utils::{embed_fields_view, EmbedContent, EmbedContentView, EmbedField, EmbedFieldView};

verus! {

/// A role as the bot's cache holds it.
pub struct CachedRole {
    pub id: u64,
    pub name: String,
    /// The role's icon, where it has one.
    pub icon: Option<String>,
}

/// A role that the role embed lists.
pub struct RoleEmbedRole {
    pub id: u64,
    pub description: String,
    /// Whether the embed has a button for the role.
    pub button: bool,
}

/// The role embed's configuration.
pub struct RoleEmbedConfiguration {
    pub channel_id: u64,
    pub roles: Vec<RoleEmbedRole>,
}

/// `i` is the first position of a role with id `id`.
pub open spec fn is_first_role(roles: Seq<CachedRole>, id: u64, i: int) -> bool {
    &&& 0 <= i < roles.len()
    &&& roles[i].id == id
    &&& forall|j: int| 0 <= j < i ==> roles[j].id != id
}

/// The cache holds a role with id `id`.
pub open spec fn has_role(roles: Seq<CachedRole>, id: u64) -> bool {
    exists|i: int| 0 <= i < roles.len() && #[trigger] roles[i].id == id
}

/// The cached role with id `id`.
pub open spec fn role_with_id(roles: Seq<CachedRole>, id: u64) -> CachedRole {
    roles[choose|i: int| is_first_role(roles, id, i)]
}

/// How a role is named: its icon and name, where it has an icon and the
/// icon is wanted, else its name.
pub open spec fn role_label(role: CachedRole, include_icon: bool) -> Seq<char> {
    match role.icon {
        Some(icon) => if include_icon {
            icon@ + seq![' '] + role.name@
        } else {
            role.name@
        },
        None => role.name@,
    }
}

/// The name of the cached role with id `id`, with its icon in front where
/// `include_icon` asks for it and it has one.
pub fn get_role_name_from_id(roles: &Vec<CachedRole>, id: u64, include_icon: bool) -> (s: String)
    requires
        has_role(roles@, id),
    ensures
        s@ == role_label(role_with_id(roles@, id), include_icon),
{
    let mut i: usize = 0;
    while i < roles.len()
        invariant
            i <= roles.len(),
            has_role(roles@, id),
            forall|j: int| 0 <= j < i ==> roles@[j].id != id,
        decreases roles.len() - i,
    {
        if roles[i].id == id {
            proof {
                assert(is_first_role(roles@, id, i as int));
                let k = choose|k: int| is_first_role(roles@, id, k);
                assert(is_first_role(roles@, id, k));
                if k < i {
                    assert(roles@[k].id != id);
                } else if k > i {
                    assert(roles@[i as int].id != id);
                }
            }
            let role = &roles[i];
            return match &role.icon {
                Some(icon) => if include_icon {
                    let mut s = icon.clone();
                    push_char(&mut s, ' ');
                    push_str(&mut s, role.name.as_str());
                    s
                } else {
                    role.name.clone()
                },
                None => role.name.clone(),
            };
        }
        i += 1;
    }
    proof {
        let k = choose|k: int| 0 <= k < roles@.len() && #[trigger] roles@[k].id == id;
        assert(roles@[k].id == id);
    }
    "".to_owned()
}

/// Every configured role is in the cache.
pub open spec fn all_roles_cached(config: Seq<RoleEmbedRole>, roles: Seq<CachedRole>) -> bool {
    forall|i: int| 0 <= i < config.len() ==> has_role(roles, #[trigger] config[i].id)
}

/// A button of the role embed: its label and custom id.
pub struct RoleButton {
    pub label: String,
    pub custom_id: String,
}

/// The fields of the role embed: for each role, its name with icon and its
/// description.
pub open spec fn role_fields(config: Seq<RoleEmbedRole>, roles: Seq<CachedRole>) -> Seq<EmbedFieldView> {
    config.map_values(|r: RoleEmbedRole| field_view(role_label(role_with_id(roles, r.id), true), r.description@, false))
}

/// The roles that have a button.
pub open spec fn button_roles(config: Seq<RoleEmbedRole>) -> Seq<RoleEmbedRole> {
    config.filter(|r: RoleEmbedRole| r.button)
}

pub open spec fn buttons_view(v: Seq<RoleButton>) -> Seq<(Seq<char>, Seq<char>)> {
    v.map_values(|b: RoleButton| (b.label@, b.custom_id@))
}

/// The role embed and its buttons (what `update_role_embed` puts in the
/// message): the buttons name the roles with their icons and carry the role
/// ids.
pub fn role_embed(config: &RoleEmbedConfiguration, roles: &Vec<CachedRole>, color: i32, thumbnail: &String) -> (r: (EmbedContent, Vec<RoleButton>))
    requires
        all_roles_cached(config.roles@, roles@),
    ensures
        r.0@ == (EmbedContentView {
            title: Some("Roles"@),
            description: Some("Click the respective button to toggle the role."@),
            color: Some(color),
            fields: role_fields(config.roles@, roles@),
            footer: None,
            image_url: None,
            thumbnail_url: Some(thumbnail@),
            author: None,
        }),
        buttons_view(r.1@) == button_roles(config.roles@).map_values(
            |c: RoleEmbedRole| (role_label(role_with_id(roles@, c.id), true), decimal(c.id as nat)),
        ),
{
    let cr = &config.roles;
    let mut fields: Vec<EmbedField> = Vec::new();
    let mut buttons: Vec<RoleButton> = Vec::new();
    let mut i: usize = 0;
    while i < cr.len()
        invariant
            i <= cr.len(),
            cr == config.roles,
            all_roles_cached(config.roles@, roles@),
            embed_fields_view(fields@) =~= role_fields(cr@.take(i as int), roles@),
            buttons_view(buttons@) =~= button_roles(cr@.take(i as int)).map_values(
                |c: RoleEmbedRole| (role_label(role_with_id(roles@, c.id), true), decimal(c.id as nat)),
            ),
        decreases cr.len() - i,
    {
        let c = &cr[i];
        assert(has_role(roles@, cr@[i as int].id));
        let label = get_role_name_from_id(roles, c.id, true);
        let ghost fb = fields@;
        fields.push(EmbedField { name: label.clone(), value: c.description.clone(), inline: false });
        assert(cr@.take(i + 1) =~= cr@.take(i as int).push(cr@[i as int]));
        assert(cr@.take(i + 1).drop_last() =~= cr@.take(i as int));
        assert(embed_fields_view(fields@) =~= embed_fields_view(fb).push(field_view(label@, c.description@, false)));
        reveal(Seq::filter);
        if c.button {
            let ghost bb = buttons@;
            buttons.push(RoleButton { label, custom_id: decimal_string(c.id) });
            assert(buttons_view(buttons@) =~= buttons_view(bb).push((role_label(role_with_id(roles@, c.id), true), decimal(c.id as nat))));
        }
        i += 1;
    }
    assert(cr@.take(cr.len() as int) =~= cr@);
    let embed = EmbedContent {
        title: Some("Roles".to_owned()),
        description: Some("Click the respective button to toggle the role.".to_owned()),
        color: Some(color),
        fields,
        footer: None,
        image_url: None,
        thumbnail_url: Some(thumbnail.clone()),
        author: None,
    };
    (embed, buttons)
}

/// The buttons that the `role_embed` command offers: each role with a
/// button, named without its icon, with the custom id `role:<id>`.
pub fn role_command_buttons(config: &Vec<RoleEmbedRole>, roles: &Vec<CachedRole>) -> (r: Vec<RoleButton>)
    requires
        all_roles_cached(config@, roles@),
    ensures
        buttons_view(r@) == button_roles(config@).map_values(
            |c: RoleEmbedRole| (role_label(role_with_id(roles@, c.id), false), "role:"@ + decimal(c.id as nat)),
        ),
{
    let mut buttons: Vec<RoleButton> = Vec::new();
    let mut i: usize = 0;
    while i < config.len()
        invariant
            i <= config.len(),
            all_roles_cached(config@, roles@),
            buttons_view(buttons@) =~= button_roles(config@.take(i as int)).map_values(
                |c: RoleEmbedRole| (role_label(role_with_id(roles@, c.id), false), "role:"@ + decimal(c.id as nat)),
            ),
        decreases config.len() - i,
    {
        let c = &config[i];
        assert(config@.take(i + 1) =~= config@.take(i as int).push(config@[i as int]));
        assert(config@.take(i + 1).drop_last() =~= config@.take(i as int));
        reveal(Seq::filter);
        if c.button {
            assert(has_role(roles@, config@[i as int].id));
            let label = get_role_name_from_id(roles, c.id, false);
            let mut custom_id = "role:".to_owned();
            let d = decimal_string(c.id);
            push_str(&mut custom_id, d.as_str());
            let ghost bb = buttons@;
            buttons.push(RoleButton { label, custom_id });
            assert(buttons_view(buttons@) =~= buttons_view(bb).push((role_label(role_with_id(roles@, c.id), false), "role:"@ + decimal(c.id as nat))));
        }
        i += 1;
    }
    assert(config@.take(config.len() as int) =~= config@);
    buttons
}

/// The database query that finds the role embed of a channel.
pub fn saved_role_embed_query(channel_id: u64) -> (r: SavedRoleEmbed)
    ensures
        r == (SavedRoleEmbed { channel_id: Some(channel_id), message_id: None }),
{
    SavedRoleEmbed { channel_id: Some(channel_id), message_id: None }
}

/// The database update that records the role embed's message.
pub fn saved_role_embed_update(message_id: u64) -> (r: SavedRoleEmbed)
    ensures
        r == (SavedRoleEmbed { channel_id: None, message_id: Some(message_id) }),
{
    SavedRoleEmbed { channel_id: None, message_id: Some(message_id) }
}

/// The id of the role embed's message that a saved record holds, if any
/// (what `get_msg_from_db` looks up).
pub fn saved_role_message(saved: Option<SavedRoleEmbed>) -> (r: Option<u64>)
    ensures
        r == match saved {
            Some(s) => s.message_id,
            None => None,
        },
{
    match saved {
        Some(s) => s.message_id,
        None => None,
    }
}

} // verus!
