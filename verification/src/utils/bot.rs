//! Who may run the bot's commands, and the reply to those who may not.
use vstd::prelude::*;

use crate::model::application::Administrators;
use crate::utils::{EmbedContent, EmbedContentView};

verus! {

/// A member may run commands when they are an administrator or have one
/// of the administrative roles.
pub open spec fn administrator_spec(admins: Administrators, user_id: u64, member_roles: Seq<u64>) -> bool {
    admins.users@.contains(user_id) || exists|i: int|
        0 <= i < member_roles.len() && admins.roles@.contains(#[trigger] member_roles[i])
}

/// Whether a member may run the bot's commands (the check that every
/// command goes through).
pub fn is_administrator(admins: &Administrators, user_id: u64, member_roles: &Vec<u64>) -> (b: bool)
    ensures
        b == administrator_spec(*admins, user_id, member_roles@),
{
    broadcast use vstd::std_specs::hash::group_hash_axioms;
    if admins.users.contains(&user_id) {
        return true;
    }
    let mut i: usize = 0;
    while i < member_roles.len()
        invariant
            i <= member_roles.len(),
            forall|k: int| 0 <= k < i ==> !admins.roles@.contains(#[trigger] member_roles@[k]),
        decreases member_roles.len() - i,
    {
        if admins.roles.contains(&member_roles[i]) {
            return true;
        }
        i += 1;
    }
    false
}

/// The reply to a member who may not run a command.
pub fn permission_error_embed(color: i32, face: &String) -> (e: EmbedContent)
    ensures
        e@ == (EmbedContentView {
            title: Some("Permission error"@),
            description: Some("You do not have permission to use this command."@),
            color: Some(color),
            fields: seq![],
            footer: None,
            image_url: None,
            thumbnail_url: Some(face@),
            author: None,
        }),
{
    let e = EmbedContent {
        title: Some("Permission error".to_owned()),
        description: Some("You do not have permission to use this command.".to_owned()),
        color: Some(color),
        fields: Vec::new(),
        footer: None,
        image_url: None,
        thumbnail_url: Some(face.clone()),
        author: None,
    };
    assert(e@.fields =~= Seq::<crate::utils::EmbedFieldView>::empty());
    e
}

/// The HTTP status with which Discord answers a lookup of someone who is
/// not a member of the server.
pub const NOT_FOUND: u16 = 404;

/// Whether a failed member lookup means that the user is not in the server
/// (what `get_member` answers with `None`), given the HTTP status of the
/// failure where it has one; other failures are errors.
pub fn member_missing(status: Option<u16>) -> (b: bool)
    ensures
        b == (status == Some(NOT_FOUND)),
{
    match status {
        Some(s) => s == NOT_FOUND,
        None => false,
    }
}

/// Every administrator user may run the commands, and so may every member
/// who holds any one of the administrative roles, wherever it stands among
/// their roles; the order of a member's roles does not matter.
pub proof fn law_administrator_any_role(
    admins: Administrators,
    user_id: u64,
    member_roles: Seq<u64>,
    other_roles: Seq<u64>,
    i: int,
)
    ensures
        admins.users@.contains(user_id) ==> administrator_spec(admins, user_id, member_roles),
        0 <= i < member_roles.len() && admins.roles@.contains(member_roles[i])
            ==> administrator_spec(admins, user_id, member_roles),
        administrator_spec(admins, user_id, member_roles + other_roles)
            == administrator_spec(admins, user_id, other_roles + member_roles),
        !admins.users@.contains(user_id) && (forall|k: int| 0 <= k < member_roles.len()
            ==> !admins.roles@.contains(#[trigger] member_roles[k]))
            ==> !administrator_spec(admins, user_id, member_roles),
{
    let a = member_roles + other_roles;
    let b = other_roles + member_roles;
    if 0 <= i < member_roles.len() && admins.roles@.contains(member_roles[i]) {
        assert(admins.roles@.contains(member_roles[i]));
    }
    assert((exists|k: int| 0 <= k < a.len() && admins.roles@.contains(#[trigger] a[k]))
        == (exists|k: int| 0 <= k < b.len() && admins.roles@.contains(#[trigger] b[k]))) by {
        if exists|k: int| 0 <= k < a.len() && admins.roles@.contains(#[trigger] a[k]) {
            let k = choose|k: int| 0 <= k < a.len() && admins.roles@.contains(#[trigger] a[k]);
            if k < member_roles.len() {
                assert(b[other_roles.len() + k] == a[k]);
            } else {
                assert(b[k - member_roles.len()] == a[k]);
            }
        }
        if exists|k: int| 0 <= k < b.len() && admins.roles@.contains(#[trigger] b[k]) {
            let k = choose|k: int| 0 <= k < b.len() && admins.roles@.contains(#[trigger] b[k]);
            if k < other_roles.len() {
                assert(a[member_roles.len() + k] == b[k]);
            } else {
                assert(a[k - other_roles.len()] == b[k]);
            }
        }
    }
}

} // verus!
