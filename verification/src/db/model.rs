//! Database records: muted members, locked channels and the role embed.
use vstd::prelude::*;

use crate::text::{opt_view, strings_view};

verus! {

/// A muted member.
pub struct Muted {
    pub user_id: Option<String>,
    pub guild_id: Option<String>,
    pub taken_roles: Option<Vec<String>>,
    pub expires: Option<u64>,
    pub reason: Option<String>,
}

pub struct MutedView {
    pub user_id: Option<Seq<char>>,
    pub guild_id: Option<Seq<char>>,
    pub taken_roles: Option<Seq<Seq<char>>>,
    pub expires: Option<u64>,
    pub reason: Option<Seq<char>>,
}

impl View for Muted {
    type V = MutedView;

    open spec fn view(&self) -> MutedView {
        MutedView {
            user_id: opt_view(self.user_id),
            guild_id: opt_view(self.guild_id),
            taken_roles: match self.taken_roles {
                Some(v) => Some(strings_view(v@)),
                None => None,
            },
            expires: self.expires,
            reason: opt_view(self.reason),
        }
    }
}

/// Whom a permission overwrite applies to.
#[derive(Clone, Copy, PartialEq, Eq, Structural)]
pub enum OverwriteKind {
    Member(u64),
    Role(u64),
}

/// A channel permission overwrite: the permission bits it allows and denies.
#[derive(Clone, Copy, PartialEq, Eq, Structural)]
pub struct PermissionOverwrite {
    pub allow: u64,
    pub deny: u64,
    pub kind: OverwriteKind,
}

/// A locked channel and the overwrites it had before it was locked.
pub struct LockedChannel {
    pub channel_id: Option<String>,
    pub overwrites: Option<Vec<PermissionOverwrite>>,
}

/// The message that holds the role embed.
#[derive(Clone, Copy, PartialEq, Eq, Structural)]
pub struct SavedRoleEmbed {
    pub channel_id: Option<u64>,
    pub message_id: Option<u64>,
}

} // verus!
