//! Moderation: the embeds that report moderation actions, and the plans
//! for bans, mutes, unmutes and channel locks.
use vstd::prelude::*;

use std::collections::HashSet;

use crate::db::model::{LockedChannel, Muted, MutedView, PermissionOverwrite};
use crate::model::application::Mute;
use crate::text::{
    chars_of, decimal, decimal_string, opt_view, parse_unsigned, parse_unsigned_chars, push_str,
    strings_view,
};
use crate::utils::{embed_fields_view, EmbedContent, EmbedContentView, EmbedField, EmbedFieldView};

verus! {

/// A user as moderation reports name them.
pub struct Person {
    pub id: u64,
    /// `name#discriminator`, or the name where there is no discriminator.
    pub tag: String,
    /// The mention of the user, `<@id>`.
    pub mention: String,
    /// The address of the user's avatar.
    pub face: String,
}

pub struct PersonView {
    pub id: u64,
    pub tag: Seq<char>,
    pub mention: Seq<char>,
    pub face: Seq<char>,
}

impl View for Person {
    type V = PersonView;

    open spec fn view(&self) -> PersonView {
        PersonView { id: self.id, tag: self.tag@, mention: self.mention@, face: self.face@ }
    }
}

/// A channel as moderation reports name it.
pub struct ChannelRef {
    pub id: u64,
    pub name: String,
    /// The mention of the channel, `<#id>`; also how a channel displays.
    pub mention: String,
}

/// A moderation action and how it went. The last part of each variant is
/// the error that stopped the action, if one did.
pub enum ModerationKind {
    /// User, command author, reason, expiry, error.
    Mute(Person, Person, String, Option<String>, Option<String>),
    /// User, command author, error.
    Unmute(Person, Person, Option<String>),
    /// User, command author, reason, error.
    Ban(Person, Person, Option<String>, Option<String>),
    /// User, command author, error.
    Unban(Person, Person, Option<String>),
    /// Channel, command author, error.
    Lock(ChannelRef, Person, Option<String>),
    /// Channel, command author, error.
    Unlock(ChannelRef, Person, Option<String>),
}

/// The sentence that reports an action.
pub open spec fn action_text(
    subject: Seq<char>,
    participle: Seq<char>,
    author: Seq<char>,
    failed: bool,
) -> Seq<char> {
    subject + " was "@ + participle + " by "@ + author + if failed {
        " but failed"@
    } else {
        seq![]
    }
}

pub open spec fn field_view(name: Seq<char>, value: Seq<char>, inline: bool) -> EmbedFieldView {
    EmbedFieldView { name, value, inline }
}

/// Title and fields of the report on an action against a user.
pub open spec fn user_action(
    user: PersonView,
    author: PersonView,
    error: Option<Seq<char>>,
    verb: Seq<char>,
    done: Seq<char>,
    participle: Seq<char>,
    action_field: Seq<char>,
) -> (Seq<char>, Seq<EmbedFieldView>) {
    match error {
        Some(e) => (
            "Failed to "@ + verb + " "@ + user.tag,
            seq![
                field_view("Exception"@, e, false),
                field_view("Action"@, action_text(user.mention, participle, author.mention, true), false),
            ],
        ),
        None => (
            done + " "@ + user.tag,
            seq![field_view(action_field, action_text(user.mention, participle, author.mention, false), true)],
        ),
    }
}

/// The report embed with the given title, description and fields.
pub open spec fn report(
    title: Seq<char>,
    description: Option<Seq<char>>,
    fields: Seq<EmbedFieldView>,
    color: i32,
    thumbnail: Seq<char>,
) -> EmbedContentView {
    EmbedContentView {
        title: Some(title),
        description,
        color: Some(color),
        fields,
        footer: None,
        image_url: None,
        thumbnail_url: Some(thumbnail),
        author: None,
    }
}

/// The embed that reports a moderation action, in the given color. Its
/// thumbnail is the moderated user's avatar; for channel actions it is the
/// bot's own (`bot_face`).
pub open spec fn spec_moderation_embed(m: ModerationKind, color: i32, bot_face: Seq<char>) -> EmbedContentView {
    match m {
        ModerationKind::Mute(user, author, reason, expires, error) => {
            let (t, fs) = user_action(user@, author@, opt_view(error), "mute"@, "Muted"@, "muted"@, "Action"@);
            let fs = fs.push(field_view("Reason"@, reason@, true));
            let fs = match expires {
                Some(x) => fs.push(field_view("Expires"@, x@, true)),
                None => fs,
            };
            report(t, None, fs, color, user.face@)
        },
        ModerationKind::Unmute(user, author, error) => {
            let (t, fs) = user_action(user@, author@, opt_view(error), "unmute"@, "Unmuted"@, "unmuted"@, "Action"@);
            report(t, None, fs, color, user.face@)
        },
        ModerationKind::Ban(user, author, reason, error) => {
            let (t, fs) = user_action(user@, author@, opt_view(error), "ban"@, "Banned"@, "banned"@, "Action"@);
            let fs = match reason {
                Some(r) => fs.push(field_view("Reason"@, r@, true)),
                None => fs,
            };
            report(t, None, fs, color, user.face@)
        },
        ModerationKind::Unban(user, author, error) => {
            let (t, fs) = user_action(user@, author@, opt_view(error), "unban"@, "Unbanned"@, "unbanned"@, "Action by"@);
            report(t, None, fs, color, user.face@)
        },
        ModerationKind::Lock(channel, author, error) => match error {
            Some(e) => report(
                "Failed to lock "@ + channel.mention@ + " "@,
                None,
                seq![
                    field_view("Exception"@, e@, false),
                    field_view("Action"@, action_text(channel.mention@, "locked"@, author.mention@, false), true),
                ],
                color,
                bot_face,
            ),
            None => report(
                "Locked "@ + channel.name@,
                Some("Unlocking the channel will restore the original permission overwrites."@),
                seq![field_view("Action"@, action_text(channel.mention@, "locked"@, author.mention@, false), true)],
                color,
                bot_face,
            ),
        },
        ModerationKind::Unlock(channel, author, error) => match error {
            Some(e) => report(
                "Failed to unlock "@ + channel.name@,
                None,
                seq![
                    field_view("Exception"@, e@, false),
                    field_view("Action"@, action_text(channel.mention@, "unlocked"@, author.mention@, true), false),
                ],
                color,
                bot_face,
            ),
            None => report(
                "Unlocked "@ + channel.mention@,
                Some("Restored original permission overwrites."@),
                seq![field_view("Action"@, action_text(channel.mention@, "unlocked"@, author.mention@, false), true)],
                color,
                bot_face,
            ),
        },
    }
}

fn concat(a: &str, b: &str) -> (s: String)
    ensures
        s@ == a@ + b@,
{
    let mut s = a.to_owned();
    push_str(&mut s, b);
    s
}

fn action_sentence(subject: &str, participle: &str, author: &str, failed: bool) -> (s: String)
    ensures
        s@ == action_text(subject@, participle@, author@, failed),
{
    let mut s = subject.to_owned();
    push_str(&mut s, " was ");
    push_str(&mut s, participle);
    push_str(&mut s, " by ");
    push_str(&mut s, author);
    if failed {
        push_str(&mut s, " but failed");
    }
    assert(s@ =~= action_text(subject@, participle@, author@, failed));
    s
}

fn field(name: &str, value: String, inline: bool) -> (f: EmbedField)
    ensures
        f@ == field_view(name@, value@, inline),
{
    EmbedField { name: name.to_owned(), value, inline }
}

fn user_action_exec(
    user: &Person,
    author: &Person,
    error: &Option<String>,
    verb: &str,
    done: &str,
    participle: &str,
    action_field: &str,
) -> (r: (String, Vec<EmbedField>))
    ensures
        (r.0@, embed_fields_view(r.1@)) == user_action(
            user@,
            author@,
            opt_view(*error),
            verb@,
            done@,
            participle@,
            action_field@,
        ),
{
    let mut fields: Vec<EmbedField> = Vec::new();
    match error {
        Some(e) => {
            let mut title = concat("Failed to ", verb);
            push_str(&mut title, " ");
            push_str(&mut title, user.tag.as_str());
            fields.push(field("Exception", e.clone(), false));
            fields.push(
                field(
                    "Action",
                    action_sentence(user.mention.as_str(), participle, author.mention.as_str(), true),
                    false,
                ),
            );
            assert(title@ =~= "Failed to "@ + verb@ + " "@ + user.tag@);
            assert(embed_fields_view(fields@) =~= user_action(user@, author@, opt_view(*error), verb@, done@, participle@, action_field@).1);
            (title, fields)
        },
        None => {
            let mut title = concat(done, " ");
            push_str(&mut title, user.tag.as_str());
            fields.push(
                field(
                    action_field,
                    action_sentence(user.mention.as_str(), participle, author.mention.as_str(), false),
                    true,
                ),
            );
            assert(embed_fields_view(fields@) =~= user_action(user@, author@, opt_view(*error), verb@, done@, participle@, action_field@).1);
            (title, fields)
        },
    }
}

fn report_exec(
    title: String,
    description: Option<String>,
    fields: Vec<EmbedField>,
    color: i32,
    thumbnail: String,
) -> (e: EmbedContent)
    ensures
        e@ == report(title@, opt_view(description), embed_fields_view(fields@), color, thumbnail@),
{
    EmbedContent {
        title: Some(title),
        description,
        color: Some(color),
        fields,
        footer: None,
        image_url: None,
        thumbnail_url: Some(thumbnail),
        author: None,
    }
}

/// The embed that reports a moderation action (what `respond_moderation`
/// sends), in the configured color; `bot_face` is the bot's own avatar.
pub fn moderation_embed(moderation: &ModerationKind, color: i32, bot_face: &String) -> (e: EmbedContent)
    ensures
        e@ == spec_moderation_embed(*moderation, color, bot_face@),
{
    match moderation {
        ModerationKind::Mute(user, author, reason, expires, error) => {
            let (t, mut fs) = user_action_exec(user, author, error, "mute", "Muted", "muted", "Action");
            let ghost fs0 = embed_fields_view(fs@);
            fs.push(field("Reason", reason.clone(), true));
            let ghost fs1 = embed_fields_view(fs@);
            assert(fs1 =~= fs0.push(field_view("Reason"@, reason@, true)));
            match expires {
                Some(x) => {
                    fs.push(field("Expires", x.clone(), true));
                    assert(embed_fields_view(fs@) =~= fs1.push(field_view("Expires"@, x@, true)));
                },
                None => {},
            }
            report_exec(t, None, fs, color, user.face.clone())
        },
        ModerationKind::Unmute(user, author, error) => {
            let (t, fs) = user_action_exec(user, author, error, "unmute", "Unmuted", "unmuted", "Action");
            report_exec(t, None, fs, color, user.face.clone())
        },
        ModerationKind::Ban(user, author, reason, error) => {
            let (t, mut fs) = user_action_exec(user, author, error, "ban", "Banned", "banned", "Action");
            let ghost fs0 = embed_fields_view(fs@);
            match reason {
                Some(r) => {
                    fs.push(field("Reason", r.clone(), true));
                    assert(embed_fields_view(fs@) =~= fs0.push(field_view("Reason"@, r@, true)));
                },
                None => {},
            }
            report_exec(t, None, fs, color, user.face.clone())
        },
        ModerationKind::Unban(user, author, error) => {
            let (t, fs) = user_action_exec(user, author, error, "unban", "Unbanned", "unbanned", "Action by");
            report_exec(t, None, fs, color, user.face.clone())
        },
        ModerationKind::Lock(channel, author, error) => {
            let mut fs: Vec<EmbedField> = Vec::new();
            match error {
                Some(e) => {
                    let mut title = concat("Failed to lock ", channel.mention.as_str());
                    push_str(&mut title, " ");
                    fs.push(field("Exception", e.clone(), false));
                    fs.push(field("Action", action_sentence(channel.mention.as_str(), "locked", author.mention.as_str(), false), true));
                    assert(embed_fields_view(fs@) =~= seq![
                        field_view("Exception"@, e@, false),
                        field_view("Action"@, action_text(channel.mention@, "locked"@, author.mention@, false), true),
                    ]);
                    report_exec(title, None, fs, color, bot_face.clone())
                },
                None => {
                    let title = concat("Locked ", channel.name.as_str());
                    fs.push(field("Action", action_sentence(channel.mention.as_str(), "locked", author.mention.as_str(), false), true));
                    assert(embed_fields_view(fs@) =~= seq![
                        field_view("Action"@, action_text(channel.mention@, "locked"@, author.mention@, false), true),
                    ]);
                    let d = "Unlocking the channel will restore the original permission overwrites.".to_owned();
                    report_exec(title, Some(d), fs, color, bot_face.clone())
                },
            }
        },
        ModerationKind::Unlock(channel, author, error) => {
            let mut fs: Vec<EmbedField> = Vec::new();
            match error {
                Some(e) => {
                    let title = concat("Failed to unlock ", channel.name.as_str());
                    fs.push(field("Exception", e.clone(), false));
                    fs.push(field("Action", action_sentence(channel.mention.as_str(), "unlocked", author.mention.as_str(), true), false));
                    assert(embed_fields_view(fs@) =~= seq![
                        field_view("Exception"@, e@, false),
                        field_view("Action"@, action_text(channel.mention@, "unlocked"@, author.mention@, true), false),
                    ]);
                    report_exec(title, None, fs, color, bot_face.clone())
                },
                None => {
                    let title = concat("Unlocked ", channel.mention.as_str());
                    fs.push(field("Action", action_sentence(channel.mention.as_str(), "unlocked", author.mention.as_str(), false), true));
                    assert(embed_fields_view(fs@) =~= seq![
                        field_view("Action"@, action_text(channel.mention@, "unlocked"@, author.mention@, false), true),
                    ]);
                    let d = "Restored original permission overwrites.".to_owned();
                    report_exec(title, Some(d), fs, color, bot_face.clone())
                },
            }
        },
    }
}

/// The link to a message.
pub open spec fn jump_link(guild_id: u64, channel_id: u64, message_id: u64) -> Seq<char> {
    "[Jump to message](https://discord.com/channels/"@ + decimal(guild_id as nat) + seq!['/']
        + decimal(channel_id as nat) + seq!['/'] + decimal(message_id as nat) + seq![')']
}

/// The embed for the logging channel: the report, with a reference field
/// that links to the reply in the channel where the command ran.
pub fn log_embed(report: EmbedContent, guild_id: u64, channel_id: u64, message_id: u64) -> (e:
    EmbedContent)
    ensures
        e@ == (EmbedContentView {
            fields: report@.fields.push(field_view("Reference"@, jump_link(guild_id, channel_id, message_id), true)),
            ..report@
        }),
{
    let mut link = "[Jump to message](https://discord.com/channels/".to_owned();
    let g = decimal_string(guild_id);
    let c = decimal_string(channel_id);
    let m = decimal_string(message_id);
    push_str(&mut link, g.as_str());
    push_str(&mut link, "/");
    push_str(&mut link, c.as_str());
    push_str(&mut link, "/");
    push_str(&mut link, m.as_str());
    push_str(&mut link, ")");
    proof {
        reveal_strlit("/");
        reveal_strlit(")");
    }
    assert(link@ =~= jump_link(guild_id, channel_id, message_id));
    let mut report = report;
    let ghost fs0 = embed_fields_view(report.fields@);
    report.fields.push(field("Reference", link, true));
    assert(embed_fields_view(report.fields@) =~= fs0.push(field_view("Reference"@, jump_link(guild_id, channel_id, message_id), true)));
    report
}


// ---------------------------------------------------------------------------
// Bans
// ---------------------------------------------------------------------------

/// A ban or unban that a command asks for.
pub enum BanKind {
    /// User, days of messages to delete, reason.
    Ban(Person, Option<u8>, Option<String>),
    /// User.
    Unban(Person),
}

/// The request that carries out a ban or an unban.
pub enum BanRequest {
    Ban { user_id: u64, delete_message_days: u8, reason: String },
    Unban { user_id: u64 },
}

/// The days of messages that a ban deletes: what the command gives (none
/// where it gives nothing), at most seven.
pub open spec fn ban_delete_days(dmd: Option<u8>) -> u8 {
    let d = match dmd {
        Some(d) => d,
        None => 0u8,
    };
    if d < 7 { d } else { 7 }
}

/// The request for a ban or an unban (what `ban_moderation` sends). A ban
/// without a reason gives "None specified".
pub fn ban_moderation(kind: &BanKind) -> (r: BanRequest)
    ensures
        match (*kind, r) {
            (BanKind::Ban(user, dmd, reason), BanRequest::Ban { user_id, delete_message_days, reason: sent }) => {
                &&& user_id == user.id
                &&& delete_message_days == ban_delete_days(dmd)
                &&& sent@ == match reason {
                    Some(t) => t@,
                    None => "None specified"@,
                }
            },
            (BanKind::Unban(user), BanRequest::Unban { user_id }) => user_id == user.id,
            _ => false,
        },
{
    match kind {
        BanKind::Ban(user, dmd, reason) => {
            let reason = match reason {
                Some(t) => t.clone(),
                None => "None specified".to_owned(),
            };
            let d = match dmd {
                Some(d) => *d,
                None => 0u8,
            };
            let days = if d < 7 { d } else { 7 };
            BanRequest::Ban { user_id: user.id, delete_message_days: days, reason }
        },
        BanKind::Unban(user) => BanRequest::Unban { user_id: user.id },
    }
}

fn copy_person(p: &Person) -> (r: Person)
    ensures
        r@ == p@,
{
    Person { id: p.id, tag: p.tag.clone(), mention: p.mention.clone(), face: p.face.clone() }
}

/// The report on a ban or unban, given how the request went (what
/// `handle_ban` reports).
pub fn handle_ban(kind: &BanKind, author: &Person, error: Option<String>) -> (r: ModerationKind)
    ensures
        match (*kind, r) {
            (BanKind::Ban(user, _, reason), ModerationKind::Ban(u, a, rr, e)) => u@ == user@ && a@
                == author@ && opt_view(rr) == opt_view(reason) && opt_view(e) == opt_view(error),
            (BanKind::Unban(user), ModerationKind::Unban(u, a, e)) => u@ == user@ && a@ == author@
                && opt_view(e) == opt_view(error),
            _ => false,
        },
{
    match kind {
        BanKind::Ban(user, _, reason) => ModerationKind::Ban(
            copy_person(user),
            copy_person(author),
            reason.clone(),
            error,
        ),
        BanKind::Unban(user) => ModerationKind::Unban(copy_person(user), copy_person(author), error),
    }
}

// ---------------------------------------------------------------------------
// Locks
// ---------------------------------------------------------------------------

/// The permission to send messages.
pub const SEND_MESSAGES: u64 = 0x800;

/// The permission to add reactions.
pub const ADD_REACTIONS: u64 = 0x40;

/// The permissions that a lock takes away: sending messages and adding
/// reactions.
pub open spec fn lock_permission() -> u64 {
    SEND_MESSAGES | ADD_REACTIONS
}

/// An overwrite lets its target write: it allows sending messages, or
/// does not deny it.
pub open spec fn lets_write(o: PermissionOverwrite) -> bool {
    (o.allow & SEND_MESSAGES) != 0 || (o.deny & SEND_MESSAGES) == 0
}

/// The overwrite that a lock puts in place of one that lets its target write.
pub open spec fn locked_overwrite(o: PermissionOverwrite) -> PermissionOverwrite {
    PermissionOverwrite {
        allow: o.allow & !lock_permission(),
        deny: o.deny | lock_permission(),
        kind: o.kind,
    }
}

/// What a lock does to a channel's overwrites: the ones that let their
/// target write, saved for the unlock, and the overwrites that replace them.
pub struct LockPlan {
    pub saved: Vec<PermissionOverwrite>,
    pub replacements: Vec<PermissionOverwrite>,
}

/// The plan of a channel lock (what `lock` does to the overwrites).
pub fn lock_overwrites(overwrites: &Vec<PermissionOverwrite>) -> (r: LockPlan)
    ensures
        r.saved@ == overwrites@.filter(|o: PermissionOverwrite| lets_write(o)),
        r.replacements@ == r.saved@.map_values(|o: PermissionOverwrite| locked_overwrite(o)),
{
    let mut saved: Vec<PermissionOverwrite> = Vec::new();
    let mut replacements: Vec<PermissionOverwrite> = Vec::new();
    let permission = SEND_MESSAGES | ADD_REACTIONS;
    let mut i: usize = 0;
    while i < overwrites.len()
        invariant
            i <= overwrites.len(),
            permission == lock_permission(),
            saved@ == overwrites@.take(i as int).filter(|o: PermissionOverwrite| lets_write(o)),
            replacements@ == saved@.map_values(|o: PermissionOverwrite| locked_overwrite(o)),
        decreases overwrites.len() - i,
    {
        let o = overwrites[i];
        assert(overwrites@.take(i + 1).drop_last() =~= overwrites@.take(i as int));
        reveal(Seq::filter);
        if (o.allow & SEND_MESSAGES) != 0 || (o.deny & SEND_MESSAGES) == 0 {
            saved.push(o);
            replacements.push(
                PermissionOverwrite { allow: o.allow & !permission, deny: o.deny | permission, kind: o.kind },
            );
            assert(replacements@ =~= saved@.map_values(|o: PermissionOverwrite| locked_overwrite(o)));
        }
        i += 1;
    }
    assert(overwrites@.take(overwrites.len() as int) =~= overwrites@);
    LockPlan { saved, replacements }
}

/// The error that a lock of a locked channel, or an unlock of an unlocked
/// one, reports.
pub fn lock_state_error(locking: bool) -> (s: String)
    ensures
        s@ == if locking {
            "Channel already locked"@
        } else {
            "Channel already unlocked"@
        },
{
    if locking {
        "Channel already locked".to_owned()
    } else {
        "Channel already unlocked".to_owned()
    }
}

/// The record query that finds the lock of a channel.
pub fn locked_channel_query(channel_id: u64) -> (r: LockedChannel)
    ensures
        opt_view(r.channel_id) == Some(decimal(channel_id as nat)),
        r.overwrites is None,
{
    LockedChannel { channel_id: Some(decimal_string(channel_id)), overwrites: None }
}

/// What `lock` does with a channel.
pub enum LockStep {
    /// The channel is locked already: report this error.
    AlreadyLocked(String),
    /// Save the overwrites and put the replacements in place.
    Lock(LockPlan),
}

/// What `lock` does with a channel that has `overwrites`, given whether a
/// lock record for it exists already.
pub fn lock_step(already_locked: bool, overwrites: &Vec<PermissionOverwrite>) -> (r: LockStep)
    ensures
        already_locked ==> (r matches LockStep::AlreadyLocked(e) && e@ == "Channel already locked"@),
        !already_locked ==> (r matches LockStep::Lock(p) && p.saved@ == overwrites@.filter(
            |o: PermissionOverwrite| lets_write(o),
        ) && p.replacements@ == p.saved@.map_values(|o: PermissionOverwrite| locked_overwrite(o))),
{
    if already_locked {
        LockStep::AlreadyLocked(lock_state_error(true))
    } else {
        LockStep::Lock(lock_overwrites(overwrites))
    }
}

/// The fields that a lock writes to its record: the saved overwrites.
pub fn locked_channel_record(saved: &Vec<PermissionOverwrite>) -> (r: LockedChannel)
    ensures
        r.channel_id is None,
        r.overwrites matches Some(v) && v@ == saved@,
{
    LockedChannel { channel_id: None, overwrites: Some(saved.clone()) }
}

/// What `unlock` does with the lock record it removed: restore the saved
/// overwrites, or report that the channel was not locked.
pub fn unlock_plan(removed: &Option<LockedChannel>) -> (r: Result<Vec<PermissionOverwrite>, String>)
    requires
        removed matches Some(l) ==> l.overwrites is Some,
    ensures
        removed is None ==> (r matches Err(e) && e@ == "Channel already unlocked"@),
        removed matches Some(l) ==> (r matches Ok(v) && Some(v@) == match l.overwrites {
            Some(o) => Some(o@),
            None => None::<Seq<PermissionOverwrite>>,
        }),
{
    match removed {
        None => Err(lock_state_error(false)),
        Some(l) => match &l.overwrites {
            Some(o) => Ok(o.clone()),
            None => Err(lock_state_error(false)),
        },
    }
}

// ---------------------------------------------------------------------------
// Mutes
// ---------------------------------------------------------------------------

/// The latest clock reading, in seconds since 1970, that a mute is planned for.
pub open spec fn latest_now() -> int {
    8_000_000_000_000
}

/// `n / d` rounded toward zero.
pub open spec fn div_toward_zero(n: int, d: int) -> int {
    if n >= 0 {
        n / d
    } else {
        -((-n) / d)
    }
}

/// The time, in seconds since 1970, at which a mute of `nanos` nanoseconds
/// that starts at `now_secs` seconds and `now_subsec` nanoseconds ends,
/// rounded down to the second.
pub open spec fn mute_end(now_secs: i64, now_subsec: u32, nanos: i64) -> int {
    (now_secs * 1_000_000_000 + now_subsec + nanos) / 1_000_000_000
}

/// The roles a mute takes from a member (those among `take`), in the
/// member's order, and whether the member has the mute role already.
pub struct MuteRoles {
    pub is_currently_muted: bool,
    pub removed_roles: Vec<u64>,
}

/// The roles that a mute takes from a member with `member_roles`.
pub fn mute_roles(member_roles: &Vec<u64>, mute: &Mute) -> (r: MuteRoles)
    ensures
        r.is_currently_muted == member_roles@.contains(mute.role),
        r.removed_roles@ == member_roles@.filter(|role: u64| mute.take@.contains(role)),
{
    broadcast use vstd::std_specs::hash::group_hash_axioms;
    broadcast use vstd::seq_lib::group_seq_properties;
    let mut removed: Vec<u64> = Vec::new();
    let mut muted = false;
    let mut i: usize = 0;
    while i < member_roles.len()
        invariant
            i <= member_roles.len(),
            muted == member_roles@.take(i as int).contains(mute.role),
            removed@ == member_roles@.take(i as int).filter(|role: u64| mute.take@.contains(role)),
        decreases member_roles.len() - i,
    {
        let role = member_roles[i];
        assert(member_roles@.take(i + 1).drop_last() =~= member_roles@.take(i as int));
        assert(member_roles@.take(i + 1) =~= member_roles@.take(i as int).push(role));
        reveal(Seq::filter);
        proof {
            crate::text::lemma_contains_push(member_roles@.take(i as int), role, mute.role);
        }
        if role == mute.role {
            muted = true;
        }
        if mute.take.contains(&role) {
            removed.push(role);
        }
        i += 1;
    }
    assert(member_roles@.take(member_roles.len() as int) =~= member_roles@);
    MuteRoles { is_currently_muted: muted, removed_roles: removed }
}

/// What a mute writes and schedules.
pub struct MutePlan {
    /// The database query that finds the member's record.
    pub query: Muted,
    /// The fields that the record is set to.
    pub update: Muted,
    /// When the mute ends; `None` for a mute without end.
    pub unmute_time: Option<u64>,
    /// How the report shows the end: a Discord timestamp.
    pub expires: Option<String>,
    /// After how many seconds the member is unmuted, for a mute with an end.
    pub unmute_delay: Option<u64>,
}

/// The Discord timestamp that shows a time in full.
pub open spec fn discord_timestamp(t: u64) -> Seq<char> {
    "<t:"@ + decimal(t as nat) + ":F>"@
}

/// Whether a member's taken roles are recorded: a mute records the roles
/// it took, unless the member was muted already.
pub open spec fn recorded_roles(member: Option<(bool, Seq<u64>)>) -> Option<Seq<Seq<char>>> {
    match member {
        Some((muted, removed)) => if muted {
            None
        } else {
            Some(removed.map_values(|r: u64| decimal(r as nat)))
        },
        None => None,
    }
}

fn u64_strings(v: &Vec<u64>) -> (r: Vec<String>)
    ensures
        strings_view(r@) == v@.map_values(|x: u64| decimal(x as nat)),
{
    let mut r: Vec<String> = Vec::new();
    let mut i: usize = 0;
    while i < v.len()
        invariant
            i <= v.len(),
            strings_view(r@) =~= v@.take(i as int).map_values(|x: u64| decimal(x as nat)),
        decreases v.len() - i,
    {
        let ghost before = r@;
        r.push(decimal_string(v[i]));
        assert(strings_view(r@) =~= strings_view(before).push(decimal(v@[i as int] as nat)));
        assert(v@.take(i + 1) =~= v@.take(i as int).push(v@[i as int]));
        assert(v@.take(i + 1).map_values(|x: u64| decimal(x as nat)) =~= v@.take(i as int).map_values(|x: u64| decimal(x as nat)).push(decimal(v@[i as int] as nat)));
        i += 1;
    }
    assert(v@.take(v.len() as int) =~= v@);
    r
}

/// The plan of a mute (what `mute` writes to the database and schedules)
/// of member `user_id` in `guild_id`, for `mute_nanos` nanoseconds from now.
/// `member` holds, where the member is in the server, whether they were
/// muted already and the roles the mute took from them.
pub fn plan_mute(
    guild_id: u64,
    user_id: u64,
    reason: &String,
    now_secs: i64,
    now_subsec: u32,
    mute_nanos: i64,
    member: &Option<MuteRoles>,
) -> (r: MutePlan)
    requires
        0 <= now_secs <= latest_now(),
        now_subsec < 1_000_000_000,
    ensures
        r.query@ == (MutedView {
            user_id: Some(decimal(user_id as nat)),
            guild_id: None,
            taken_roles: None,
            expires: None,
            reason: None,
        }),
        r.unmute_time == if mute_nanos == 0 {
            None
        } else {
            Some(mute_end(now_secs, now_subsec, mute_nanos) as u64)
        },
        r.update@ == (MutedView {
            user_id: None,
            guild_id: Some(decimal(guild_id as nat)),
            taken_roles: recorded_roles(
                match *member {
                    Some(m) => Some((m.is_currently_muted, m.removed_roles@)),
                    None => None,
                },
            ),
            expires: r.unmute_time,
            reason: Some(reason@),
        }),
        opt_view(r.expires) == match r.unmute_time {
            Some(t) => Some(discord_timestamp(t)),
            None => None,
        },
        r.unmute_delay == if mute_nanos == 0 {
            None
        } else {
            Some(div_toward_zero(mute_nanos as int, 1_000_000_000) as u64)
        },
{
    let query = Muted {
        user_id: Some(decimal_string(user_id)),
        guild_id: None,
        taken_roles: None,
        expires: None,
        reason: None,
    };
    let (unmute_time, unmute_delay) = if mute_nanos == 0 {
        (None, None)
    } else {
        let total: i128 = (now_secs as i128) * 1_000_000_000 + (now_subsec as i128) + (mute_nanos as i128);
        let shifted: i128 = total + 10_000_000_000_000_000_000_000;
        assert(shifted >= 0);
        let secs: i128 = shifted / 1_000_000_000 - 10_000_000_000_000;
        assert(secs == total / 1_000_000_000) by (nonlinear_arith)
            requires
                shifted == total + 10_000_000_000_000_000_000_000,
                shifted >= 0,
                secs == shifted / 1_000_000_000 - 10_000_000_000_000,
        ;
        let n: i128 = mute_nanos as i128;
        let delay: i128 = if n >= 0 {
            n / 1_000_000_000
        } else {
            -((-n) / 1_000_000_000)
        };
        (Some(secs as u64), Some(delay as u64))
    };
    let expires = match unmute_time {
        Some(t) => {
            let mut s = "<t:".to_owned();
            let d = decimal_string(t);
            push_str(&mut s, d.as_str());
            push_str(&mut s, ":F>");
            assert(s@ =~= discord_timestamp(t));
            Some(s)
        },
        None => None,
    };
    let taken_roles = match member {
        Some(m) => if m.is_currently_muted {
            None
        } else {
            Some(u64_strings(&m.removed_roles))
        },
        None => None,
    };
    let update = Muted {
        user_id: None,
        guild_id: Some(decimal_string(guild_id)),
        taken_roles,
        expires: unmute_time,
        reason: Some(reason.clone()),
    };
    MutePlan { query, update, unmute_time, expires, unmute_delay }
}

/// The record query that finds a member's mute (what `unmute` and the
/// scheduled unmute look up).
pub fn mute_query(user_id: u64) -> (r: Muted)
    ensures
        r@ == (MutedView {
            user_id: Some(decimal(user_id as nat)),
            guild_id: None,
            taken_roles: None,
            expires: None,
            reason: None,
        }),
{
    Muted { user_id: Some(decimal_string(user_id)), guild_id: None, taken_roles: None, expires: None, reason: None }
}

/// What a scheduled unmute does with the record it removed.
pub enum UnmutePlan {
    /// No record: nothing to do.
    Nothing,
    /// Give these roles back, then take the mute role away.
    Restore(Vec<u64>),
    /// The record lacks its taken roles or holds one that is no role id.
    Invalid,
}

/// The role ids that a record's taken roles hold, each a decimal `u64`.
pub open spec fn parsed_roles(taken: Seq<Seq<char>>) -> Option<Seq<u64>>
    decreases taken.len(),
{
    if taken.len() == 0 {
        Some(seq![])
    } else {
        match (parsed_roles(taken.drop_last()), parse_unsigned(taken.last(), u64::MAX as nat)) {
            (Some(prev), Some(x)) => Some(prev.push(x as u64)),
            _ => None,
        }
    }
}

/// Parses a decimal `u64` (`str::parse::<u64>`).
pub fn parse_u64(s: &str) -> (r: Option<u64>)
    ensures
        r matches Some(x) ==> parse_unsigned(s@, u64::MAX as nat) == Some(x as nat),
        r is None ==> parse_unsigned(s@, u64::MAX as nat) is None,
{
    let v = chars_of(s);
    parse_unsigned_chars(v.as_slice(), u64::MAX)
}

/// What a scheduled unmute does with the record it removed (the part of
/// `queue_unmute_member` after the wait).
pub fn unmute_plan(removed: &Option<Muted>) -> (r: UnmutePlan)
    ensures
        match *removed {
            None => r is Nothing,
            Some(m) => match m@.taken_roles {
                None => r is Invalid,
                Some(t) => match parsed_roles(t) {
                    None => r is Invalid,
                    Some(ids) => r matches UnmutePlan::Restore(v) && v@ == ids,
                },
            },
        },
{
    match removed {
        None => UnmutePlan::Nothing,
        Some(m) => match &m.taken_roles {
            None => UnmutePlan::Invalid,
            Some(taken) => {
                let ghost tv = strings_view(taken@);
                let mut ids: Vec<u64> = Vec::new();
                let mut i: usize = 0;
                assert(tv.take(0) =~= Seq::<Seq<char>>::empty());
                while i < taken.len()
                    invariant
                        i <= taken.len(),
                        tv == strings_view(taken@),
                        *removed == Some(*m),
                        m.taken_roles == Some(*taken),
                        parsed_roles(tv.take(i as int)) == Some(ids@),
                    decreases taken.len() - i,
                {
                    assert(tv.take(i + 1).drop_last() =~= tv.take(i as int));
                    assert(tv.take(i + 1).last() == taken@[i as int]@);
                    match parse_u64(taken[i].as_str()) {
                        Some(x) => ids.push(x),
                        None => {
                            proof {
                                lemma_parsed_roles_none(tv, i as int);
                            }
                            return UnmutePlan::Invalid;
                        },
                    }
                    i += 1;
                }
                assert(tv.take(taken.len() as int) =~= tv);
                UnmutePlan::Restore(ids)
            },
        },
    }
}

proof fn lemma_parsed_roles_none(t: Seq<Seq<char>>, i: int)
    requires
        0 <= i < t.len(),
        parse_unsigned(t[i], u64::MAX as nat) is None,
    ensures
        parsed_roles(t) is None,
    decreases t.len(),
{
    if i < t.len() - 1 {
        lemma_parsed_roles_none(t.drop_last(), i);
    }
}

/// What the bot does at start-up with a mute record.
pub enum PendingUnmute {
    /// A mute without end: nothing is scheduled.
    Untimed,
    /// Schedule the unmute of `user_id` in `guild_id` after `delay` seconds.
    Schedule { guild_id: u64, user_id: u64, delay: u64 },
    /// The record's ids are missing or are no numbers, or its time is out
    /// of range.
    Invalid,
}

/// The seconds left of a mute that ends at `expires`, at `now`: none where
/// it ended already.
pub open spec fn seconds_left(expires: u64, now: i64) -> int {
    let left = (expires as i64) - now;
    if left > 0 { left } else { 0 }
}

/// What the bot schedules at start-up for a mute record: nothing for a
/// mute without end; the unmute of the recorded member in the recorded
/// server after the seconds left; `Invalid` where the ids are not numbers
/// or the seconds left overflow.
pub open spec fn pending_unmute_spec(m: MutedView, now: i64) -> PendingUnmute {
    match m.expires {
        None => PendingUnmute::Untimed,
        Some(expires) => {
            let g = match m.guild_id {
                Some(g) => parse_unsigned(g, u64::MAX as nat),
                None => None,
            };
            let u = match m.user_id {
                Some(u) => parse_unsigned(u, u64::MAX as nat),
                None => None,
            };
            let left = (expires as i64) - now;
            if g is None || u is None || left < i64::MIN || left > i64::MAX {
                PendingUnmute::Invalid
            } else {
                PendingUnmute::Schedule {
                    guild_id: g->0 as u64,
                    user_id: u->0 as u64,
                    delay: seconds_left(expires, now) as u64,
                }
            }
        },
    }
}

/// What the bot schedules at start-up for a mute record (a step of
/// `load_muted_members`), at `now` seconds since 1970.
pub fn pending_unmute(muted: &Muted, now: i64) -> (r: PendingUnmute)
    ensures
        r == pending_unmute_spec(muted@, now),
{
    let expires = match muted.expires {
        None => {
            return PendingUnmute::Untimed;
        },
        Some(e) => e,
    };
    let guild_id = match &muted.guild_id {
        Some(g) => match parse_u64(g.as_str()) {
            Some(x) => x,
            None => {
                return PendingUnmute::Invalid;
            },
        },
        None => {
            return PendingUnmute::Invalid;
        },
    };
    let user_id = match &muted.user_id {
        Some(u) => match parse_u64(u.as_str()) {
            Some(x) => x,
            None => {
                return PendingUnmute::Invalid;
            },
        },
        None => {
            return PendingUnmute::Invalid;
        },
    };
    let e = expires as i64;
    let left: i128 = (e as i128) - (now as i128);
    if left < i64::MIN as i128 || left > i64::MAX as i128 {
        return PendingUnmute::Invalid;
    }
    let delay: u64 = if left > 0 { left as u64 } else { 0 };
    PendingUnmute::Schedule { guild_id, user_id, delay }
}


// ---------------------------------------------------------------------------
// Laws
// ---------------------------------------------------------------------------

/// A ban deletes at most seven days of messages.
pub proof fn law_ban_delete_days_bounded(dmd: Option<u8>)
    ensures
        ban_delete_days(dmd) <= 7,
        (dmd is Some && dmd->0 <= 7) ==> ban_delete_days(dmd) == dmd->0,
{
}

proof fn lemma_parsed_roles_of_decimals(removed: Seq<u64>)
    ensures
        parsed_roles(removed.map_values(|r: u64| decimal(r as nat))) == Some(removed),
    decreases removed.len(),
{
    let t = removed.map_values(|r: u64| decimal(r as nat));
    if removed.len() > 0 {
        lemma_parsed_roles_of_decimals(removed.drop_last());
        assert(t.drop_last() =~= removed.drop_last().map_values(|r: u64| decimal(r as nat)));
        crate::text::law_decimal_roundtrip(removed.last() as nat, u64::MAX as nat);
        assert(removed.drop_last().push(removed.last()) =~= removed);
    } else {
        assert(removed =~= Seq::<u64>::empty());
    }
}

/// What a mute records of the roles it took, the scheduled unmute gives
/// back: the recorded roles parse to the roles taken, in order. A mute of
/// a member who is muted already records no roles, so that it does not
/// overwrite the roles recorded by the first mute.
pub proof fn law_mute_roles_roundtrip(removed: Seq<u64>)
    ensures
        recorded_roles(Some((false, removed))) matches Some(t) && parsed_roles(t) == Some(removed),
        recorded_roles(Some((true, removed))) is None,
{
    lemma_parsed_roles_of_decimals(removed);
}

/// The record that a mute writes with an end, read at start-up, schedules
/// the unmute of the same member in the same server after the seconds
/// that are left, and none where the end has passed.
pub proof fn law_mute_record_schedules_unmute(guild_id: u64, user_id: u64, expires: u64, reason: Seq<char>, taken: Option<Seq<Seq<char>>>, now: i64)
    requires
        expires <= i64::MAX,
        now >= 0,
    ensures
        pending_unmute_spec(
            MutedView {
                user_id: Some(decimal(user_id as nat)),
                guild_id: Some(decimal(guild_id as nat)),
                taken_roles: taken,
                expires: Some(expires),
                reason: Some(reason),
            },
            now,
        ) == (PendingUnmute::Schedule {
            guild_id,
            user_id,
            delay: if expires > now { (expires - now) as u64 } else { 0 },
        }),
{
    crate::text::law_decimal_roundtrip(guild_id as nat, u64::MAX as nat);
    crate::text::law_decimal_roundtrip(user_id as nat, u64::MAX as nat);
}

/// A lock takes writing away: the overwrite that replaces one denies its
/// target sending messages and adding reactions, allows neither, keeps its
/// other permissions and applies to the same target.
pub proof fn law_lock_denies_writing(o: PermissionOverwrite)
    ensures
        lock_permission() == 0x840,
        locked_overwrite(o).deny & SEND_MESSAGES == SEND_MESSAGES,
        locked_overwrite(o).deny & ADD_REACTIONS == ADD_REACTIONS,
        locked_overwrite(o).allow & SEND_MESSAGES == 0,
        locked_overwrite(o).allow & ADD_REACTIONS == 0,
        !lets_write(locked_overwrite(o)),
        locked_overwrite(o).allow & !lock_permission() == o.allow & !lock_permission(),
        locked_overwrite(o).deny & !lock_permission() == o.deny & !lock_permission(),
        locked_overwrite(o).kind == o.kind,
{
    assert(0x800u64 | 0x40u64 == 0x840u64) by (bit_vector);
    let a = o.allow;
    let d = o.deny;
    assert((d | 0x840u64) & 0x800u64 == 0x800u64) by (bit_vector);
    assert((d | 0x840u64) & 0x40u64 == 0x40u64) by (bit_vector);
    assert((a & !0x840u64) & 0x800u64 == 0) by (bit_vector);
    assert((a & !0x840u64) & 0x40u64 == 0) by (bit_vector);
    assert((a & !0x840u64) & !0x840u64 == a & !0x840u64) by (bit_vector);
    assert((d | 0x840u64) & !0x840u64 == d & !0x840u64) by (bit_vector);
}

/// A lock can be undone: it saves, unchanged and in order, exactly the
/// overwrites of the channel that let their target write, and replaces
/// each with one for the same target that does not; re-creating the saved
/// overwrites (what `unlock` does) puts the originals back for each target.
pub proof fn law_lock_restorable(overwrites: Seq<PermissionOverwrite>)
    ensures
        ({
            let saved = overwrites.filter(|o: PermissionOverwrite| lets_write(o));
            let replacements = saved.map_values(|o: PermissionOverwrite| locked_overwrite(o));
            &&& replacements.len() == saved.len()
            &&& forall|i: int| 0 <= i < saved.len() ==> overwrites.contains(#[trigger] saved[i])
            &&& forall|i: int| 0 <= i < saved.len() ==> lets_write(#[trigger] saved[i])
            &&& forall|i: int| 0 <= i < saved.len() ==> (#[trigger] replacements[i]).kind == saved[i].kind
                && !lets_write(replacements[i])
            &&& forall|o: PermissionOverwrite| overwrites.contains(o) && lets_write(o) ==> #[trigger] saved.contains(o)
        }),
{
    let f = |o: PermissionOverwrite| lets_write(o);
    let saved = overwrites.filter(f);
    let replacements = saved.map_values(|o: PermissionOverwrite| locked_overwrite(o));
    assert forall|i: int| 0 <= i < saved.len() implies overwrites.contains(#[trigger] saved[i]) && lets_write(saved[i]) by {
        overwrites.lemma_filter_pred(f, i);
        assert(saved.contains(saved[i]));
        overwrites.lemma_filter_contains_rev(f, saved[i]);
    }
    assert forall|i: int| 0 <= i < saved.len() implies (#[trigger] replacements[i]).kind == saved[i].kind
        && !lets_write(replacements[i]) by {
        law_lock_denies_writing(saved[i]);
    }
    assert forall|o: PermissionOverwrite| overwrites.contains(o) && lets_write(o) implies #[trigger] saved.contains(o) by {
        let k = choose|k: int| 0 <= k < overwrites.len() && overwrites[k] == o;
        overwrites.lemma_filter_contains(f, k);
    }
}

} // verus!
