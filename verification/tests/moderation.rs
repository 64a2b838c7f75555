use revanced_discord_bot::db::model::{LockedChannel, Muted, OverwriteKind, PermissionOverwrite};
use revanced_discord_bot::model::application::Mute;
use revanced_discord_bot::utils::moderation::{
    ban_moderation, handle_ban, lock_overwrites, lock_state_error, lock_step, locked_channel_query,
    locked_channel_record, log_embed, moderation_embed, unlock_plan, LockStep,
    mute_query, mute_roles, pending_unmute, plan_mute, unmute_plan, BanKind, BanRequest,
    ChannelRef, ModerationKind, MuteRoles, PendingUnmute, Person, UnmutePlan,
};
use revanced_discord_bot::utils::{parse_duration, EmbedContent};
use std::collections::HashSet;

fn person(id: u64, name: &str) -> Person {
    Person {
        id,
        tag: format!("{name}#0001"),
        mention: format!("<@{id}>"),
        face: format!("https://cdn/{name}.png"),
    }
}

fn fields(e: &EmbedContent) -> Vec<(String, String, bool)> {
    e.fields.iter().map(|f| (f.name.clone(), f.value.clone(), f.inline)).collect()
}

fn f(n: &str, v: &str, i: bool) -> (String, String, bool) {
    (n.to_string(), v.to_string(), i)
}

#[test]
fn mute_report() {
    let kind = ModerationKind::Mute(
        person(1, "bob"),
        person(2, "mod"),
        "spam".to_string(),
        Some("<t:100:F>".to_string()),
        None,
    );
    let e = moderation_embed(&kind, 5, &"bot.png".to_string());
    assert_eq!(e.title.as_deref(), Some("Muted bob#0001"));
    assert_eq!(
        fields(&e),
        vec![
            f("Action", "<@1> was muted by <@2>", true),
            f("Reason", "spam", true),
            f("Expires", "<t:100:F>", true),
        ]
    );
    assert_eq!(e.color, Some(5));
    assert_eq!(e.thumbnail_url.as_deref(), Some("https://cdn/bob.png"));
    assert!(e.description.is_none());
}

#[test]
fn failed_mute_report() {
    let kind = ModerationKind::Mute(person(1, "bob"), person(2, "mod"), "spam".to_string(), None, Some("boom".to_string()));
    let e = moderation_embed(&kind, 5, &"bot.png".to_string());
    assert_eq!(e.title.as_deref(), Some("Failed to mute bob#0001"));
    assert_eq!(
        fields(&e),
        vec![
            f("Exception", "boom", false),
            f("Action", "<@1> was muted by <@2> but failed", false),
            f("Reason", "spam", true),
        ]
    );
}

#[test]
fn unmute_ban_unban_reports() {
    let e = moderation_embed(&ModerationKind::Unmute(person(1, "a"), person(2, "m"), None), 0, &String::new());
    assert_eq!(e.title.as_deref(), Some("Unmuted a#0001"));
    assert_eq!(fields(&e), vec![f("Action", "<@1> was unmuted by <@2>", true)]);
    let e = moderation_embed(&ModerationKind::Ban(person(1, "a"), person(2, "m"), Some("rude".to_string()), None), 0, &String::new());
    assert_eq!(e.title.as_deref(), Some("Banned a#0001"));
    assert_eq!(fields(&e), vec![f("Action", "<@1> was banned by <@2>", true), f("Reason", "rude", true)]);
    let e = moderation_embed(&ModerationKind::Ban(person(1, "a"), person(2, "m"), None, Some("no".to_string())), 0, &String::new());
    assert_eq!(e.title.as_deref(), Some("Failed to ban a#0001"));
    assert_eq!(fields(&e), vec![f("Exception", "no", false), f("Action", "<@1> was banned by <@2> but failed", false)]);
    let e = moderation_embed(&ModerationKind::Unban(person(1, "a"), person(2, "m"), None), 0, &String::new());
    assert_eq!(e.title.as_deref(), Some("Unbanned a#0001"));
    assert_eq!(fields(&e), vec![f("Action by", "<@1> was unbanned by <@2>", true)]);
}

#[test]
fn lock_unlock_reports() {
    let ch = || ChannelRef { id: 9, name: "general".to_string(), mention: "<#9>".to_string() };
    let e = moderation_embed(&ModerationKind::Lock(ch(), person(2, "m"), None), 1, &"bot.png".to_string());
    assert_eq!(e.title.as_deref(), Some("Locked general"));
    assert_eq!(e.description.as_deref(), Some("Unlocking the channel will restore the original permission overwrites."));
    assert_eq!(fields(&e), vec![f("Action", "<#9> was locked by <@2>", true)]);
    assert_eq!(e.thumbnail_url.as_deref(), Some("bot.png"));
    let e = moderation_embed(&ModerationKind::Lock(ch(), person(2, "m"), Some("Channel already locked".to_string())), 1, &"bot.png".to_string());
    assert_eq!(e.title.as_deref(), Some("Failed to lock <#9> "));
    let e = moderation_embed(&ModerationKind::Unlock(ch(), person(2, "m"), None), 1, &"bot.png".to_string());
    assert_eq!(e.title.as_deref(), Some("Unlocked <#9>"));
    assert_eq!(e.description.as_deref(), Some("Restored original permission overwrites."));
    let e = moderation_embed(&ModerationKind::Unlock(ch(), person(2, "m"), Some("x".to_string())), 1, &"bot.png".to_string());
    assert_eq!(e.title.as_deref(), Some("Failed to unlock general"));
    assert_eq!(fields(&e), vec![f("Exception", "x", false), f("Action", "<#9> was unlocked by <@2> but failed", false)]);
}

#[test]
fn log_embed_links_the_reply() {
    let e = moderation_embed(&ModerationKind::Unmute(person(1, "a"), person(2, "m"), None), 0, &String::new());
    let e = log_embed(e, 10, 20, 30);
    assert_eq!(
        fields(&e).last().unwrap(),
        &f("Reference", "[Jump to message](https://discord.com/channels/10/20/30)", true)
    );
}

#[test]
fn ban_requests() {
    match ban_moderation(&BanKind::Ban(person(3, "x"), Some(9), None)) {
        BanRequest::Ban { user_id, delete_message_days, reason } => {
            assert_eq!((user_id, delete_message_days, reason.as_str()), (3, 7, "None specified"));
        },
        _ => panic!(),
    }
    match ban_moderation(&BanKind::Ban(person(3, "x"), None, Some("r".to_string()))) {
        BanRequest::Ban { delete_message_days, reason, .. } => {
            assert_eq!((delete_message_days, reason.as_str()), (0, "r"));
        },
        _ => panic!(),
    }
    assert!(matches!(ban_moderation(&BanKind::Unban(person(4, "y"))), BanRequest::Unban { user_id: 4 }));
    match handle_ban(&BanKind::Ban(person(3, "x"), Some(1), Some("r".to_string())), &person(5, "m"), None) {
        ModerationKind::Ban(u, a, r, e) => {
            assert_eq!((u.id, a.id, r.as_deref(), e), (3, 5, Some("r"), None));
        },
        _ => panic!(),
    }
    assert!(matches!(
        handle_ban(&BanKind::Unban(person(4, "y")), &person(5, "m"), Some("e".to_string())),
        ModerationKind::Unban(_, _, Some(_))
    ));
}

#[test]
fn lock_denies_writing_and_saves_the_writers() {
    let o = |allow: u64, deny: u64, id: u64| PermissionOverwrite { allow, deny, kind: OverwriteKind::Role(id) };
    let plan = lock_overwrites(&vec![o(0x800, 0, 1), o(0, 0x800, 2), o(0, 0, 3), o(0x840 | 0x1, 0x800, 4)]);
    assert!(plan.saved == vec![o(0x800, 0, 1), o(0, 0, 3), o(0x841, 0x800, 4)]);
    assert!(plan.replacements == vec![o(0, 0x840, 1), o(0, 0x840, 3), o(0x1, 0x840, 4)]);
    assert_eq!(lock_state_error(true), "Channel already locked");
    assert_eq!(lock_state_error(false), "Channel already unlocked");
}

#[test]
fn mute_plan_with_end() {
    let member = Some(MuteRoles { is_currently_muted: false, removed_roles: vec![11, 12] });
    let plan = plan_mute(7, 8, &"why".to_string(), 1_000, 500_000_000, 90_000_000_000, &member);
    assert_eq!(plan.unmute_time, Some(1_090));
    assert_eq!(plan.expires.as_deref(), Some("<t:1090:F>"));
    assert_eq!(plan.unmute_delay, Some(90));
    assert_eq!(plan.query.user_id.as_deref(), Some("8"));
    assert_eq!(plan.update.guild_id.as_deref(), Some("7"));
    assert_eq!(plan.update.taken_roles, Some(vec!["11".to_string(), "12".to_string()]));
    assert_eq!(plan.update.expires, Some(1_090));
    assert_eq!(plan.update.reason.as_deref(), Some("why"));
    let plan = plan_mute(7, 8, &"why".to_string(), 1_000, 600_000_000, 400_000_000, &member);
    assert_eq!(plan.unmute_time, Some(1_001));
    assert_eq!(plan.unmute_delay, Some(0));
}

#[test]
fn mute_plan_without_end_or_of_muted_member() {
    let member = Some(MuteRoles { is_currently_muted: true, removed_roles: vec![11] });
    let plan = plan_mute(7, 8, &"why".to_string(), 1_000, 0, 0, &member);
    assert_eq!(plan.unmute_time, None);
    assert_eq!(plan.expires, None);
    assert_eq!(plan.unmute_delay, None);
    assert_eq!(plan.update.taken_roles, None);
    let plan = plan_mute(7, 8, &"why".to_string(), 1_000, 0, 0, &None);
    assert_eq!(plan.update.taken_roles, None);
    assert_eq!(mute_query(8).user_id.as_deref(), Some("8"));
}

#[test]
fn mute_roles_takes_configured_roles() {
    let mute = Mute { role: 99, take: [2u64, 3].into_iter().collect::<HashSet<u64>>() };
    let r = mute_roles(&vec![1, 3, 99, 2], &mute);
    assert!(r.is_currently_muted);
    assert_eq!(r.removed_roles, vec![3, 2]);
    assert!(!mute_roles(&vec![1], &mute).is_currently_muted);
}

fn muted(user: Option<&str>, guild: Option<&str>, taken: Option<Vec<&str>>, expires: Option<u64>) -> Muted {
    Muted {
        user_id: user.map(String::from),
        guild_id: guild.map(String::from),
        taken_roles: taken.map(|t| t.into_iter().map(String::from).collect()),
        expires,
        reason: None,
    }
}

#[test]
fn unmute_gives_back_recorded_roles() {
    let member = Some(MuteRoles { is_currently_muted: false, removed_roles: vec![5, 6] });
    let plan = plan_mute(1, 2, &"r".to_string(), 0, 0, 0, &member);
    match unmute_plan(&Some(plan.update)) {
        UnmutePlan::Restore(ids) => assert_eq!(ids, vec![5, 6]),
        _ => panic!(),
    }
    assert!(matches!(unmute_plan(&None), UnmutePlan::Nothing));
    assert!(matches!(unmute_plan(&Some(muted(None, None, None, None))), UnmutePlan::Invalid));
    assert!(matches!(unmute_plan(&Some(muted(None, None, Some(vec!["x"]), None))), UnmutePlan::Invalid));
}

#[test]
fn start_up_schedules_unmutes() {
    assert!(matches!(pending_unmute(&muted(Some("2"), Some("1"), None, None), 50), PendingUnmute::Untimed));
    assert!(matches!(
        pending_unmute(&muted(Some("2"), Some("1"), None, Some(100)), 40),
        PendingUnmute::Schedule { guild_id: 1, user_id: 2, delay: 60 }
    ));
    assert!(matches!(
        pending_unmute(&muted(Some("2"), Some("1"), None, Some(100)), 400),
        PendingUnmute::Schedule { guild_id: 1, user_id: 2, delay: 0 }
    ));
    assert!(matches!(pending_unmute(&muted(None, Some("1"), None, Some(1)), 0), PendingUnmute::Invalid));
    assert!(matches!(pending_unmute(&muted(Some("x"), Some("1"), None, Some(1)), 0), PendingUnmute::Invalid));
    assert!(matches!(pending_unmute(&muted(Some("2"), Some("1"), None, Some(i64::MAX as u64)), -1), PendingUnmute::Invalid));
}

#[test]
fn durations_parse_to_nanoseconds() {
    assert_eq!(parse_duration("1m".to_string()).ok(), Some(60_000_000_000));
    assert_eq!(parse_duration("2 hours".to_string()).ok(), Some(7_200_000_000_000));
    assert!(parse_duration("soon".to_string()).is_err());
}

#[test]
fn lock_and_unlock_steps() {
    let o = |allow: u64, deny: u64, id: u64| PermissionOverwrite { allow, deny, kind: OverwriteKind::Member(id) };
    let q = locked_channel_query(1234);
    assert_eq!(q.channel_id.as_deref(), Some("1234"));
    assert!(q.overwrites.is_none());
    match lock_step(true, &vec![o(0, 0, 1)]) {
        LockStep::AlreadyLocked(e) => assert_eq!(e, "Channel already locked"),
        LockStep::Lock(_) => panic!("a locked channel is not locked again"),
    }
    match lock_step(false, &vec![o(0, 0, 1), o(0, 0x800, 2)]) {
        LockStep::Lock(plan) => {
            assert!(plan.saved == vec![o(0, 0, 1)]);
            assert!(plan.replacements == vec![o(0, 0x840, 1)]);
            let record = locked_channel_record(&plan.saved);
            assert!(record.channel_id.is_none());
            assert!(record.overwrites == Some(vec![o(0, 0, 1)]));
        },
        LockStep::AlreadyLocked(_) => panic!("an unlocked channel is locked"),
    }
    match unlock_plan(&None) {
        Err(e) => assert_eq!(e, "Channel already unlocked"),
        Ok(_) => panic!("an unlocked channel has nothing to restore"),
    }
    let removed = Some(LockedChannel { channel_id: Some("1234".to_string()), overwrites: Some(vec![o(5, 6, 7)]) });
    assert!(matches!(unlock_plan(&removed), Ok(v) if v == vec![o(5, 6, 7)]));
}
