use revanced_discord_bot::api::routing::Endpoint;
use revanced_discord_bot::commands::misc::{reply_confirmation, reply_target, ReplyTarget};
use revanced_discord_bot::events::{keep_thread_alive, thread_introduction, IntroductionDecision, ThreadIntroduction};
use revanced_discord_bot::model::application::{config_source, system_config_path, Administrators, ConfigSource};
use revanced_discord_bot::utils::bot::{is_administrator, member_missing, permission_error_embed};
use revanced_discord_bot::utils::media_channel::handle_media_channel;
use revanced_discord_bot::utils::message::{clone_message, ReceivedEmbed};
use revanced_discord_bot::utils::role_embed::{
    get_role_name_from_id, role_command_buttons, role_embed, saved_role_embed_query,
    saved_role_embed_update, saved_role_message, CachedRole, RoleEmbedConfiguration, RoleEmbedRole,
};
use revanced_discord_bot::utils::EmbedField;

fn roles() -> Vec<CachedRole> {
    vec![
        CachedRole { id: 1, name: "Dev".to_string(), icon: Some("🛠".to_string()) },
        CachedRole { id: 2, name: "User".to_string(), icon: None },
    ]
}

#[test]
fn role_names() {
    assert_eq!(get_role_name_from_id(&roles(), 1, true), "🛠 Dev");
    assert_eq!(get_role_name_from_id(&roles(), 1, false), "Dev");
    assert_eq!(get_role_name_from_id(&roles(), 2, true), "User");
}

#[test]
fn role_embed_lists_roles_and_buttons() {
    let config = RoleEmbedConfiguration {
        channel_id: 5,
        roles: vec![
            RoleEmbedRole { id: 1, description: "devs".to_string(), button: true },
            RoleEmbedRole { id: 2, description: "users".to_string(), button: false },
        ],
    };
    let (e, buttons) = role_embed(&config, &roles(), 3, &"thumb".to_string());
    assert_eq!(e.title.as_deref(), Some("Roles"));
    assert_eq!(e.fields.len(), 2);
    assert_eq!(e.fields[0].name, "🛠 Dev");
    assert_eq!(e.fields[1].value, "users");
    assert_eq!(buttons.len(), 1);
    assert_eq!((buttons[0].label.as_str(), buttons[0].custom_id.as_str()), ("🛠 Dev", "1"));
    let buttons = role_command_buttons(&config.roles, &roles());
    assert_eq!((buttons[0].label.as_str(), buttons[0].custom_id.as_str()), ("Dev", "role:1"));
    assert!(saved_role_embed_query(5) == revanced_discord_bot::db::model::SavedRoleEmbed { channel_id: Some(5), message_id: None });
    assert_eq!(saved_role_embed_update(9).message_id, Some(9));
}

#[test]
fn administrators() {
    let admins = Administrators {
        roles: [10u64].into_iter().collect(),
        users: [1u64].into_iter().collect(),
    };
    assert!(is_administrator(&admins, 1, &vec![]));
    assert!(is_administrator(&admins, 2, &vec![3, 10]));
    assert!(!is_administrator(&admins, 2, &vec![3]));
    let e = permission_error_embed(4, &"f".to_string());
    assert_eq!(e.title.as_deref(), Some("Permission error"));
    let d = handle_media_channel(&vec![7], &admins, 7, 2, false);
    assert!(d.is_media_channel && d.delete);
    let d = handle_media_channel(&vec![7], &admins, 7, 1, false);
    assert!(d.is_media_channel && !d.delete);
    let d = handle_media_channel(&vec![7], &admins, 7, 2, true);
    assert!(!d.delete);
    assert!(!handle_media_channel(&vec![7], &admins, 8, 2, false).is_media_channel);
}

#[test]
fn thread_events() {
    let intros = vec![
        ThreadIntroduction { channels: vec![1], message: Some("one".to_string()) },
        ThreadIntroduction { channels: vec![2, 3], message: Some("two".to_string()) },
        ThreadIntroduction { channels: vec![4], message: None },
    ];
    assert!(matches!(thread_introduction(false, Some(3), &intros), IntroductionDecision::Say(s) if s == "two"));
    assert!(matches!(thread_introduction(true, Some(3), &intros), IntroductionDecision::Nothing));
    assert!(matches!(thread_introduction(false, Some(9), &intros), IntroductionDecision::Nothing));
    assert!(matches!(thread_introduction(false, Some(4), &intros), IntroductionDecision::Invalid));
    assert!(matches!(thread_introduction(false, None, &intros), IntroductionDecision::Invalid));
    assert!(matches!(thread_introduction(false, None, &vec![]), IntroductionDecision::Nothing));
    assert!(keep_thread_alive(Some((true, false))));
    assert!(!keep_thread_alive(Some((true, true))));
    assert!(!keep_thread_alive(Some((false, false))));
    assert!(!keep_thread_alive(None));
}

#[test]
fn reply_command() {
    assert!(matches!(reply_target(&None), ReplyTarget::Channel));
    assert!(matches!(reply_target(&Some("42".to_string())), ReplyTarget::Message(42)));
    assert!(matches!(reply_target(&Some("x".to_string())), ReplyTarget::InvalidId));
    assert_eq!(reply_confirmation(&"hi".to_string()), "Response: hi");
}

#[test]
fn configuration_location() {
    assert!(matches!(config_source(true, true), ConfigSource::Local));
    assert!(matches!(config_source(false, true), ConfigSource::System));
    assert!(matches!(config_source(false, false), ConfigSource::CreateDefault));
    assert_eq!(system_config_path("/etc"), "/etc/revanced-discord-bot/configuration.json");
    let e = Endpoint::Authenticate { id: "i".to_string(), secret: "s".to_string(), discord_id_hash: "h".to_string() };
    assert_eq!(e.route(), "/auth/");
}

#[test]
fn clone_message_copies_first_embed() {
    let e = ReceivedEmbed {
        colour: Some(3),
        title: Some("t".to_string()),
        description: None,
        footer_text: Some("f".to_string()),
        author_name: Some("a".to_string()),
        image_url: None,
        thumbnail_url: Some("th".to_string()),
        fields: vec![EmbedField { name: "n".to_string(), value: "v".to_string(), inline: true }],
    };
    let c = clone_message(&"text".to_string(), &Some(e), 1_700_000_000_123);
    assert_eq!(c.content, "text");
    assert_eq!(c.embed_timestamp, Some(1_700_000_000_123));
    let copy = c.embed.unwrap();
    assert_eq!(copy.title.as_deref(), Some("t"));
    assert_eq!(copy.footer.unwrap().text, "f");
    assert_eq!(copy.author.unwrap().name, "a");
    assert_eq!(copy.fields[0].value, "v");
    let c = clone_message(&"x".to_string(), &None, 5);
    assert!(c.embed.is_none());
    assert_eq!(c.embed_timestamp, None);
}

#[test]
fn endpoint_addresses() {
    let e = Endpoint::Authenticate {
        id: "i".to_string(),
        secret: "s".to_string(),
        discord_id_hash: "h".to_string(),
    };
    assert_eq!(e.route(), "/auth/");
    assert_eq!(
        e.request_url("https://api.revanced.app/v2").as_deref(),
        Some("https://api.revanced.app/auth/")
    );
    assert_eq!(e.request_url("not a url"), None);
}

#[test]
fn member_lookups_and_saved_role_messages() {
    assert!(member_missing(Some(404)));
    assert!(!member_missing(Some(500)));
    assert!(!member_missing(None));
    assert_eq!(saved_role_message(Some(saved_role_embed_update(9))), Some(9));
    assert_eq!(saved_role_message(Some(saved_role_embed_query(3))), None);
    assert_eq!(saved_role_message(None), None);
}
