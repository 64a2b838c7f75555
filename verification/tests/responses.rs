use revanced_discord_bot::model::application::{
    Administrators, Configuration, Embed, Field, Message, Mute, Response,
};
use revanced_discord_bot::utils::autorespond::{
    attachments_contains, auto_response_matches, auto_response_reply, auto_response_step,
    auto_response_stops, contains_match, AutoResponse, AutoResponseStep, Excludes, Includes,
    MatchField,
};
use revanced_discord_bot::utils::message_response::{
    handle_message_response, IncomingMessage, Pattern, Trigger,
};
use revanced_discord_bot::utils::{create_default_embed, create_embed};
use std::collections::HashSet;

fn pats(p: &[&str]) -> Vec<Pattern> {
    p.iter().map(|s| Pattern::new(s.to_string()).unwrap()).collect()
}

fn empty_embed() -> Embed {
    Embed {
        author: None,
        color: None,
        title: None,
        description: None,
        fields: None,
        footer: None,
        image_url: None,
        thumbnail_url: None,
    }
}

fn config(responses: Vec<Response>) -> Configuration {
    let mut default_embed = empty_embed();
    default_embed.title = Some("Default".to_string());
    default_embed.color = Some(42);
    default_embed.fields = Some(vec![Field { name: "n".to_string(), value: "v".to_string(), inline: None }]);
    Configuration {
        administrators: Administrators { roles: HashSet::new(), users: HashSet::new() },
        default_embed,
        mute: Mute { role: 0, take: HashSet::new() },
        log_channel: 0,
        responses,
    }
}

fn message(content: &str, channel_id: u64, roles: Vec<u64>) -> IncomingMessage {
    IncomingMessage {
        id: 1000,
        channel_id,
        guild_id: Some(1),
        author_is_bot: false,
        content: content.to_string(),
        member_roles: roles,
        referenced_message_id: None,
    }
}

#[test]
fn patterns_compile_and_match() {
    assert!(Pattern::new("(".to_string()).is_none());
    let p = Pattern::new("^h(i|ello)".to_string()).unwrap();
    assert_eq!(p.as_str(), "^h(i|ello)");
    assert!(p.is_match("hello there"));
    assert!(!p.is_match("oh hello"));
}

#[test]
fn trigger_checks_channel_roles_and_patterns() {
    let t = Trigger {
        channels: Some([5u64].into_iter().collect()),
        roles: Some([7u64].into_iter().collect()),
        regex: pats(&["crash"]),
    };
    assert!(t.matches(5, "it crashed", &[1, 7]));
    assert!(!t.matches(6, "it crashed", &[7]));
    assert!(!t.matches(5, "it crashed", &[1]));
    assert!(!t.matches(5, "fine", &[7]));
    let empty = Trigger { channels: None, roles: None, regex: vec![] };
    assert!(!empty.matches(5, "anything", &[]));
}

#[test]
fn create_embed_fills_in_defaults() {
    let c = config(vec![]);
    let mut e = empty_embed();
    e.description = Some("Hi".to_string());
    let r = create_embed(&c, &e);
    assert_eq!(r.title.as_deref(), Some("Default"));
    assert_eq!(r.description.as_deref(), Some("Hi"));
    assert_eq!(r.color, Some(42));
    assert_eq!(r.fields.len(), 1);
    assert!(!r.fields[0].inline);
    e.title = Some("Own".to_string());
    e.fields = Some(vec![]);
    let r = create_embed(&c, &e);
    assert_eq!(r.title.as_deref(), Some("Own"));
    assert!(r.fields.is_empty());
    let d = create_default_embed(&c);
    assert_eq!(d.title.as_deref(), Some("Default"));
    assert!(d.description.is_none());
}

fn response(whitelist: Option<Trigger>, blacklist: Option<Trigger>, content: &str) -> Response {
    Response {
        whitelist,
        blacklist,
        message: Message { content: Some(content.to_string()), embed: Some(empty_embed()) },
        respond_to_reference: None,
    }
}

#[test]
fn responses_follow_white_and_black_lists() {
    let trig = |p: &[&str]| Trigger { channels: None, roles: None, regex: pats(p) };
    let c = config(vec![
        response(Some(trig(&["help"])), None, "first"),
        response(Some(trig(&["help"])), Some(trig(&["nohelp"])), "second"),
        response(None, None, "third"),
    ]);
    let out = handle_message_response(&c, &message("nohelp please", 1, vec![]));
    let texts: Vec<_> = out.iter().map(|o| o.content.clone().unwrap()).collect();
    assert_eq!(texts, vec!["first", "third"]);
    assert_eq!(out[0].reference, 1000);
    assert_eq!(out[0].embed.as_ref().unwrap().title.as_deref(), Some("Default"));
    let mut m = message("help", 1, vec![]);
    m.referenced_message_id = Some(7);
    let out = handle_message_response(&c, &m);
    assert_eq!(out.len(), 3);
    assert_eq!(out[1].reference, 7);
    m.author_is_bot = true;
    assert!(handle_message_response(&c, &m).is_empty());
    let mut m = message("help", 1, vec![]);
    m.guild_id = None;
    assert!(handle_message_response(&c, &m).is_empty());
}

fn auto(channels: Vec<u64>, excluded: Vec<u64>, inc: &[&str], inc_ocr: &[&str], exc: &[&str], exc_ocr: &[&str]) -> AutoResponse {
    AutoResponse {
        includes: Includes { channels, match_field: MatchField { text: pats(inc), ocr: pats(inc_ocr) } },
        excludes: Excludes { roles: excluded, match_field: MatchField { text: pats(exc), ocr: pats(exc_ocr) } },
        server_age: 1,
        response: Message { content: Some("hi".to_string()), embed: None },
    }
}

#[test]
fn auto_responses_match_text_and_images() {
    assert!(contains_match(&pats(&["a", "b"]), "xb"));
    assert!(!contains_match(&[], "xb"));
    assert!(attachments_contains(&vec!["no".to_string(), "yes".to_string()], &pats(&["yes"])));
    let r = auto(vec![1], vec![9], &["crash"], &["error"], &["solved"], &["ignore"]);
    let none: Vec<String> = vec![];
    assert!(auto_response_matches(&r, 1, 2, &"app crash".to_string(), false, &none));
    assert!(!auto_response_matches(&r, 3, 2, &"app crash".to_string(), false, &none));
    assert!(!auto_response_matches(&r, 1, 9, &"app crash".to_string(), false, &none));
    assert!(!auto_response_matches(&r, 1, 2, &"crash solved".to_string(), false, &none));
    let imgs = vec!["fatal error".to_string()];
    assert!(auto_response_matches(&r, 1, 2, &"look".to_string(), true, &imgs));
    assert!(!auto_response_matches(&r, 1, 2, &"look".to_string(), false, &imgs));
    let imgs = vec!["fatal error, ignore".to_string()];
    assert!(!auto_response_matches(&r, 1, 2, &"crash".to_string(), true, &imgs));
}

#[test]
fn auto_response_age() {
    let now = 10 * 86_400;
    assert!(auto_response_stops(0, now, 0, 3));
    assert!(auto_response_stops(7 * 86_400, now, 0, 3));
    assert!(!auto_response_stops(7 * 86_400 + 1, now, 0, 3));
}

#[test]
fn auto_response_steps_and_replies() {
    let none: Vec<String> = vec![];
    let text = "app crash".to_string();
    let mut r = auto(vec![1], vec![], &["crash"], &[], &[], &[]);
    r.server_age = 5;
    assert!(matches!(auto_response_step(&r, true, false, 1, 2, &text, false, &none), AutoResponseStep::CheckAge(5)));
    assert!(matches!(auto_response_step(&r, false, false, 1, 2, &text, false, &none), AutoResponseStep::Skip));
    assert!(matches!(auto_response_step(&r, true, true, 1, 2, &text, false, &none), AutoResponseStep::Skip));
    assert!(matches!(auto_response_step(&r, true, false, 1, 2, &"fine".to_string(), false, &none), AutoResponseStep::Skip));
    r.server_age = 0;
    assert!(matches!(auto_response_step(&r, true, false, 1, 2, &text, false, &none), AutoResponseStep::Skip));

    let reply = auto_response_reply(&config(vec![]), &r, 77);
    assert_eq!(reply.reference, 77);
    assert_eq!(reply.content.as_deref(), Some("hi"));
    assert!(reply.embed.is_none());
    let mut embed = empty_embed();
    embed.description = Some("see the docs".to_string());
    r.response.embed = Some(embed);
    let reply = auto_response_reply(&config(vec![]), &r, 78);
    assert!(reply.content.is_none());
    let e = reply.embed.unwrap();
    assert_eq!(e.description.as_deref(), Some("see the docs"));
    assert_eq!(e.title.as_deref(), Some("Default"));
}
