use revanced_discord_bot::utils::purge::{
    purge_page, purge_progress_embed, purge_report, purge_settings, purge_start, PurgeMessage,
    PurgeSettings,
};

fn m(id: u64, author_id: u64, timestamp: i64) -> PurgeMessage {
    PurgeMessage { id, author_id, timestamp }
}

#[test]
fn settings_defaults_and_limits() {
    let s = purge_settings(None, None, &None, 2_000_000);
    assert_eq!(s.count_to_delete, 100);
    assert_eq!(s.too_old, 2_000_000 - 1_209_600);
    assert_eq!(s.until, None);
    let s = purge_settings(Some(4), Some(5), &Some("77".to_string()), 2_000_000);
    assert_eq!((s.user_id, s.count_to_delete, s.until), (Some(4), 5, Some(77)));
    assert_eq!(purge_settings(None, None, &Some("abc".to_string()), 0).until, None);
}

#[test]
fn page_selects_recent_messages_of_user_until_id() {
    let s = PurgeSettings { user_id: Some(1), count_to_delete: 10, until: Some(50), too_old: 100 };
    let page = vec![m(90, 1, 500), m(80, 2, 400), m(70, 1, 300), m(40, 1, 250), m(60, 1, 50), m(30, 1, 400)];
    let step = purge_page(&s, &purge_start(), &page);
    assert_eq!(step.delete, vec![90, 70]);
    assert_eq!((step.state.deleted, step.state.empty_pages, step.done), (2, 0, false));
}

#[test]
fn purge_stops_after_two_empty_pages_or_enough_deletions() {
    let s = PurgeSettings { user_id: None, count_to_delete: 3, until: None, too_old: 0 };
    let step = purge_page(&s, &purge_start(), &vec![]);
    assert_eq!((step.state.empty_pages, step.done), (1, false));
    let step = purge_page(&s, &step.state, &vec![m(1, 1, 0)]);
    assert!(step.delete.is_empty());
    assert_eq!((step.state.empty_pages, step.done), (2, true));
    let step = purge_page(&s, &purge_start(), &vec![m(3, 1, 5), m(2, 1, 5), m(1, 1, 5)]);
    assert_eq!(step.delete, vec![3, 2, 1]);
    assert!(step.done);
}

#[test]
fn purge_never_deletes_more_than_the_count() {
    let s = PurgeSettings { user_id: Some(1), count_to_delete: 2, until: None, too_old: 0 };
    let step = purge_page(&s, &purge_start(), &vec![m(9, 1, 5), m(8, 2, 5)]);
    assert_eq!(step.delete, vec![9]);
    assert_eq!((step.state.deleted, step.done), (1, false));
    let step = purge_page(&s, &step.state, &vec![m(7, 1, 5), m(6, 1, 5)]);
    assert_eq!(step.delete, vec![7]);
    assert_eq!((step.state.deleted, step.done), (2, true));
    let s = PurgeSettings { user_id: None, count_to_delete: 2, until: None, too_old: 0 };
    let step = purge_page(&s, &purge_start(), &vec![m(3, 1, 5), m(2, 1, 5), m(1, 1, 5)]);
    assert_eq!(step.delete, vec![3, 2]);
}

#[test]
fn purge_embeds() {
    let e = purge_progress_embed(3, &"img".to_string());
    assert_eq!(e.title.as_deref(), Some("Purging messages"));
    assert_eq!(e.description.as_deref(), Some("Accumulating..."));
    let e = purge_report(12, &"<@5>".to_string(), 3, &"img".to_string());
    assert_eq!(e.title.as_deref(), Some("Purge successful"));
    assert_eq!(e.fields[0].value, "12");
    assert_eq!(e.fields[1].name, "Action by");
    assert_eq!(e.footer.as_ref().unwrap().text, "ReVanced");
    assert_eq!(e.footer.as_ref().unwrap().icon_url.as_deref(), Some("img"));
}
