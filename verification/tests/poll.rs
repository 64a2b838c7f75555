use revanced_discord_bot::utils::poll::{
    is_poll_button, poll_eligible, poll_parameters, poll_reply, voter_id, PollAuth,
};

#[test]
fn poll_buttons() {
    assert!(is_poll_button("poll:1:2"));
    assert!(!is_poll_button("role:1"));
    assert!(!is_poll_button("pol"));
}

#[test]
fn poll_parameters_parse() {
    assert_eq!(poll_parameters("poll:12:-3"), Some((12, -3)));
    assert_eq!(poll_parameters("poll:12:3:extra"), Some((12, 3)));
    assert_eq!(poll_parameters("poll:12"), None);
    assert_eq!(poll_parameters("poll:x:3"), None);
    assert_eq!(poll_parameters("poll:1:y"), None);
}

#[test]
fn eligibility_by_join_date() {
    let day = 86_400;
    assert!(poll_eligible(0, 0, 10 * day, 0, 10));
    assert!(!poll_eligible(0, 1, 10 * day, 0, 10));
    assert!(poll_eligible(5 * day, 0, 10 * day, 0, 5));
    assert!(!poll_eligible(5 * day + 1, 0, 10 * day, 0, 5));
}

#[test]
fn voter_ids_hash_the_user_id() {
    assert_eq!(voter_id(123), "a03ab19");
    assert_eq!(voter_id(0), "f9e2eaa");
    assert_eq!(voter_id(u64::MAX), "b24a6ec");
}

#[test]
fn poll_replies() {
    let r = poll_reply(&PollAuth::Token("tok".to_string()), 1, &"face".to_string());
    assert_eq!(r.vote_url.as_deref(), Some("https://revanced.app/polling#tok"));
    assert_eq!(r.embed.title.as_deref(), Some("Cast your vote"));
    assert_eq!(r.embed.thumbnail_url.as_deref(), Some("face"));
    let r = poll_reply(&PollAuth::NotEligible, 1, &"face".to_string());
    assert!(r.vote_url.is_none());
    assert_eq!(r.embed.description.as_deref(), Some("You are not eligible to vote on this poll."));
    let r = poll_reply(&PollAuth::Failed(Some(412)), 1, &"face".to_string());
    assert_eq!(r.embed.description.as_deref(), Some("You can only vote once."));
    let r = poll_reply(&PollAuth::Failed(Some(500)), 1, &"face".to_string());
    assert_eq!(r.embed.description.as_deref(), Some("API Request failed. Please try again later."));
    let r = poll_reply(&PollAuth::Failed(None), 1, &"face".to_string());
    assert_eq!(r.embed.title.as_deref(), Some("Error"));
}
