//! Polls: which button presses are polls, who may vote, the anonymous
//! voter id sent to the API, and the reply to a voter.
use vstd::prelude::*;

use crate::text::{
    chars_of, decimal, decimal_string, digit_char, parse_i64_chars, parse_i64_spec,
    parse_unsigned, parse_unsigned_chars, push_char, push_str, split_char, split_on_char,
    strings_view,
};
use crate::utils::moderation::latest_now;
use crate::utils::{EmbedContent, EmbedContentView};

verus! {

/// The prefix of the custom ids of poll buttons.
pub open spec fn poll_prefix() -> Seq<char> {
    "poll"@
}

/// Whether a button's custom id belongs to a poll (the check of
/// `interaction_create`): it starts with `poll`.
pub fn is_poll_button(custom_id: &str) -> (b: bool)
    ensures
        b == (custom_id@.len() >= 4 && custom_id@.take(4) == poll_prefix()),
{
    let v = chars_of(custom_id);
    proof {
        reveal_strlit("poll");
    }
    let b = v.len() >= 4 && v[0] == 'p' && v[1] == 'o' && v[2] == 'l' && v[3] == 'l';
    proof {
        if v.len() >= 4 {
            if b {
                assert(custom_id@.take(4) =~= poll_prefix());
            } else {
                assert(custom_id@.take(4) != poll_prefix()) by {
                    if custom_id@.take(4) == poll_prefix() {
                        assert(custom_id@.take(4)[0] == 'p');
                        assert(custom_id@.take(4)[1] == 'o');
                        assert(custom_id@.take(4)[2] == 'l');
                        assert(custom_id@.take(4)[3] == 'l');
                    }
                }
            }
        }
    }
    b
}

/// The poll id and the minimum age in days that a poll button's custom id
/// `poll:<id>:<days>` holds; `None` where it holds fewer parts or they are
/// no numbers.
pub open spec fn poll_parameters_spec(custom_id: Seq<char>) -> Option<(u64, i64)> {
    let parts = split_char(custom_id, ':');
    if parts.len() < 3 {
        None
    } else {
        match (parse_unsigned(parts[1], u64::MAX as nat), parse_i64_spec(parts[2])) {
            (Some(id), Some(age)) => Some((id as u64, age as i64)),
            _ => None,
        }
    }
}

/// The parameters of a poll button (what `handle_poll` parses).
pub fn poll_parameters(custom_id: &str) -> (r: Option<(u64, i64)>)
    ensures
        r == poll_parameters_spec(custom_id@),
{
    let v = chars_of(custom_id);
    let parts = split_on_char(v.as_slice(), ':');
    let ghost pv = strings_view(parts@);
    if parts.len() < 3 {
        return None;
    }
    let a = chars_of(parts[1].as_str());
    let b = chars_of(parts[2].as_str());
    assert(pv[1] == parts@[1]@);
    assert(pv[2] == parts@[2]@);
    match (parse_unsigned_chars(a.as_slice(), u64::MAX), parse_i64_chars(b.as_slice())) {
        (Some(id), Some(age)) => Some((id, age)),
        _ => None,
    }
}

/// The largest number of days a minimum age may have.
pub open spec fn max_age_days() -> int {
    106_751_991_167
}

/// Whether a member who joined at `joined_secs` seconds and `joined_subsec`
/// nanoseconds may vote at `now`: they joined at least `min_age` days ago.
pub open spec fn poll_eligible_spec(
    joined_secs: i64,
    joined_subsec: u32,
    now_secs: i64,
    now_subsec: u32,
    min_age: i64,
) -> bool {
    joined_secs * 1_000_000_000 + joined_subsec <= (now_secs - min_age * 86_400) * 1_000_000_000
        + now_subsec
}

/// Whether a member may vote (the check of `handle_poll`).
pub fn poll_eligible(
    joined_secs: i64,
    joined_subsec: u32,
    now_secs: i64,
    now_subsec: u32,
    min_age: i64,
) -> (b: bool)
    requires
        0 <= now_secs <= latest_now(),
        -max_age_days() <= min_age <= max_age_days(),
        -latest_now() <= now_secs - min_age * 86_400 <= latest_now(),
        joined_subsec < 1_000_000_000,
        now_subsec < 1_000_000_000,
    ensures
        b == poll_eligible_spec(joined_secs, joined_subsec, now_secs, now_subsec, min_age),
{
    let joined: i128 = (joined_secs as i128) * 1_000_000_000 + (joined_subsec as i128);
    let start: i128 = (now_secs as i128) - (min_age as i128) * 86_400;
    let limit: i128 = start * 1_000_000_000 + (now_subsec as i128);
    joined <= limit
}

/// The hex digit of a value below 16, in lowercase.
pub open spec fn hex_digit(d: nat) -> char {
    if d < 10 {
        digit_char(d)
    } else if d == 10 {
        'a'
    } else if d == 11 {
        'b'
    } else if d == 12 {
        'c'
    } else if d == 13 {
        'd'
    } else if d == 14 {
        'e'
    } else {
        'f'
    }
}

/// Bytes in lowercase hex, two digits each (`hex::encode`).
pub open spec fn hex_of(data: Seq<u8>) -> Seq<char>
    decreases data.len(),
{
    if data.len() == 0 {
        seq![]
    } else {
        hex_of(data.drop_last()).push(hex_digit((data.last() / 16) as nat)).push(
            hex_digit((data.last() % 16) as nat),
        )
    }
}

proof fn lemma_hex_of_len(data: Seq<u8>)
    ensures
        hex_of(data).len() == 2 * data.len(),
    decreases data.len(),
{
    if data.len() > 0 {
        lemma_hex_of_len(data.drop_last());
    }
}

/// The SHA3-256 digest of bytes.
pub uninterp spec fn sha3_digest(data: Seq<u8>) -> Seq<u8>;

/// `sha3::Sha3_256`: the digest of the data, 32 bytes long.
#[verifier::external_body]
fn sha3_256(data: &[u8]) -> (r: Vec<u8>)
    ensures
        r@ == sha3_digest(data@),
        r@.len() == 32,
{
    <sha3::Sha3_256 as sha3::Digest>::digest(data).to_vec()
}

/// `hex::encode`: the bytes in lowercase hex.
#[verifier::external_body]
fn hex_encode(data: &[u8]) -> (s: String)
    ensures
        s@ == hex_of(data@),
{
    hex::encode(data)
}

/// The ASCII bytes of a text of ASCII characters.
pub open spec fn ascii_bytes(s: Seq<char>) -> Seq<u8> {
    s.map_values(|c: char| c as u8)
}

/// The anonymous voter id of a user: the first seven hex digits of the
/// SHA3-256 digest of the user id in decimal.
pub open spec fn voter_id_spec(user_id: u64) -> Seq<char> {
    hex_of(sha3_digest(ascii_bytes(decimal(user_id as nat)))).take(7)
}

/// The anonymous voter id that `handle_poll` sends to the API.
pub fn voter_id(user_id: u64) -> (s: String)
    ensures
        s@ == voter_id_spec(user_id),
        s@.len() == 7,
{
    let digits = decimal_string(user_id);
    let cs = chars_of(digits.as_str());
    let mut bytes: Vec<u8> = Vec::new();
    let mut i: usize = 0;
    while i < cs.len()
        invariant
            i <= cs.len(),
            bytes@ =~= cs@.take(i as int).map_values(|c: char| c as u8),
        decreases cs.len() - i,
    {
        bytes.push(cs[i] as u8);
        assert(cs@.take(i + 1) =~= cs@.take(i as int).push(cs@[i as int]));
        assert(cs@.take(i + 1).map_values(|c: char| c as u8) =~= cs@.take(i as int).map_values(|c: char| c as u8).push(cs@[i as int] as u8));
        i += 1;
    }
    assert(cs@.take(cs.len() as int) =~= cs@);
    let digest = sha3_256(bytes.as_slice());
    let hex = hex_encode(digest.as_slice());
    proof {
        lemma_hex_of_len(digest@);
    }
    let hv = chars_of(hex.as_str());
    crate::text::string_of_range(hv.as_slice(), 0, 7)
}

/// What came of asking the API for a voting token.
pub enum PollAuth {
    /// The member may not vote; the API was not asked.
    NotEligible,
    /// The API gave a token.
    Token(String),
    /// The request failed, with the HTTP status where there was one.
    Failed(Option<u16>),
}

/// The reply to a voter: a link to vote, where there is a token, and an
/// embed that says how it went.
pub struct PollReply {
    pub vote_url: Option<String>,
    pub embed: EmbedContent,
}

/// The HTTP status with which the API refuses a second vote.
pub const PRECONDITION_FAILED: u16 = 412;

/// The message of a failed vote.
pub open spec fn poll_error(auth: PollAuth) -> Seq<char> {
    match auth {
        PollAuth::NotEligible => "You are not eligible to vote on this poll."@,
        PollAuth::Failed(Some(412)) => "You can only vote once."@,
        _ => "API Request failed. Please try again later."@,
    }
}

/// The reply to a voter (what `handle_poll` answers), in the configured
/// color with the voter's avatar.
pub fn poll_reply(auth: &PollAuth, color: i32, face: &String) -> (r: PollReply)
    ensures
        match *auth {
            PollAuth::Token(t) => {
                &&& r.vote_url matches Some(u) && u@ == "https://revanced.app/polling#"@ + t@
                &&& r.embed@ == (EmbedContentView {
                    title: Some("Cast your vote"@),
                    description: Some("You can now vote on the poll."@),
                    color: Some(color),
                    fields: seq![],
                    footer: None,
                    image_url: None,
                    thumbnail_url: Some(face@),
                    author: None,
                })
            },
            _ => {
                &&& r.vote_url is None
                &&& r.embed@ == (EmbedContentView {
                    title: Some("Error"@),
                    description: Some(poll_error(*auth)),
                    color: Some(color),
                    fields: seq![],
                    footer: None,
                    image_url: None,
                    thumbnail_url: Some(face@),
                    author: None,
                })
            },
        },
{
    let (url, title, description) = match auth {
        PollAuth::Token(t) => {
            let mut u = "https://revanced.app/polling#".to_owned();
            push_str(&mut u, t.as_str());
            (Some(u), "Cast your vote".to_owned(), "You can now vote on the poll.".to_owned())
        },
        PollAuth::NotEligible => (None, "Error".to_owned(), "You are not eligible to vote on this poll.".to_owned()),
        PollAuth::Failed(status) => {
            let d = match status {
                Some(s) => if *s == PRECONDITION_FAILED {
                    "You can only vote once.".to_owned()
                } else {
                    "API Request failed. Please try again later.".to_owned()
                },
                None => "API Request failed. Please try again later.".to_owned(),
            };
            (None, "Error".to_owned(), d)
        },
    };
    let embed = EmbedContent {
        title: Some(title),
        description: Some(description),
        color: Some(color),
        fields: Vec::new(),
        footer: None,
        image_url: None,
        thumbnail_url: Some(face.clone()),
        author: None,
    };
    assert(embed@.fields =~= Seq::<crate::utils::EmbedFieldView>::empty());
    PollReply { vote_url: url, embed }
}

} // verus!
