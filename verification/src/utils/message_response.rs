//! Message responses: triggers that decide which configured responses
//! answer a message, and the replies they make.
use std::collections::HashSet;
use vstd::prelude::*;

use crate::model::application::{Configuration, EmbedView, Response};
use crate::text::opt_view;
use crate::utils::{create_embed, spec_create_embed, EmbedContent, EmbedContentView};

verus! {

#[verifier::external_type_specification]
#[verifier::external_body]
pub struct ExRegex(regex::Regex);

/// Whether `regex::Regex::new` accepts the pattern.
pub uninterp spec fn regex_compiles(pattern: Seq<char>) -> bool;

/// Whether the regular expression compiled from the pattern matches
/// somewhere in the text (`regex::Regex::is_match`).
pub uninterp spec fn regex_finds(pattern: Seq<char>, text: Seq<char>) -> bool;

/// A compiled regular expression, with the pattern it was compiled from.
pub struct Pattern {
    source: String,
    compiled: regex::Regex,
}

/// Compiles a pattern with `regex::Regex::new`. The contract says when the
/// compilation succeeds (a name for it) and that the pattern is kept.
#[verifier::external_body]
fn compile_pattern(source: String) -> (r: Option<Pattern>)
    ensures
        r is Some <==> regex_compiles(source@),
        r matches Some(p) ==> p.source() == source@,
{
    match regex::Regex::new(&source) {
        Ok(compiled) => Some(Pattern { source, compiled }),
        Err(_) => None,
    }
}

/// Runs `regex::Regex::is_match` on the text. A `Pattern` is only ever made
/// by `compile_pattern`, so its regex is the one compiled from its source.
#[verifier::external_body]
fn pattern_is_match(p: &Pattern, text: &str) -> (b: bool)
    ensures
        b == regex_finds(p.source(), text@),
{
    p.compiled.is_match(text)
}

impl Pattern {
    /// The pattern the regular expression was compiled from.
    pub closed spec fn source(&self) -> Seq<char> {
        self.source@
    }

    /// Compiles a pattern; `None` where it is not a valid regular expression.
    pub fn new(source: String) -> (r: Option<Pattern>)
        ensures
            r is Some <==> regex_compiles(source@),
            r matches Some(p) ==> p.source() == source@,
    {
        compile_pattern(source)
    }

    /// The pattern the regular expression was compiled from.
    pub fn as_str(&self) -> (s: &str)
        ensures
            s@ == self.source(),
    {
        self.source.as_str()
    }

    /// Whether the expression matches somewhere in the text.
    pub fn is_match(&self, text: &str) -> (b: bool)
        ensures
            b == regex_finds(self.source(), text@),
    {
        pattern_is_match(self, text)
    }
}

/// A trigger: the channels and roles it is limited to, and the patterns
/// of which one must match.
pub struct Trigger {
    pub channels: Option<HashSet<u64>>,
    pub roles: Option<HashSet<u64>>,
    pub regex: Vec<Pattern>,
}


pub struct TriggerView {
    pub channels: Option<Set<u64>>,
    pub roles: Option<Set<u64>>,
    pub regex: Seq<Seq<char>>,
}

pub open spec fn patterns_view(v: Seq<Pattern>) -> Seq<Seq<char>> {
    v.map_values(|p: Pattern| p.source())
}

pub open spec fn opt_set_view(o: Option<HashSet<u64>>) -> Option<Set<u64>> {
    match o {
        Some(h) => Some(h@),
        None => None,
    }
}

impl View for Trigger {
    type V = TriggerView;

    open spec fn view(&self) -> TriggerView {
        TriggerView {
            channels: opt_set_view(self.channels),
            roles: opt_set_view(self.roles),
            regex: patterns_view(self.regex@),
        }
    }
}

/// A trigger matches a message when the message is in one of its channels
/// (if it names channels), its author has one of its roles (if it names
/// roles), and one of its patterns matches the text.
pub open spec fn trigger_matches(
    t: TriggerView,
    channel_id: u64,
    content: Seq<char>,
    member_roles: Seq<u64>,
) -> bool {
    &&& (t.channels matches Some(cs) ==> cs.contains(channel_id))
    &&& (t.roles matches Some(rs) ==> exists|i: int|
        0 <= i < member_roles.len() && rs.contains(#[trigger] member_roles[i]))
    &&& exists|j: int| 0 <= j < t.regex.len() && #[trigger] regex_finds(t.regex[j], content)
}

impl Trigger {
    /// Whether the trigger matches a message in `channel_id` with the text
    /// `content`, written by a member with `member_roles`.
    pub fn matches(&self, channel_id: u64, content: &str, member_roles: &[u64]) -> (b: bool)
        ensures
            b == trigger_matches(self@, channel_id, content@, member_roles@),
    {
        broadcast use vstd::std_specs::hash::group_hash_axioms;
        if let Some(channels) = &self.channels {
            if !channels.contains(&channel_id) {
                return false;
            }
        }
        if let Some(roles) = &self.roles {
            let mut i: usize = 0;
            let mut found = false;
            while i < member_roles.len()
                invariant
                    i <= member_roles.len(),
                    self.roles == Some(*roles),
                    found <==> exists|k: int|
                        0 <= k < i && roles@.contains(#[trigger] member_roles@[k]),
                decreases member_roles.len() - i,
            {
                if roles.contains(&member_roles[i]) {
                    found = true;
                }
                i += 1;
            }
            if !found {
                return false;
            }
        }
        let mut j: usize = 0;
        while j < self.regex.len()
            invariant
                j <= self.regex.len(),
                self@.channels matches Some(cs) ==> cs.contains(channel_id),
                self@.roles matches Some(rs) ==> exists|i: int|
                    0 <= i < member_roles@.len() && rs.contains(#[trigger] member_roles@[i]),
                forall|k: int| 0 <= k < j ==> !#[trigger] regex_finds(self@.regex[k], content@),
            decreases self.regex.len() - j,
        {
            if self.regex[j].is_match(content) {
                assert(self@.regex[j as int] == self.regex@[j as int].source());
                return true;
            }
            j += 1;
        }
        false
    }
}

/// A message that the bot received, as far as responses read it.
pub struct IncomingMessage {
    pub id: u64,
    pub channel_id: u64,
    pub guild_id: Option<u64>,
    pub author_is_bot: bool,
    pub content: String,
    pub member_roles: Vec<u64>,
    pub referenced_message_id: Option<u64>,
}

/// A reply that a response makes.
pub struct OutgoingResponse {
    /// The message the reply refers to.
    pub reference: u64,
    pub embed: Option<EmbedContent>,
    pub content: Option<String>,
}

pub struct OutgoingResponseView {
    pub reference: u64,
    pub embed: Option<EmbedContentView>,
    pub content: Option<Seq<char>>,
}

impl View for OutgoingResponse {
    type V = OutgoingResponseView;

    open spec fn view(&self) -> OutgoingResponseView {
        OutgoingResponseView {
            reference: self.reference,
            embed: match self.embed {
                Some(e) => Some(e@),
                None => None,
            },
            content: opt_view(self.content),
        }
    }
}

/// Whether a response answers a message: its whitelist (if any) matches
/// and its blacklist (if any) does not.
pub open spec fn response_applies(r: Response, m: IncomingMessage) -> bool {
    &&& (r.whitelist matches Some(w) ==> trigger_matches(
        w@,
        m.channel_id,
        m.content@,
        m.member_roles@,
    ))
    &&& (r.blacklist matches Some(b) ==> !trigger_matches(
        b@,
        m.channel_id,
        m.content@,
        m.member_roles@,
    ))
}

/// The reply a response makes to a message: it refers to the message the
/// message replies to, else to the message itself.
pub open spec fn reply_of(default_embed: EmbedView, r: Response, m: IncomingMessage) -> OutgoingResponseView {
    OutgoingResponseView {
        reference: match m.referenced_message_id {
            Some(id) => id,
            None => m.id,
        },
        embed: match r.message.embed {
            Some(e) => Some(spec_create_embed(e@, default_embed)),
            None => None,
        },
        content: opt_view(r.message.content),
    }
}

/// The replies of the responses that apply, in order.
pub open spec fn replies(default_embed: EmbedView, rs: Seq<Response>, m: IncomingMessage) -> Seq<
    OutgoingResponseView,
>
    decreases rs.len(),
{
    if rs.len() == 0 {
        seq![]
    } else {
        let prev = replies(default_embed, rs.drop_last(), m);
        if response_applies(rs.last(), m) {
            prev.push(reply_of(default_embed, rs.last(), m))
        } else {
            prev
        }
    }
}

pub open spec fn outgoing_view(v: Seq<OutgoingResponse>) -> Seq<OutgoingResponseView> {
    v.map_values(|o: OutgoingResponse| o@)
}

/// The replies that the configured responses make to a message. Messages
/// outside a server and messages of bots get none.
pub fn handle_message_response(configuration: &Configuration, message: &IncomingMessage) -> (r:
    Vec<OutgoingResponse>)
    ensures
        message.guild_id is None || message.author_is_bot ==> r@.len() == 0,
        message.guild_id is Some && !message.author_is_bot ==> outgoing_view(r@) == replies(
            configuration.default_embed@,
            configuration.responses@,
            *message,
        ),
{
    let mut out: Vec<OutgoingResponse> = Vec::new();
    if message.guild_id.is_none() || message.author_is_bot {
        return out;
    }
    let rs = &configuration.responses;
    let mut i: usize = 0;
    assert(rs@.take(0) =~= Seq::<Response>::empty());
    assert(outgoing_view(out@) =~= Seq::<OutgoingResponseView>::empty());
    while i < rs.len()
        invariant
            i <= rs.len(),
            rs == configuration.responses,
            outgoing_view(out@) == replies(configuration.default_embed@, rs@.take(i as int), *message),
        decreases rs.len() - i,
    {
        let response = &rs[i];
        assert(rs@.take(i + 1).drop_last() =~= rs@.take(i as int));
        assert(rs@.take(i + 1).last() == rs@[i as int]);
        let mut applies = true;
        if let Some(whitelist) = &response.whitelist {
            if !whitelist.matches(message.channel_id, message.content.as_str(), message.member_roles.as_slice()) {
                applies = false;
            }
        }
        if let Some(blacklist) = &response.blacklist {
            if blacklist.matches(message.channel_id, message.content.as_str(), message.member_roles.as_slice()) {
                applies = false;
            }
        }
        if applies {
            let reference = match message.referenced_message_id {
                Some(id) => id,
                None => message.id,
            };
            let embed = match &response.message.embed {
                Some(e) => Some(create_embed(configuration, e)),
                None => None,
            };
            let content = match &response.message.content {
                Some(c) => Some(c.clone()),
                None => None,
            };
            let reply = OutgoingResponse { reference, embed, content };
            let ghost before = out@;
            assert(reply@ == reply_of(configuration.default_embed@, *response, *message));
            out.push(reply);
            assert(outgoing_view(out@) =~= outgoing_view(before).push(reply@));
        }
        i += 1;
    }
    assert(rs@.take(rs.len() as int) =~= rs@);
    out
}


/// A response whose blacklist matches a message, or whose whitelist does
/// not, does not answer it; a response with neither list answers every
/// message.
pub proof fn law_response_lists(r: Response, m: IncomingMessage)
    ensures
        r.blacklist matches Some(b) && trigger_matches(b@, m.channel_id, m.content@, m.member_roles@)
            ==> !response_applies(r, m),
        r.whitelist matches Some(w) && !trigger_matches(w@, m.channel_id, m.content@, m.member_roles@)
            ==> !response_applies(r, m),
        r.whitelist is None && r.blacklist is None ==> response_applies(r, m),
{
}

/// A trigger matches a message in one of its channels (or in any channel,
/// where it names none), with text that one of its patterns finds, from a
/// member who holds any one of its roles (or from anyone, where it names
/// none), wherever that role stands among the member's roles. It matches
/// no message outside its channels, none without a matching pattern, and
/// none from a member without one of its roles; the order of the member's
/// roles does not matter.
pub proof fn law_trigger_any_role(
    t: Trigger,
    channel_id: u64,
    content: Seq<char>,
    member_roles: Seq<u64>,
    other_roles: Seq<u64>,
    i: int,
    j: int,
)
    ensures
        ({
            &&& (t@.channels matches Some(cs) ==> cs.contains(channel_id))
            &&& 0 <= j < t@.regex.len() && regex_finds(t@.regex[j], content)
            &&& (t@.roles matches Some(rs) ==> 0 <= i < member_roles.len() && rs.contains(member_roles[i]))
        }) ==> trigger_matches(t@, channel_id, content, member_roles),
        (t@.channels matches Some(cs) && !cs.contains(channel_id)) ==> !trigger_matches(t@, channel_id, content, member_roles),
        (forall|k: int| 0 <= k < t@.regex.len() ==> !#[trigger] regex_finds(t@.regex[k], content))
            ==> !trigger_matches(t@, channel_id, content, member_roles),
        (t@.roles matches Some(rs) && forall|k: int| 0 <= k < member_roles.len() ==> !rs.contains(#[trigger] member_roles[k]))
            ==> !trigger_matches(t@, channel_id, content, member_roles),
        trigger_matches(t@, channel_id, content, member_roles + other_roles)
            == trigger_matches(t@, channel_id, content, other_roles + member_roles),
{
    if 0 <= j < t@.regex.len() && regex_finds(t@.regex[j], content) {
        assert(regex_finds(t@.regex[j], content));
    }
    if 0 <= i < member_roles.len() {
        assert(member_roles[i] == member_roles[i]);
    }
    let a = member_roles + other_roles;
    let b = other_roles + member_roles;
    if let Some(rs) = t@.roles {
        assert((exists|k: int| 0 <= k < a.len() && rs.contains(#[trigger] a[k]))
            == (exists|k: int| 0 <= k < b.len() && rs.contains(#[trigger] b[k]))) by {
            if exists|k: int| 0 <= k < a.len() && rs.contains(#[trigger] a[k]) {
                let k = choose|k: int| 0 <= k < a.len() && rs.contains(#[trigger] a[k]);
                if k < member_roles.len() {
                    assert(b[other_roles.len() + k] == a[k]);
                } else {
                    assert(b[k - member_roles.len()] == a[k]);
                }
            }
            if exists|k: int| 0 <= k < b.len() && rs.contains(#[trigger] b[k]) {
                let k = choose|k: int| 0 <= k < b.len() && rs.contains(#[trigger] b[k]);
                if k < other_roles.len() {
                    assert(a[member_roles.len() + k] == b[k]);
                } else {
                    assert(a[k - other_roles.len()] == b[k]);
                }
            }
        }
    }
}

} // verus!
