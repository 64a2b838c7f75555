//! Purging: which recent messages of a channel the purge command deletes,
//! page by page, and when it stops.
use vstd::prelude::*;

use crate::model::application::Footer;
use crate::text::{chars_of, decimal, decimal_string, opt_view, parse_unsigned, parse_unsigned_chars};
use crate::utils::moderation::field_view;
use crate::utils::{embed_fields_view, EmbedContent, EmbedContentView, EmbedField};

verus! {

/// The number of pages without deletions after which a purge stops.
pub const MAX_PAGES: i8 = 2;

/// The number of messages a purge deletes where the command gives none.
pub const MAX_BULK_DELETE: i64 = 100;

/// The age in seconds from which Discord refuses to bulk-delete messages.
pub const MAX_BULK_DELETE_AGO_SECS: i64 = 1_209_600;

/// A message on a page of a channel's history, newest first.
#[derive(Clone, Copy, PartialEq, Eq, Structural)]
pub struct PurgeMessage {
    pub id: u64,
    pub author_id: u64,
    /// When the message was sent, in seconds since 1970.
    pub timestamp: i64,
}

/// What a purge deletes.
#[derive(Clone, Copy, PartialEq, Eq, Structural)]
pub struct PurgeSettings {
    /// Only messages of this user, if given.
    pub user_id: Option<u64>,
    /// How many messages to delete.
    pub count_to_delete: usize,
    /// Only messages newer than this one, if given.
    pub until: Option<u64>,
    /// Only messages sent after this time.
    pub too_old: i64,
}

/// How far a purge has got.
#[derive(Clone, Copy, PartialEq, Eq, Structural)]
pub struct PurgeState {
    pub deleted: usize,
    pub empty_pages: i8,
}

/// The settings of a purge of `count` messages (100 where not given) of
/// `user` (anyone where not given), newer than the message `until` (where
/// given as a number), at `now` seconds since 1970.
pub fn purge_settings(user: Option<u64>, count: Option<i64>, until: &Option<String>, now: i64) -> (r: PurgeSettings)
    requires
        now >= i64::MIN + MAX_BULK_DELETE_AGO_SECS,
    ensures
        r.user_id == user,
        r.count_to_delete == (match count {
            Some(c) => c,
            None => MAX_BULK_DELETE,
        }) as usize,
        r.until == match *until {
            Some(t) => match parse_unsigned(t@, u64::MAX as nat) {
                Some(x) => Some(x as u64),
                None => None,
            },
            None => None,
        },
        r.too_old == now - MAX_BULK_DELETE_AGO_SECS,
{
    let c = match count {
        Some(c) => c,
        None => MAX_BULK_DELETE,
    };
    let until_id = match until {
        Some(t) => {
            let v = chars_of(t.as_str());
            parse_unsigned_chars(v.as_slice(), u64::MAX)
        },
        None => None,
    };
    PurgeSettings {
        user_id: user,
        count_to_delete: c as usize,
        until: until_id,
        too_old: now - MAX_BULK_DELETE_AGO_SECS,
    }
}

/// The number of leading messages sent after `too_old`.
pub open spec fn recent_count(page: Seq<PurgeMessage>, too_old: i64) -> nat
    decreases page.len(),
{
    if page.len() == 0 || page[0].timestamp <= too_old {
        0
    } else {
        1 + recent_count(page.drop_first(), too_old)
    }
}

/// The number of leading messages newer than the message `until`.
pub open spec fn newer_count(page: Seq<PurgeMessage>, until: u64) -> nat
    decreases page.len(),
{
    if page.len() == 0 || page[0].id <= until {
        0
    } else {
        1 + newer_count(page.drop_first(), until)
    }
}

/// The messages of a page that a purge deletes: those before the first one
/// that is too old; of them, those of the user (if given); of them, those
/// before the first one not newer than `until` (if given).
pub open spec fn purge_selection(s: PurgeSettings, page: Seq<PurgeMessage>) -> Seq<PurgeMessage> {
    let recent = page.take(recent_count(page, s.too_old) as int);
    let mine = match s.user_id {
        Some(u) => recent.filter(|m: PurgeMessage| m.author_id == u),
        None => recent,
    };
    match s.until {
        Some(t) => mine.take(newer_count(mine, t) as int),
        None => mine,
    }
}

/// How many more messages a purge may delete: what is left of the count.
pub open spec fn purge_left(s: PurgeSettings, st: PurgeState) -> nat {
    if st.deleted < s.count_to_delete {
        (s.count_to_delete - st.deleted) as nat
    } else {
        0
    }
}

/// The messages of a page that a purge deletes: the selection of the page,
/// cut to what is left of the count.
pub open spec fn purge_deletion(s: PurgeSettings, st: PurgeState, page: Seq<PurgeMessage>) -> Seq<PurgeMessage> {
    let sel = purge_selection(s, page);
    if sel.len() <= purge_left(s, st) {
        sel
    } else {
        sel.take(purge_left(s, st) as int)
    }
}

/// The state after a page: the count of deletions grows by the messages
/// deleted, or the count of empty pages by one where there were none.
pub open spec fn next_state(st: PurgeState, deleted_now: nat) -> PurgeState {
    if deleted_now > 0 {
        PurgeState { deleted: (st.deleted + deleted_now) as usize, empty_pages: st.empty_pages }
    } else {
        PurgeState { deleted: st.deleted, empty_pages: (st.empty_pages + 1) as i8 }
    }
}

/// Whether a purge stops in this state.
pub open spec fn purge_done(s: PurgeSettings, st: PurgeState) -> bool {
    st.empty_pages >= MAX_PAGES || st.deleted >= s.count_to_delete
}

/// One page of a purge: the messages to delete, the new state and whether
/// the purge stops.
pub struct PurgeStep {
    pub delete: Vec<u64>,
    pub state: PurgeState,
    pub done: bool,
}

proof fn lemma_recent_count_step(page: Seq<PurgeMessage>, too_old: i64, i: int)
    requires
        0 <= i < page.len(),
        page[i].timestamp > too_old,
    ensures
        recent_count(page.skip(i), too_old) == 1 + recent_count(page.skip(i + 1), too_old),
{
    assert(page.skip(i).drop_first() =~= page.skip(i + 1));
}

proof fn lemma_newer_count_step(page: Seq<PurgeMessage>, until: u64, i: int)
    requires
        0 <= i < page.len(),
        page[i].id > until,
    ensures
        newer_count(page.skip(i), until) == 1 + newer_count(page.skip(i + 1), until),
{
    assert(page.skip(i).drop_first() =~= page.skip(i + 1));
}

/// Handles one page of a purge (a round of the `purge` loop).
pub fn purge_page(settings: &PurgeSettings, state: &PurgeState, page: &Vec<PurgeMessage>) -> (r: PurgeStep)
    requires
        state.deleted + page.len() <= usize::MAX,
        state.empty_pages < i8::MAX,
    ensures
        r.delete@ == purge_deletion(*settings, *state, page@).map_values(|m: PurgeMessage| m.id),
        r.state == next_state(*state, purge_deletion(*settings, *state, page@).len()),
        r.done == purge_done(*settings, r.state),
        state.deleted <= settings.count_to_delete ==> r.state.deleted <= settings.count_to_delete,
{
    let ghost pv = page@;
    // Messages sent after the limit, up to the first that is not.
    let mut k: usize = 0;
    assert(pv.skip(0) =~= pv);
    while k < page.len() && page[k].timestamp > settings.too_old
        invariant
            k <= page.len(),
            pv == page@,
            recent_count(pv, settings.too_old) == k + recent_count(pv.skip(k as int), settings.too_old),
        decreases page.len() - k,
    {
        proof {
            lemma_recent_count_step(pv, settings.too_old, k as int);
        }
        k += 1;
    }
    assert(recent_count(pv.skip(k as int), settings.too_old) == 0);
    let ghost recent = pv.take(k as int);
    // Of them, the messages of the user.
    let mut mine: Vec<PurgeMessage> = Vec::new();
    let mut i: usize = 0;
    while i < k
        invariant
            i <= k <= page.len(),
            pv == page@,
            recent == pv.take(k as int),
            mine@ == match settings.user_id {
                Some(u) => recent.take(i as int).filter(|m: PurgeMessage| m.author_id == u),
                None => recent.take(i as int),
            },
        decreases k - i,
    {
        let m = page[i];
        assert(recent.take(i + 1).drop_last() =~= recent.take(i as int));
        assert(recent.take(i + 1) =~= recent.take(i as int).push(m));
        reveal(Seq::filter);
        match settings.user_id {
            Some(u) => {
                if m.author_id == u {
                    mine.push(m);
                }
            },
            None => {
                mine.push(m);
            },
        }
        i += 1;
    }
    assert(recent.take(k as int) =~= recent);
    let ghost mv = mine@;
    // Of them, the messages newer than `until`.
    let n = match settings.until {
        Some(t) => {
            let mut j: usize = 0;
            assert(mv.skip(0) =~= mv);
            while j < mine.len() && mine[j].id > t
                invariant
                    j <= mine.len(),
                    mv == mine@,
                    newer_count(mv, t) == j + newer_count(mv.skip(j as int), t),
                decreases mine.len() - j,
            {
                proof {
                    lemma_newer_count_step(mv, t, j as int);
                }
                j += 1;
            }
            assert(newer_count(mv.skip(j as int), t) == 0);
            j
        },
        None => mine.len(),
    };
    let ghost selected = purge_selection(*settings, pv);
    assert(selected =~= mv.take(n as int));
    // At most what is left of the count.
    let left: usize = if state.deleted < settings.count_to_delete {
        settings.count_to_delete - state.deleted
    } else {
        0
    };
    let n = if n <= left {
        n
    } else {
        left
    };
    assert(purge_deletion(*settings, *state, pv) =~= mv.take(n as int));
    let mut delete: Vec<u64> = Vec::new();
    let mut x: usize = 0;
    while x < n
        invariant
            x <= n <= mine.len(),
            mv == mine@,
            delete@ =~= mv.take(x as int).map_values(|m: PurgeMessage| m.id),
        decreases n - x,
    {
        delete.push(mine[x].id);
        assert(mv.take(x + 1) =~= mv.take(x as int).push(mine@[x as int]));
        assert(mv.take(x + 1).map_values(|m: PurgeMessage| m.id) =~= mv.take(x as int).map_values(|m: PurgeMessage| m.id).push(mine@[x as int].id));
        x += 1;
    }
    proof {
        lemma_filter_len_le(recent, settings.user_id);
    }
    let new_state = if n > 0 {
        PurgeState { deleted: state.deleted + n, empty_pages: state.empty_pages }
    } else {
        PurgeState { deleted: state.deleted, empty_pages: state.empty_pages + 1 }
    };
    let done = new_state.empty_pages >= MAX_PAGES || new_state.deleted >= settings.count_to_delete;
    PurgeStep { delete, state: new_state, done }
}

proof fn lemma_filter_len_le(s: Seq<PurgeMessage>, user: Option<u64>)
    ensures
        match user {
            Some(u) => s.filter(|m: PurgeMessage| m.author_id == u).len() <= s.len(),
            None => true,
        },
    decreases s.len(),
{
    reveal(Seq::filter);
    if let Some(u) = user {
        if s.len() > 0 {
            lemma_filter_len_le(s.drop_last(), user);
        }
    }
}

/// The state a purge starts in.
pub fn purge_start() -> (r: PurgeState)
    ensures
        r == (PurgeState { deleted: 0, empty_pages: 0 }),
{
    PurgeState { deleted: 0, empty_pages: 0 }
}

/// The embed shown while a purge runs.
pub fn purge_progress_embed(color: i32, image: &String) -> (e: EmbedContent)
    ensures
        e@ == (EmbedContentView {
            title: Some("Purging messages"@),
            description: Some("Accumulating..."@),
            color: Some(color),
            fields: seq![],
            footer: None,
            image_url: None,
            thumbnail_url: Some(image@),
            author: None,
        }),
{
    let e = EmbedContent {
        title: Some("Purging messages".to_owned()),
        description: Some("Accumulating...".to_owned()),
        color: Some(color),
        fields: Vec::new(),
        footer: None,
        image_url: None,
        thumbnail_url: Some(image.clone()),
        author: None,
    };
    assert(e@.fields =~= Seq::<crate::utils::EmbedFieldView>::empty());
    e
}

/// The embed that reports a finished purge.
pub fn purge_report(deleted: usize, author_mention: &String, color: i32, image: &String) -> (e: EmbedContent)
    ensures
        e@.title == Some("Purge successful"@),
        e@.description is None,
        e@.color == Some(color),
        e@.fields == seq![
            field_view("Deleted messages"@, decimal(deleted as nat), false),
            field_view("Action by"@, author_mention@, false),
        ],
        e@.thumbnail_url == Some(image@),
        e@.footer == Some(crate::model::application::FooterView { text: "ReVanced"@, icon_url: Some(image@) }),
        e@.image_url is None,
        e@.author is None,
{
    let mut fields: Vec<EmbedField> = Vec::new();
    fields.push(EmbedField { name: "Deleted messages".to_owned(), value: decimal_string(deleted as u64), inline: false });
    fields.push(EmbedField { name: "Action by".to_owned(), value: author_mention.clone(), inline: false });
    let e = EmbedContent {
        title: Some("Purge successful".to_owned()),
        description: None,
        color: Some(color),
        fields,
        footer: Some(Footer { text: "ReVanced".to_owned(), icon_url: Some(image.clone()) }),
        image_url: None,
        thumbnail_url: Some(image.clone()),
        author: None,
    };
    assert(embed_fields_view(e.fields@) =~= seq![
        field_view("Deleted messages"@, decimal(deleted as nat), false),
        field_view("Action by"@, author_mention@, false),
    ]);
    e
}


// ---------------------------------------------------------------------------
// Laws
// ---------------------------------------------------------------------------

proof fn lemma_recent_prefix(page: Seq<PurgeMessage>, too_old: i64, i: int)
    requires
        0 <= i < recent_count(page, too_old),
    ensures
        page[i].timestamp > too_old,
    decreases page.len(),
{
    lemma_recent_count_le(page, too_old);
    if i > 0 {
        lemma_recent_prefix(page.drop_first(), too_old, i - 1);
        assert(page.drop_first()[i - 1] == page[i]);
    }
}

proof fn lemma_recent_count_le(page: Seq<PurgeMessage>, too_old: i64)
    ensures
        recent_count(page, too_old) <= page.len(),
    decreases page.len(),
{
    if page.len() > 0 && page[0].timestamp > too_old {
        lemma_recent_count_le(page.drop_first(), too_old);
    }
}

proof fn lemma_newer_prefix(page: Seq<PurgeMessage>, until: u64, i: int)
    requires
        0 <= i < newer_count(page, until),
    ensures
        page[i].id > until,
    decreases page.len(),
{
    lemma_newer_count_le(page, until);
    if i > 0 {
        lemma_newer_prefix(page.drop_first(), until, i - 1);
        assert(page.drop_first()[i - 1] == page[i]);
    }
}

proof fn lemma_newer_count_le(page: Seq<PurgeMessage>, until: u64)
    ensures
        newer_count(page, until) <= page.len(),
    decreases page.len(),
{
    if page.len() > 0 && page[0].id > until {
        lemma_newer_count_le(page.drop_first(), until);
    }
}

/// A purge deletes only messages of the page that are younger than the
/// limit (fourteen days before the purge, see `purge_settings`), that the
/// given user wrote, and that are newer than the given message.
pub proof fn law_purge_selects_recent(s: PurgeSettings, page: Seq<PurgeMessage>, i: int)
    requires
        0 <= i < purge_selection(s, page).len(),
    ensures
        page.contains(purge_selection(s, page)[i]),
        purge_selection(s, page)[i].timestamp > s.too_old,
        s.user_id matches Some(u) ==> purge_selection(s, page)[i].author_id == u,
        s.until matches Some(t) ==> purge_selection(s, page)[i].id > t,
{
    broadcast use vstd::seq_lib::group_seq_properties;
    let k = recent_count(page, s.too_old);
    lemma_recent_count_le(page, s.too_old);
    let recent = page.take(k as int);
    let mine = match s.user_id {
        Some(u) => recent.filter(|m: PurgeMessage| m.author_id == u),
        None => recent,
    };
    let x = purge_selection(s, page)[i];
    match s.until {
        Some(t) => {
            lemma_newer_count_le(mine, t);
            assert(x == mine[i]);
            lemma_newer_prefix(mine, t, i);
        },
        None => {
            assert(x == mine[i]);
        },
    }
    match s.user_id {
        Some(u) => {
            let p = |m: PurgeMessage| m.author_id == u;
            recent.lemma_filter_pred(p, i);
            assert(recent.filter(p).contains(x));
            recent.lemma_filter_contains_rev(p, x);
            let j = choose|j: int| 0 <= j < recent.len() && recent[j] == x;
            lemma_recent_prefix(page, s.too_old, j);
            assert(page[j] == x);
        },
        None => {
            lemma_recent_prefix(page, s.too_old, i);
            assert(page[i] == x);
        },
    }
}

/// A purge never deletes more messages than asked: each page deletes a part
/// of its selection (the first ones), and no more than is left of the count.
pub proof fn law_purge_respects_count(s: PurgeSettings, st: PurgeState, page: Seq<PurgeMessage>)
    requires
        st.deleted <= s.count_to_delete,
        st.deleted + page.len() <= usize::MAX,
        st.empty_pages < i8::MAX,
    ensures
        purge_deletion(s, st, page).len() <= purge_left(s, st),
        purge_deletion(s, st, page) == purge_selection(s, page).take(purge_deletion(s, st, page).len() as int),
        next_state(st, purge_deletion(s, st, page).len()).deleted <= s.count_to_delete,
{
    let sel = purge_selection(s, page);
    if sel.len() <= purge_left(s, st) {
        assert(sel.take(sel.len() as int) =~= sel);
    }
}

/// Each page of a purge makes progress: it deletes messages or counts one
/// more empty page; and a purge that goes on has deleted fewer messages
/// than asked and met fewer empty pages than the limit.
pub proof fn law_purge_progress(s: PurgeSettings, st: PurgeState, deleted_now: nat)
    requires
        st.deleted + deleted_now <= usize::MAX,
        st.empty_pages < i8::MAX,
    ensures
        next_state(st, deleted_now).deleted > st.deleted || next_state(st, deleted_now).empty_pages
            == st.empty_pages + 1,
        next_state(st, deleted_now).deleted >= st.deleted,
        next_state(st, deleted_now).empty_pages >= st.empty_pages,
        !purge_done(s, next_state(st, deleted_now)) ==> next_state(st, deleted_now).empty_pages
            < MAX_PAGES && next_state(st, deleted_now).deleted < s.count_to_delete,
{
}

} // verus!
