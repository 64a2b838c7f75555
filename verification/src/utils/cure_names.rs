//! Curing member names: the nickname the bot gives a member whose name is
//! hard to read, mention or is offensive.
use vstd::prelude::*;

use crate::model::application::CensorConfiguration;
use crate::text::{chars_of, opt_view, str_eq, string_of, strings_view};

verus! {

#[verifier::external_type_specification]
#[verifier::external_body]
pub struct ExCensor(censor::Censor);

/// The words that a censor filters (`censor::Censor::set`).
pub uninterp spec fn censor_words(c: censor::Censor) -> Set<Seq<char>>;

/// Whether a censor with the given words finds a censored word in a text
/// (`censor::Censor::check`).
pub uninterp spec fn censor_finds(words: Set<Seq<char>>, text: Seq<char>) -> bool;

/// What `decancer::cure` makes of a text.
pub uninterp spec fn decancered(text: Seq<char>) -> Seq<char>;

/// What `str::to_lowercase` makes of a text.
pub uninterp spec fn lowercase(text: Seq<char>) -> Seq<char>;

/// The words of the standard censor (`censor::STANDARD_WORDS`).
pub open spec fn standard_words() -> Set<Seq<char>> {
    set![
        "ass"@,
        "asshole"@,
        "bitch"@,
        "cock"@,
        "cunt"@,
        "fag"@,
        "fagot"@,
        "faggot"@,
        "fuck"@,
        "nigger"@,
        "piss"@,
        "pussy"@,
        "shit"@,
        "twat"@,
        "whore"@,
    ]
}

/// The standard censor, `censor::Censor::Standard`, whose words
/// (`Censor::set`) are the standard words.
#[verifier::external_body]
fn standard_censor() -> (r: censor::Censor)
    ensures
        censor_words(r) == standard_words(),
{
    censor::Censor::Standard
}

/// Adds a word to a censor (`censor::Censor`'s `+=` with a string): the
/// censor's words with the word inserted.
#[verifier::external_body]
fn censor_add(c: censor::Censor, word: &String) -> (r: censor::Censor)
    ensures
        censor_words(r) == censor_words(c).insert(word@),
{
    let mut c = c;
    c += word;
    c
}

/// Removes a word from a censor (`censor::Censor`'s `-=` with a string):
/// the censor's words without the word.
#[verifier::external_body]
fn censor_remove(c: censor::Censor, word: &String) -> (r: censor::Censor)
    ensures
        censor_words(r) == censor_words(c).remove(word@),
{
    let mut c = c;
    c -= word;
    c
}

/// `censor::Censor::check`: whether the censor finds a censored word in the
/// text; a function of the censor's words and the text.
#[verifier::external_body]
fn censor_check(c: &censor::Censor, text: &str) -> (b: bool)
    ensures
        b == censor_finds(censor_words(*c), text@),
{
    c.check(text)
}

/// `decancer::cure`: the text with look-alike characters replaced.
#[verifier::external_body]
fn decancer_cure(text: &str) -> (r: String)
    ensures
        r@ == decancered(text@),
{
    decancer::cure(text).into_str()
}

/// `str::to_lowercase`.
#[verifier::external_body]
fn to_lowercase(text: &str) -> (r: String)
    ensures
        r@ == lowercase(text@),
{
    text.to_lowercase()
}

/// The words of a censor after adding words and then removing words.
pub open spec fn censor_edits(
    base: Set<Seq<char>>,
    additions: Seq<Seq<char>>,
    removals: Seq<Seq<char>>,
) -> Set<Seq<char>> {
    Set::new(|w: Seq<char>| (base.contains(w) || additions.contains(w)) && !removals.contains(w))
}

/// Adds the additions to a censor, then removes the removals.
pub fn apply_censor_edits(base: censor::Censor, additions: &Vec<String>, removals: &Vec<String>) -> (r:
    censor::Censor)
    ensures
        censor_words(r) == censor_edits(censor_words(base), strings_view(additions@), strings_view(removals@)),
{
    let ghost b = censor_words(base);
    let ghost av = strings_view(additions@);
    let ghost rv = strings_view(removals@);
    let mut c = base;
    let mut i: usize = 0;
    assert(censor_words(c) =~= Set::new(|w: Seq<char>| b.contains(w) || av.take(0).contains(w)));
    while i < additions.len()
        invariant
            i <= additions.len(),
            av == strings_view(additions@),
            censor_words(c) == Set::new(|w: Seq<char>| b.contains(w) || av.take(i as int).contains(w)),
        decreases additions.len() - i,
    {
        let ghost before = censor_words(c);
        c = censor_add(c, &additions[i]);
        proof {
            assert(av.take(i + 1) =~= av.take(i as int).push(additions@[i as int]@));
            assert forall|w: Seq<char>| #[trigger] av.take(i + 1).contains(w) == (av.take(i as int).contains(w) || additions@[i as int]@ == w) by {
                crate::text::lemma_contains_push(av.take(i as int), additions@[i as int]@, w);
            }
            assert(censor_words(c) =~= Set::new(|w: Seq<char>| b.contains(w) || av.take(i + 1).contains(w)));
        }
        i += 1;
    }
    assert(av.take(additions.len() as int) =~= av);
    let mut j: usize = 0;
    assert(censor_words(c) =~= Set::new(|w: Seq<char>| (b.contains(w) || av.contains(w)) && !rv.take(0).contains(w)));
    while j < removals.len()
        invariant
            j <= removals.len(),
            av == strings_view(additions@),
            rv == strings_view(removals@),
            censor_words(c) == Set::new(|w: Seq<char>| (b.contains(w) || av.contains(w)) && !rv.take(j as int).contains(w)),
        decreases removals.len() - j,
    {
        c = censor_remove(c, &removals[j]);
        proof {
            assert(rv.take(j + 1) =~= rv.take(j as int).push(removals@[j as int]@));
            assert forall|w: Seq<char>| #[trigger] rv.take(j + 1).contains(w) == (rv.take(j as int).contains(w) || removals@[j as int]@ == w) by {
                crate::text::lemma_contains_push(rv.take(j as int), removals@[j as int]@, w);
            }
            assert(censor_words(c) =~= Set::new(|w: Seq<char>| (b.contains(w) || av.contains(w)) && !rv.take(j + 1).contains(w)));
        }
        j += 1;
    }
    assert(rv.take(removals.len() as int) =~= rv);
    assert(censor_words(c) =~= censor_edits(b, av, rv));
    c
}

/// The censor of the configuration: the standard censor with the
/// configured words added, then the configured removals removed.
pub fn init_censor(configuration: &CensorConfiguration) -> (r: censor::Censor)
    ensures
        censor_words(r) == censor_edits(
            standard_words(),
            strings_view(configuration.additions@),
            strings_view(configuration.removals@),
        ),
        forall|w: Seq<char>| #[trigger] strings_view(configuration.removals@).contains(w) ==> !censor_words(r).contains(w),
        forall|w: Seq<char>|
            #[trigger] strings_view(configuration.additions@).contains(w) && !strings_view(configuration.removals@).contains(w)
                ==> censor_words(r).contains(w),
{
    apply_censor_edits(standard_censor(), &configuration.additions, &configuration.removals)
}

/// The characters a cured name keeps: space, `-`, `_` and ASCII letters and digits.
pub open spec fn kept_in_name(c: char) -> bool {
    c == ' ' || c == '-' || c == '_' || ('a' <= c && c <= 'z') || ('A' <= c && c <= 'Z') || ('0' <= c && c <= '9')
}

/// An ASCII letter.
pub open spec fn is_ascii_letter(c: char) -> bool {
    ('a' <= c && c <= 'z') || ('A' <= c && c <= 'Z')
}

/// The name that replaces names that cannot be cured.
pub open spec fn fallback_name() -> Seq<char> {
    "ReVanced member"@
}

/// The cured form of a name: decancered, with only the kept characters;
/// the fallback name where that is empty, does not start with a letter, or
/// the censor finds a censored word in it.
pub open spec fn cured_name(name: Seq<char>, words: Set<Seq<char>>) -> Seq<char> {
    let kept = decancered(name).filter(|c: char| kept_in_name(c));
    if kept.len() == 0 || !is_ascii_letter(kept[0]) || censor_finds(words, kept) {
        fallback_name()
    } else {
        kept
    }
}

/// The nickname the bot gives a member: none for bots, none where the name
/// did not change, none where the lowercase name is its cured form already;
/// else the cured form.
pub open spec fn cure_decision(
    is_bot: bool,
    old_name: Option<Seq<char>>,
    name: Seq<char>,
    words: Set<Seq<char>>,
) -> Option<Seq<char>> {
    if is_bot {
        None
    } else if old_name == Some(name) {
        None
    } else if lowercase(name) == cured_name(name, words) {
        None
    } else {
        Some(cured_name(name, words))
    }
}

/// The nickname to give a member with display name `name` (`old_name` is
/// the display name before the update, where known); `None` where the
/// member keeps their name.
pub fn cure(is_bot: bool, old_name: &Option<String>, name: &String, censor: &censor::Censor) -> (r: Option<String>)
    ensures
        opt_view(r) == cure_decision(is_bot, opt_view(*old_name), name@, censor_words(*censor)),
{
    if is_bot {
        return None;
    }
    if let Some(old) = old_name {
        if str_eq(old.as_str(), name.as_str()) {
            return None;
        }
    }
    let cured = decancer_cure(name.as_str());
    let chars = chars_of(cured.as_str());
    let mut kept: Vec<char> = Vec::new();
    let mut i: usize = 0;
    while i < chars.len()
        invariant
            i <= chars.len(),
            chars@ == decancered(name@),
            kept@ == chars@.take(i as int).filter(|c: char| kept_in_name(c)),
        decreases chars.len() - i,
    {
        let c = chars[i];
        assert(chars@.take(i + 1).drop_last() =~= chars@.take(i as int));
        reveal(Seq::filter);
        if c == ' ' || c == '-' || c == '_' || ('a' <= c && c <= 'z') || ('A' <= c && c <= 'Z') || ('0' <= c && c <= '9') {
            kept.push(c);
        }
        i += 1;
    }
    assert(chars@.take(chars.len() as int) =~= chars@);
    let candidate = string_of(kept.as_slice());
    let fallback = kept.len() == 0 || !(('a' <= kept[0] && kept[0] <= 'z') || ('A' <= kept[0] && kept[0] <= 'Z'))
        || censor_check(censor, candidate.as_str());
    let cured_name_str = if fallback {
        "ReVanced member".to_owned()
    } else {
        candidate
    };
    let lower = to_lowercase(name.as_str());
    if str_eq(lower.as_str(), cured_name_str.as_str()) {
        return None;
    }
    Some(cured_name_str)
}


/// A nickname that the bot gives is readable: it is the fallback name, or
/// it starts with an ASCII letter and holds only ASCII letters, digits,
/// spaces, `-` and `_`. Bots are never renamed, and no member is renamed
/// to the lowercase form of their own name.
pub proof fn law_cured_names_are_clean(is_bot: bool, old_name: Option<Seq<char>>, name: Seq<char>, words: Set<Seq<char>>)
    ensures
        is_bot ==> cure_decision(is_bot, old_name, name, words) is None,
        cure_decision(is_bot, old_name, name, words) matches Some(c) ==> {
            &&& c != lowercase(name)
            &&& c == fallback_name() || (c.len() > 0 && is_ascii_letter(c[0]) && forall|i: int|
                0 <= i < c.len() ==> kept_in_name(#[trigger] c[i]))
        },
{
    let kept = decancered(name).filter(|c: char| kept_in_name(c));
    assert forall|i: int| 0 <= i < kept.len() implies kept_in_name(#[trigger] kept[i]) by {
        decancered(name).lemma_filter_pred(|c: char| kept_in_name(c), i);
    }
}

proof fn lemma_filter_keeps_all(s: Seq<char>)
    requires
        forall|i: int| 0 <= i < s.len() ==> kept_in_name(#[trigger] s[i]),
    ensures
        s.filter(|c: char| kept_in_name(c)) == s,
    decreases s.len(),
{
    reveal(Seq::filter);
    if s.len() > 0 {
        lemma_filter_keeps_all(s.drop_last());
        assert(s.drop_last().push(s.last()) =~= s);
    }
}

/// A name that decancer leaves readable is kept as it is: where its
/// decancered form starts with an ASCII letter, holds only ASCII letters,
/// digits, spaces, `-` and `_`, and holds no censored word, that form is
/// its cured name; and where that form is also the lowercase name, the
/// member is not renamed.
pub proof fn law_clean_names_are_kept(old_name: Option<Seq<char>>, name: Seq<char>, words: Set<Seq<char>>)
    ensures
        ({
            let d = decancered(name);
            &&& d.len() > 0
            &&& (('a' <= d[0] && d[0] <= 'z') || ('A' <= d[0] && d[0] <= 'Z'))
            &&& forall|i: int| 0 <= i < d.len() ==> {
                let c = #[trigger] d[i];
                c == ' ' || c == '-' || c == '_' || ('a' <= c && c <= 'z') || ('A' <= c && c <= 'Z')
                    || ('0' <= c && c <= '9')
            }
            &&& !censor_finds(words, d)
        }) ==> {
            &&& cured_name(name, words) == decancered(name)
            &&& (lowercase(name) == decancered(name) ==> cure_decision(false, old_name, name, words) is None)
        },
{
    let d = decancered(name);
    if d.len() > 0 && forall|i: int| 0 <= i < d.len() ==> {
        let c = #[trigger] d[i];
        c == ' ' || c == '-' || c == '_' || ('a' <= c && c <= 'z') || ('A' <= c && c <= 'Z')
            || ('0' <= c && c <= '9')
    } {
        assert forall|i: int| 0 <= i < d.len() implies kept_in_name(#[trigger] d[i]) by {
            let c = d[i];
            assert(c == ' ' || c == '-' || c == '_' || ('a' <= c && c <= 'z') || ('A' <= c && c <= 'Z')
                || ('0' <= c && c <= '9'));
        }
        lemma_filter_keeps_all(d);
    }
}

} // verus!
