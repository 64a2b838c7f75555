//! Finding code links in a message and turning code previews into the
//! files that the bot attaches to its reply.
use vstd::prelude::*;

use crate::text::{
    chars_of, find_char_from, find_sub_from, index_of_char, is_first_index_of,
    is_first_occurrence, lemma_index_of_char_found, lemma_index_of_char_none, occurs_at, opt_view,
    push_char, push_str, string_of_range, strings_view,
};
use crate::utils::code_embed::url_parser::{
    url_parse, CodePreview, CodePreviewView, CodeUrlView, GitHubCodeUrl, WebUrl, WebUrlView,
};

verus! {

/// The text that starts a link.
pub open spec fn http_pattern() -> Seq<char> {
    seq!['h', 't', 't', 'p']
}

/// Where a link that starts `rest` ends: at the first space, or at the end.
pub open spec fn link_end(rest: Seq<char>) -> int {
    match index_of_char(rest, ' ') {
        Some(k) => k,
        None => rest.len() as int,
    }
}

pub proof fn lemma_link_end_bounds(s: Seq<char>, start: int)
    requires
        is_first_occurrence(s, http_pattern(), start),
    ensures
        1 <= link_end(s.skip(start)) <= s.len() - start,
{
    let rest = s.skip(start);
    assert(s.subrange(start, start + 4)[0] == 'h');
    assert(rest[0] == 'h');
    if exists|i: int| is_first_index_of(rest, ' ', i) {
        let k = choose|i: int| is_first_index_of(rest, ' ', i);
        assert(is_first_index_of(rest, ' ', k));
    } else {
        assert forall|j: int| 0 <= j < rest.len() implies #[trigger] rest[j] != ' ' by {
            if rest[j] == ' ' {
                crate::text::lemma_first_index_exists(rest, ' ', j);
            }
        }
    }
}

/// The candidate links of a text: each runs from an occurrence of `http`
/// to the next space or the end; the search goes on from that space.
pub open spec fn http_candidates(s: Seq<char>) -> Seq<Seq<char>>
    decreases s.len(),
{
    if exists|i: int| is_first_occurrence(s, http_pattern(), i) {
        let start = choose|i: int| is_first_occurrence(s, http_pattern(), i);
        let end = start + link_end(s.skip(start));
        proof {
            lemma_link_end_bounds(s, start);
        }
        seq![s.subrange(start, end)] + http_candidates(s.skip(end))
    } else {
        seq![]
    }
}

proof fn lemma_occurs_shift(s: Seq<char>, pat: Seq<char>, pos: int, j: int)
    requires
        0 <= pos <= s.len(),
        0 <= j,
    ensures
        occurs_at(s.skip(pos), pat, j) <==> occurs_at(s, pat, pos + j),
{
    if j + pat.len() <= s.len() - pos {
        assert(s.skip(pos).subrange(j, j + pat.len()) =~= s.subrange(pos + j, pos + j + pat.len()));
    }
}

proof fn lemma_first_occurrence_shift(s: Seq<char>, pat: Seq<char>, pos: int, start: int)
    requires
        0 <= pos <= start,
        occurs_at(s, pat, start),
        forall|j: int| pos <= j < start ==> !occurs_at(s, pat, j),
    ensures
        is_first_occurrence(s.skip(pos), pat, start - pos),
{
    lemma_occurs_shift(s, pat, pos, start - pos);
    assert forall|j: int| 0 <= j < start - pos implies !occurs_at(s.skip(pos), pat, j) by {
        lemma_occurs_shift(s, pat, pos, j);
    }
}

proof fn lemma_candidates_step(s: Seq<char>, start: int, end: int)
    requires
        is_first_occurrence(s, http_pattern(), start),
        end == start + link_end(s.skip(start)),
    ensures
        http_candidates(s) == seq![s.subrange(start, end)] + http_candidates(s.skip(end)),
{
    crate::text::lemma_find_sub_found(s, http_pattern(), start);
    let k = choose|i: int| is_first_occurrence(s, http_pattern(), i);
    assert(is_first_occurrence(s, http_pattern(), k));
    assert(k == start);
}

/// The candidate links of a message text.
pub fn http_url_candidates(text: &str) -> (r: Vec<String>)
    ensures
        strings_view(r@) == http_candidates(text@),
{
    let v = chars_of(text);
    let mut pat: Vec<char> = Vec::new();
    pat.push('h');
    pat.push('t');
    pat.push('t');
    pat.push('p');
    assert(pat@ =~= http_pattern());
    let mut out: Vec<String> = Vec::new();
    let mut pos: usize = 0;
    assert(v@.skip(0) =~= v@);
    assert(strings_view(out@) + http_candidates(v@) =~= http_candidates(v@));
    loop
        invariant
            pos <= v.len(),
            v@ == text@,
            pat@ == http_pattern(),
            strings_view(out@) + http_candidates(v@.skip(pos as int)) == http_candidates(text@),
        decreases v.len() - pos,
    {
        let ghost rest = v@.skip(pos as int);
        match find_sub_from(v.as_slice(), pat.as_slice(), pos) {
            None => {
                proof {
                    assert forall|j: int| 0 <= j implies !occurs_at(rest, http_pattern(), j) by {
                        lemma_occurs_shift(v@, http_pattern(), pos as int, j);
                    }
                    assert(!exists|i: int| is_first_occurrence(rest, http_pattern(), i));
                    assert(strings_view(out@) + http_candidates(rest) =~= strings_view(out@));
                }
                return out;
            },
            Some(start) => {
                let end = match find_char_from(v.as_slice(), ' ', start) {
                    Some(k) => k,
                    None => v.len(),
                };
                proof {
                    lemma_first_occurrence_shift(v@, http_pattern(), pos as int, start as int);
                    let tail = v@.skip(start as int);
                    assert(rest.skip(start - pos) =~= tail);
                    if end < v.len() {
                        assert(is_first_index_of(tail, ' ', end - start));
                        lemma_index_of_char_found(tail, ' ', end - start);
                    } else {
                        lemma_index_of_char_none(tail, ' ');
                    }
                    assert(end - pos == (start - pos) + link_end(rest.skip(start - pos)));
                    lemma_candidates_step(rest, start - pos, end - pos);
                    assert(rest.subrange(start - pos, end - pos) =~= v@.subrange(
                        start as int,
                        end as int,
                    ));
                    assert(rest.skip(end - pos) =~= v@.skip(end as int));
                }
                let url = string_of_range(v.as_slice(), start, end);
                let ghost before = out@;
                out.push(url);
                proof {
                    assert(strings_view(out@) =~= strings_view(before).push(url@));
                    assert(strings_view(out@) + http_candidates(v@.skip(end as int)) =~= strings_view(
                        before,
                    ) + http_candidates(rest));
                }
                pos = end;
            },
        }
    }
}

/// The URLs among the candidates that the URL parser accepts, in order.
pub open spec fn parsed_urls(cands: Seq<Seq<char>>) -> Seq<WebUrlView>
    decreases cands.len(),
{
    if cands.len() == 0 {
        seq![]
    } else {
        let prev = parsed_urls(cands.drop_last());
        match url_parse(cands.last()) {
            Some(u) => prev.push(u),
            None => prev,
        }
    }
}

pub open spec fn code_urls_view(v: Seq<GitHubCodeUrl>) -> Seq<WebUrlView> {
    v.map_values(|c: GitHubCodeUrl| c.url@)
}

/// The GitHub code URLs that a message text links to: each candidate link
/// that parses as a URL.
pub fn find_code_urls(text: &str) -> (r: Vec<GitHubCodeUrl>)
    ensures
        code_urls_view(r@) == parsed_urls(http_candidates(text@)),
{
    let cands = http_url_candidates(text);
    let ghost cv = strings_view(cands@);
    let mut out: Vec<GitHubCodeUrl> = Vec::new();
    let mut i: usize = 0;
    assert(cv.take(0) =~= Seq::<Seq<char>>::empty());
    assert(code_urls_view(out@) =~= Seq::<WebUrlView>::empty());
    while i < cands.len()
        invariant
            i <= cands.len(),
            cv == strings_view(cands@),
            code_urls_view(out@) == parsed_urls(cv.take(i as int)),
        decreases cands.len() - i,
    {
        assert(cv.take(i + 1).drop_last() =~= cv.take(i as int));
        assert(cv.take(i + 1).last() == cands@[i as int]@);
        let ghost before = out@;
        match WebUrl::parse(cands[i].as_str()) {
            Some(url) => {
                out.push(GitHubCodeUrl { url });
                assert(code_urls_view(out@) =~= code_urls_view(before).push(url@));
            },
            None => {},
        }
        i += 1;
    }
    assert(cv.take(cands.len() as int) =~= cv);
    out
}

/// The name of the file that holds a preview: the branch or SHA, a dot and
/// the language, `txt` where there is none.
pub open spec fn attachment_name(c: CodeUrlView) -> Seq<char> {
    c.branch_or_sha + seq!['.'] + match c.language {
        Some(l) => l,
        None => "txt"@,
    }
}

/// The files attached for the previews: a name and the preview, for each
/// preview that holds code, in order.
pub open spec fn preview_files(ps: Seq<CodePreviewView>) -> Seq<(Seq<char>, Seq<char>)>
    decreases ps.len(),
{
    if ps.len() == 0 {
        seq![]
    } else {
        let prev = preview_files(ps.drop_last());
        match ps.last().preview {
            Some(p) => prev.push((attachment_name(ps.last().code), p)),
            None => prev,
        }
    }
}

pub open spec fn previews_view(v: Seq<CodePreview>) -> Seq<CodePreviewView> {
    v.map_values(|p: CodePreview| p@)
}

pub open spec fn files_view(v: Seq<(String, String)>) -> Seq<(Seq<char>, Seq<char>)> {
    v.map_values(|f: (String, String)| (f.0@, f.1@))
}

/// The files to attach to the reply: for each preview with code, its file
/// name and content.
pub fn preview_attachments(previews: &Vec<CodePreview>) -> (r: Vec<(String, String)>)
    ensures
        files_view(r@) == preview_files(previews_view(previews@)),
{
    let ghost pv = previews_view(previews@);
    let mut out: Vec<(String, String)> = Vec::new();
    let mut i: usize = 0;
    assert(pv.take(0) =~= Seq::<CodePreviewView>::empty());
    assert(files_view(out@) =~= Seq::<(Seq<char>, Seq<char>)>::empty());
    while i < previews.len()
        invariant
            i <= previews.len(),
            pv == previews_view(previews@),
            files_view(out@) == preview_files(pv.take(i as int)),
        decreases previews.len() - i,
    {
        assert(pv.take(i + 1).drop_last() =~= pv.take(i as int));
        assert(pv.take(i + 1).last() == previews@[i as int]@);
        let p = &previews[i];
        let ghost before = out@;
        match &p.preview {
            Some(content) => {
                let mut name = p.code.branch_or_sha.clone();
                push_char(&mut name, '.');
                match &p.code.language {
                    Some(l) => push_str(&mut name, l.as_str()),
                    None => push_str(&mut name, "txt"),
                }
                assert(name@ =~= attachment_name(p.code@));
                let file = (name, content.clone());
                out.push(file);
                assert(files_view(out@) =~= files_view(before).push((file.0@, file.1@)));
            },
            None => {},
        }
        i += 1;
    }
    assert(pv.take(previews.len() as int) =~= pv);
    out
}


proof fn lemma_link_shape(s: Seq<char>, start: int)
    requires
        is_first_occurrence(s, http_pattern(), start),
    ensures
        4 <= link_end(s.skip(start)) <= s.len() - start,
        forall|j: int| 0 <= j < link_end(s.skip(start)) ==> #[trigger] s.skip(start)[j] != ' ',
{
    let rest = s.skip(start);
    assert(rest.take(4) =~= s.subrange(start, start + 4));
    assert forall|j: int| 0 <= j < 4 implies rest[j] != ' ' by {
        assert(rest[j] == s.subrange(start, start + 4)[j]);
    }
    if exists|i: int| is_first_index_of(rest, ' ', i) {
        let k = choose|i: int| is_first_index_of(rest, ' ', i);
        assert(is_first_index_of(rest, ' ', k));
    } else {
        assert forall|j: int| 0 <= j < rest.len() implies #[trigger] rest[j] != ' ' by {
            if rest[j] == ' ' {
                crate::text::lemma_first_index_exists(rest, ' ', j);
            }
        }
    }
}

/// Every candidate link starts with `http` and holds no space.
pub proof fn law_http_candidates_shape(s: Seq<char>, i: int)
    requires
        0 <= i < http_candidates(s).len(),
    ensures
        http_candidates(s)[i].len() >= 4,
        http_candidates(s)[i].take(4) == http_pattern(),
        forall|j: int| 0 <= j < http_candidates(s)[i].len() ==> #[trigger] http_candidates(s)[i][j] != ' ',
    decreases s.len(),
{
    if exists|k: int| is_first_occurrence(s, http_pattern(), k) {
        let start = choose|k: int| is_first_occurrence(s, http_pattern(), k);
        let end = start + link_end(s.skip(start));
        lemma_link_shape(s, start);
        let c = s.subrange(start, end);
        if i == 0 {
            assert(http_candidates(s)[0] == c);
            assert(c.take(4) =~= s.subrange(start, start + 4));
            assert forall|j: int| 0 <= j < c.len() implies #[trigger] c[j] != ' ' by {
                assert(c[j] == s.skip(start)[j]);
            }
        } else {
            assert(http_candidates(s)[i] == http_candidates(s.skip(end))[i - 1]);
            law_http_candidates_shape(s.skip(end), i - 1);
        }
    }
}

} // verus!
