//! Parsing of GitHub code links into the location of the raw code, the
//! selected lines and the language, and the building of a code preview.
use vstd::prelude::*;

use crate::text::{
    chars_of, decimal, decimal_string, join, join_range, lines_of, opt_view, parse_unsigned,
    parse_unsigned_chars, push_char, push_str, split_char, split_on_char, str_eq, strings_view,
    text_lines, trim_char, trim_char_bounds,
};

verus! {

// ---------------------------------------------------------------------------
// URLs
// ---------------------------------------------------------------------------

/// The parts of a parsed URL that code links are read from.
pub struct WebUrl {
    /// The whole URL as the URL parser serialises it.
    pub serialization: String,
    /// The domain, if the host is a domain.
    pub domain: Option<String>,
    /// The segments of the path, if the URL can be a base.
    pub path_segments: Option<Vec<String>>,
    /// The fragment after `#`, if any.
    pub fragment: Option<String>,
}

/// The mathematical value of a [`WebUrl`].
pub struct WebUrlView {
    pub serialization: Seq<char>,
    pub domain: Option<Seq<char>>,
    pub path_segments: Option<Seq<Seq<char>>>,
    pub fragment: Option<Seq<char>>,
}

pub open spec fn opt_strings_view(o: Option<Vec<String>>) -> Option<Seq<Seq<char>>> {
    match o {
        Some(v) => Some(strings_view(v@)),
        None => None,
    }
}

impl View for WebUrl {
    type V = WebUrlView;

    open spec fn view(&self) -> WebUrlView {
        WebUrlView {
            serialization: self.serialization@,
            domain: opt_view(self.domain),
            path_segments: opt_strings_view(self.path_segments),
            fragment: opt_view(self.fragment),
        }
    }
}

/// What `url::Url::parse` makes of a string: `None` where it refuses the
/// string, else the serialisation, domain, path segments and fragment of
/// the URL.
pub uninterp spec fn url_parse(input: Seq<char>) -> Option<WebUrlView>;

pub open spec fn opt_url_view(o: Option<WebUrl>) -> Option<WebUrlView> {
    match o {
        Some(u) => Some(u@),
        None => None,
    }
}

/// Parses a URL with `reqwest::Url::parse` (the `url` crate's parser) and
/// reads its serialisation, `domain()`, `path_segments()` and `fragment()`.
/// The contract only names the result: it is `url_parse` of the input.
#[verifier::external_body]
fn parse_url(input: &str) -> (r: Option<WebUrl>)
    ensures
        opt_url_view(r) == url_parse(input@),
{
    match reqwest::Url::parse(input) {
        Ok(u) => Some(WebUrl {
            serialization: u.as_str().to_string(),
            domain: u.domain().map(|d| d.to_string()),
            path_segments: u.path_segments().map(|s| s.map(|p| p.to_string()).collect()),
            fragment: u.fragment().map(|f| f.to_string()),
        }),
        Err(_) => None,
    }
}

impl WebUrl {
    /// Parses a URL.
    pub fn parse(input: &str) -> (r: Option<WebUrl>)
        ensures
            opt_url_view(r) == url_parse(input@),
    {
        parse_url(input)
    }
}

// ---------------------------------------------------------------------------
// Data
// ---------------------------------------------------------------------------

/// A GitHub code URL. Its domain has to be github.com.
pub struct GitHubCodeUrl {
    pub url: WebUrl,
}

/// Details on a piece of code.
pub struct CodeUrl {
    pub raw_code_url: String,
    pub original_code_url: String,
    pub repo: String,
    pub user: String,
    pub branch_or_sha: String,
    pub relevant_lines: Option<(usize, usize)>,
    pub language: Option<String>,
}

pub struct CodeUrlView {
    pub raw_code_url: Seq<char>,
    pub original_code_url: Seq<char>,
    pub repo: Seq<char>,
    pub user: Seq<char>,
    pub branch_or_sha: Seq<char>,
    pub relevant_lines: Option<(usize, usize)>,
    pub language: Option<Seq<char>>,
}

impl View for CodeUrl {
    type V = CodeUrlView;

    open spec fn view(&self) -> CodeUrlView {
        CodeUrlView {
            raw_code_url: self.raw_code_url@,
            original_code_url: self.original_code_url@,
            repo: self.repo@,
            user: self.user@,
            branch_or_sha: self.branch_or_sha@,
            relevant_lines: self.relevant_lines,
            language: opt_view(self.language),
        }
    }
}

/// Details on a piece of code and a preview of it.
pub struct CodePreview {
    pub code: CodeUrl,
    pub preview: Option<String>,
}

pub struct CodePreviewView {
    pub code: CodeUrlView,
    pub preview: Option<Seq<char>>,
}

impl View for CodePreview {
    type V = CodePreviewView;

    open spec fn view(&self) -> CodePreviewView {
        CodePreviewView { code: self.code@, preview: opt_view(self.preview) }
    }
}

/// Why a code URL could not be turned into a preview.
pub enum ParserError {
    Error(String),
    WrongParserError(String, String),
    ConversionError(String),
    InvalidFragment(String),
    FailedToGetCode(String),
}

pub enum ParserErrorView {
    Error(Seq<char>),
    WrongParserError(Seq<char>, Seq<char>),
    ConversionError(Seq<char>),
    InvalidFragment(Seq<char>),
    FailedToGetCode(Seq<char>),
}

impl View for ParserError {
    type V = ParserErrorView;

    open spec fn view(&self) -> ParserErrorView {
        match self {
            ParserError::Error(e) => ParserErrorView::Error(e@),
            ParserError::WrongParserError(a, b) => ParserErrorView::WrongParserError(a@, b@),
            ParserError::ConversionError(e) => ParserErrorView::ConversionError(e@),
            ParserError::InvalidFragment(e) => ParserErrorView::InvalidFragment(e@),
            ParserError::FailedToGetCode(e) => ParserErrorView::FailedToGetCode(e@),
        }
    }
}

/// The text that describes a parser error.
pub open spec fn parser_error_message(e: ParserErrorView) -> Seq<char> {
    match e {
        ParserErrorView::Error(e) => "Error: "@ + e,
        ParserErrorView::WrongParserError(expected, got) => "Expected parser "@ + expected
            + ", got "@ + got,
        ParserErrorView::ConversionError(e) => "Conversion error: "@ + e,
        ParserErrorView::InvalidFragment(f) => "Invalid fragment: "@ + f,
        ParserErrorView::FailedToGetCode(e) => "Failed to get code: "@ + e,
    }
}

impl ParserError {
    /// The text that describes this error.
    pub fn to_message(&self) -> (s: String)
        ensures
            s@ == parser_error_message(self@),
    {
        let (head, a, b): (&str, &String, Option<&String>) = match self {
            ParserError::Error(e) => ("Error: ", e, None),
            ParserError::WrongParserError(expected, got) => ("Expected parser ", expected, Some(
                got,
            )),
            ParserError::ConversionError(e) => ("Conversion error: ", e, None),
            ParserError::InvalidFragment(f) => ("Invalid fragment: ", f, None),
            ParserError::FailedToGetCode(e) => ("Failed to get code: ", e, None),
        };
        let mut s = head.to_owned();
        push_str(&mut s, a.as_str());
        if let Some(got) = b {
            push_str(&mut s, ", got ");
            push_str(&mut s, got.as_str());
        }
        s
    }
}

// ---------------------------------------------------------------------------
// Specification of the parser
// ---------------------------------------------------------------------------

/// The path after the branch: `/` and each non-empty segment, in order.
pub open spec fn segment_path(segs: Seq<Seq<char>>) -> Seq<char>
    decreases segs.len(),
{
    if segs.len() == 0 {
        seq![]
    } else if segs.last().len() == 0 {
        segment_path(segs.drop_last())
    } else {
        segment_path(segs.drop_last()) + seq!['/'] + segs.last()
    }
}

/// The extension of a file name (`Path::extension`): the text after the
/// last `.`, unless there is none, the name starts with its only `.`, or
/// the name is `.` or `..`.
pub open spec fn file_extension(name: Seq<char>) -> Option<Seq<char>> {
    if name == seq!['.'] || name == seq!['.', '.'] {
        None
    } else if exists|i: int| is_last_index_of(name, '.', i) {
        let i = choose|i: int| is_last_index_of(name, '.', i);
        if i == 0 {
            None
        } else {
            Some(name.skip(i + 1))
        }
    } else {
        None
    }
}

/// `i` is the last position of `c` in `s`.
pub open spec fn is_last_index_of(s: Seq<char>, c: char, i: int) -> bool {
    &&& 0 <= i < s.len()
    &&& s[i] == c
    &&& forall|j: int| i < j < s.len() ==> s[j] != c
}

/// The language of the code: the extension of the last non-empty segment.
pub open spec fn segments_language(segs: Seq<Seq<char>>) -> Option<Seq<char>>
    decreases segs.len(),
{
    if segs.len() == 0 {
        None
    } else if segs.last().len() == 0 {
        segments_language(segs.drop_last())
    } else {
        file_extension(segs.last())
    }
}

/// The line number that a piece of a fragment names: `L` trimmed from both
/// ends, then parsed as a `usize`.
pub open spec fn fragment_number(piece: Seq<char>) -> Option<nat> {
    parse_unsigned(trim_char(piece, 'L'), usize::MAX as nat)
}

/// The lines that a fragment such as `L3-L7` selects.
pub open spec fn fragment_lines(fragment: Option<Seq<char>>) -> Result<
    Option<(usize, usize)>,
    ParserErrorView,
> {
    match fragment {
        None => Ok(None),
        Some(f) => {
            let pieces = split_char(f, '-');
            if exists|i: int| 0 <= i < pieces.len() && #[trigger] fragment_number(pieces[i]) is None {
                Err(ParserErrorView::InvalidFragment(f))
            } else if pieces.len() > 2 {
                Err(ParserErrorView::InvalidFragment(f))
            } else {
                let start = fragment_number(pieces[0])->0 as usize;
                let end = fragment_number(pieces[pieces.len() - 1])->0 as usize;
                Ok(Some((start, end)))
            }
        },
    }
}

/// The raw code address of a GitHub file.
pub open spec fn raw_code_address(
    user: Seq<char>,
    repo: Seq<char>,
    branch: Seq<char>,
    path: Seq<char>,
) -> Seq<char> {
    "https://raw.githubusercontent.com/"@ + user + seq!['/'] + repo + seq!['/'] + branch + path
}

/// What a GitHub code URL says of the code it links to.
/// Its segments are: user, repository, `blob`, branch or SHA, then the path.
pub open spec fn spec_parse_code_url(u: WebUrlView) -> Result<CodeUrlView, ParserErrorView> {
    match u.path_segments {
        None => Err(ParserErrorView::ConversionError("Failed to convert path segments"@)),
        Some(segs) => if segs.len() < 1 {
            Err(ParserErrorView::ConversionError("Failed to parse user"@))
        } else if segs.len() < 2 {
            Err(ParserErrorView::ConversionError("Failed to parse repo"@))
        } else if segs.len() < 4 {
            Err(ParserErrorView::ConversionError("Failed to parse branch or sha"@))
        } else {
            match fragment_lines(u.fragment) {
                Err(e) => Err(e),
                Ok(lines) => Ok(
                    CodeUrlView {
                        raw_code_url: raw_code_address(
                            segs[0],
                            segs[1],
                            segs[3],
                            segment_path(segs.skip(4)),
                        ),
                        original_code_url: u.serialization,
                        repo: segs[1],
                        user: segs[0],
                        branch_or_sha: segs[3],
                        relevant_lines: lines,
                        language: segments_language(segs),
                    },
                ),
            }
        },
    }
}

/// The domain that the GitHub parser accepts.
pub open spec fn github_domain() -> Seq<char> {
    "github.com"@
}

/// The check that a URL belongs to the parser's domain.
pub open spec fn spec_check_domain(u: WebUrlView, kind: Seq<char>) -> Result<(), ParserErrorView> {
    match u.domain {
        Some(d) => if d == kind {
            Ok(())
        } else {
            Err(ParserErrorView::WrongParserError(kind, d))
        },
        None => Err(ParserErrorView::Error("No domain found"@)),
    }
}

/// The code block of a preview: the selected lines between fences, with
/// the language after the opening fence.
pub open spec fn code_block(language: Option<Seq<char>>, selected: Seq<Seq<char>>) -> Seq<char> {
    let head = match language {
        Some(l) => "```"@ + l + seq!['\n'],
        None => "```"@,
    };
    head + join(selected, seq!['\n']) + "```"@
}

/// The preview of downloaded code for a code URL.
pub open spec fn spec_preview(c: CodeUrlView, code: Seq<char>) -> Result<
    CodePreviewView,
    ParserErrorView,
> {
    match c.relevant_lines {
        None => Ok(CodePreviewView { code: c, preview: None }),
        Some((start, end)) => {
            let lines = text_lines(code);
            let s = start - 1;
            let e = end - 1;
            if s > e || s >= lines.len() || e >= lines.len() {
                Err(
                    ParserErrorView::InvalidFragment(
                        decimal(s as nat) + seq!['-'] + decimal(e as nat),
                    ),
                )
            } else {
                Ok(
                    CodePreviewView {
                        code: c,
                        preview: Some(code_block(c.language, lines.subrange(s, e + 1))),
                    },
                )
            }
        },
    }
}

pub open spec fn result_view<T: View, E: View>(r: Result<T, E>) -> Result<T::V, E::V> {
    match r {
        Ok(t) => Ok(t@),
        Err(e) => Err(e@),
    }
}


// ---------------------------------------------------------------------------
// Lemmas
// ---------------------------------------------------------------------------

proof fn lemma_last_index_unique(s: Seq<char>, c: char, i: int)
    requires
        is_last_index_of(s, c, i),
    ensures
        (choose|k: int| is_last_index_of(s, c, k)) == i,
{
    let k = choose|k: int| is_last_index_of(s, c, k);
    assert(is_last_index_of(s, c, k));
    if k < i {
        assert(s[i] != c);
    } else if k > i {
        assert(s[k] != c);
    }
}

// ---------------------------------------------------------------------------
// Parser
// ---------------------------------------------------------------------------

/// The path after the branch, from the segments at and after position 4.
fn segment_path_of(segs: &Vec<String>) -> (p: String)
    requires
        segs.len() >= 4,
    ensures
        p@ == segment_path(strings_view(segs@).skip(4)),
{
    let ghost sv = strings_view(segs@);
    let mut p = String::new();
    let mut i: usize = 4;
    assert(sv.subrange(4, 4) =~= Seq::<Seq<char>>::empty());
    while i < segs.len()
        invariant
            4 <= i <= segs.len(),
            sv == strings_view(segs@),
            p@ == segment_path(sv.subrange(4, i as int)),
        decreases segs.len() - i,
    {
        let ghost sub = sv.subrange(4, i + 1);
        assert(sub.drop_last() =~= sv.subrange(4, i as int));
        assert(sub.last() == segs@[i as int]@);
        let seg = segs[i].as_str();
        let n = chars_of(seg).len();
        if n != 0 {
            push_char(&mut p, '/');
            push_str(&mut p, seg);
            assert(p@ =~= segment_path(sv.subrange(4, i as int)) + seq!['/'] + sub.last());
        }
        i += 1;
    }
    assert(sv.subrange(4, segs.len() as int) =~= sv.skip(4));
    p
}

/// The extension of a file name (`Path::extension`).
fn file_extension_of(name: &str) -> (r: Option<String>)
    ensures
        opt_view(r) == file_extension(name@),
{
    let v = chars_of(name);
    if (v.len() == 1 && v[0] == '.') || (v.len() == 2 && v[0] == '.' && v[1] == '.') {
        proof {
            if v.len() == 1 {
                assert(name@ =~= seq!['.']);
            } else {
                assert(name@ =~= seq!['.', '.']);
            }
        }
        return None;
    }
    assert(name@ != seq!['.']) by {
        if name@ == seq!['.'] {
            assert(v@.len() == 1 && v@[0] == '.');
        }
    }
    assert(name@ != seq!['.', '.']) by {
        if name@ == seq!['.', '.'] {
            assert(v@.len() == 2 && v@[0] == '.' && v@[1] == '.');
        }
    }
    let mut j: usize = v.len();
    while j > 0 && v[j - 1] != '.'
        invariant
            j <= v.len(),
            v@ == name@,
            forall|k: int| j <= k < v.len() ==> v@[k] != '.',
        decreases j,
    {
        j -= 1;
    }
    if j == 0 {
        assert(!exists|i: int| is_last_index_of(name@, '.', i));
        return None;
    }
    let i = j - 1;
    assert(is_last_index_of(name@, '.', i as int));
    proof {
        lemma_last_index_unique(name@, '.', i as int);
    }
    if i == 0 {
        return None;
    }
    let ext = crate::text::string_of_range(v.as_slice(), i + 1, v.len());
    assert(ext@ =~= name@.skip(i + 1));
    Some(ext)
}

/// The language of the code: the extension of the last non-empty segment.
fn language_of(segs: &Vec<String>) -> (r: Option<String>)
    ensures
        opt_view(r) == segments_language(strings_view(segs@)),
{
    let ghost sv = strings_view(segs@);
    let mut j: usize = segs.len();
    assert(sv.take(j as int) =~= sv);
    while j > 0 && chars_of(segs[j - 1].as_str()).len() == 0
        invariant
            j <= segs.len(),
            sv == strings_view(segs@),
            segments_language(sv) == segments_language(sv.take(j as int)),
        decreases j,
    {
        assert(sv.take(j as int).drop_last() =~= sv.take(j - 1));
        j -= 1;
    }
    if j == 0 {
        return None;
    }
    assert(sv.take(j as int).last() == segs@[j - 1]@);
    file_extension_of(segs[j - 1].as_str())
}

/// The line number that a piece of a fragment names.
fn fragment_number_of(piece: &str) -> (r: Option<usize>)
    ensures
        r matches Some(n) ==> fragment_number(piece@) == Some(n as nat),
        r is None ==> fragment_number(piece@) is None,
{
    let v = chars_of(piece);
    let (a, b) = trim_char_bounds(v.as_slice(), 'L');
    let t = &v.as_slice()[a..b];
    assert(t@ =~= trim_char(piece@, 'L'));
    match parse_unsigned_chars(t, usize::MAX as u64) {
        Some(n) => Some(n as usize),
        None => None,
    }
}

/// The lines that a fragment selects.
fn fragment_lines_of(fragment: &Option<String>) -> (r: Result<Option<(usize, usize)>, ParserError>)
    ensures
        result_view_plain(r) == fragment_lines(opt_view(*fragment)),
{
    match fragment {
        None => Ok(None),
        Some(f) => {
            let v = chars_of(f.as_str());
            let pieces = split_on_char(v.as_slice(), '-');
            let ghost pv = strings_view(pieces@);
            proof {
                crate::text::lemma_split_char_nonempty(f@, '-');
            }
            let mut nums: Vec<usize> = Vec::new();
            let mut i: usize = 0;
            while i < pieces.len()
                invariant
                    i <= pieces.len(),
                    pv == strings_view(pieces@),
                    pv == split_char(f@, '-'),
                    opt_view(*fragment) == Some(f@),
                    nums.len() == i,
                    forall|k: int| 0 <= k < i ==> #[trigger] fragment_number(pv[k]) == Some(
                        nums@[k] as nat,
                    ),
                decreases pieces.len() - i,
            {
                match fragment_number_of(pieces[i].as_str()) {
                    Some(n) => {
                        nums.push(n);
                    },
                    None => {
                        assert(fragment_number(pv[i as int]) is None);
                        assert(exists|k: int|
                            0 <= k < pv.len() && #[trigger] fragment_number(pv[k]) is None);
                        return Err(ParserError::InvalidFragment(f.clone()));
                    },
                }
                i += 1;
            }
            assert(!exists|k: int| 0 <= k < pv.len() && #[trigger] fragment_number(pv[k]) is None);
            if nums.len() > 2 {
                return Err(ParserError::InvalidFragment(f.clone()));
            }
            let start = nums[0];
            let end = nums[nums.len() - 1];
            assert(fragment_number(pv[0]) == Some(start as nat));
            assert(fragment_number(pv[pv.len() - 1]) == Some(end as nat));
            Ok(Some((start, end)))
        },
    }
}

pub open spec fn result_view_plain<T>(r: Result<T, ParserError>) -> Result<T, ParserErrorView> {
    match r {
        Ok(t) => Ok(t),
        Err(e) => Err(e@),
    }
}


/// Parsers of code URLs.
pub trait CodeUrlParser {
    /// The domain that the parser accepts.
    fn kind(&self) -> &'static str;

    /// Reads the location of the code, the selected lines and the language
    /// from the URL.
    fn parse_code_url(&self) -> Result<CodeUrl, ParserError>;

    /// Checks the domain and reads the code URL: what is needed before the
    /// code can be downloaded from `raw_code_url`.
    fn locate(&self) -> Result<CodeUrl, ParserError>;

    /// Builds the preview from the downloaded code.
    fn parse(&self, code_url: CodeUrl, code: &str) -> Result<CodePreview, ParserError>
        requires
            code_url.relevant_lines matches Some((start, end)) ==> start >= 1 && end >= 1,
    ;
}

impl CodeUrlParser for GitHubCodeUrl {
    fn kind(&self) -> (k: &'static str)
        ensures
            k@ == github_domain(),
    {
        "github.com"
    }

    fn parse_code_url(&self) -> (r: Result<CodeUrl, ParserError>)
        ensures
            result_view(r) == spec_parse_code_url(self.url@),
    {
        let segs = match &self.url.path_segments {
            None => {
                return Err(ParserError::ConversionError("Failed to convert path segments".to_owned()));
            },
            Some(segs) => segs,
        };
        if segs.len() < 1 {
            return Err(ParserError::ConversionError("Failed to parse user".to_owned()));
        }
        if segs.len() < 2 {
            return Err(ParserError::ConversionError("Failed to parse repo".to_owned()));
        }
        if segs.len() < 4 {
            return Err(ParserError::ConversionError("Failed to parse branch or sha".to_owned()));
        }
        let ghost sv = strings_view(segs@);
        let user = segs[0].clone();
        let repo = segs[1].clone();
        let branch_or_sha = segs[3].clone();
        let path = segment_path_of(segs);
        let mut raw_code_url = "https://raw.githubusercontent.com/".to_owned();
        push_str(&mut raw_code_url, user.as_str());
        push_char(&mut raw_code_url, '/');
        push_str(&mut raw_code_url, repo.as_str());
        push_char(&mut raw_code_url, '/');
        push_str(&mut raw_code_url, branch_or_sha.as_str());
        push_str(&mut raw_code_url, path.as_str());
        assert(raw_code_url@ =~= raw_code_address(sv[0], sv[1], sv[3], segment_path(sv.skip(4))));
        let relevant_lines = match fragment_lines_of(&self.url.fragment) {
            Ok(lines) => lines,
            Err(e) => {
                return Err(e);
            },
        };
        let language = language_of(segs);
        Ok(
            CodeUrl {
                raw_code_url,
                original_code_url: self.url.serialization.clone(),
                repo,
                user,
                branch_or_sha,
                relevant_lines,
                language,
            },
        )
    }

    fn locate(&self) -> (r: Result<CodeUrl, ParserError>)
        ensures
            result_view(r) == match spec_check_domain(self.url@, github_domain()) {
                Err(e) => Err(e),
                Ok(_) => spec_parse_code_url(self.url@),
            },
    {
        let kind = self.kind();
        match &self.url.domain {
            Some(domain) => {
                if !str_eq(domain.as_str(), kind) {
                    return Err(ParserError::WrongParserError(kind.to_owned(), domain.clone()));
                }
            },
            None => {
                return Err(ParserError::Error("No domain found".to_owned()));
            },
        }
        self.parse_code_url()
    }

    fn parse(&self, code_url: CodeUrl, code: &str) -> (r: Result<CodePreview, ParserError>)
        ensures
            result_view(r) == spec_preview(code_url@, code@),
    {
        match code_url.relevant_lines {
            None => Ok(CodePreview { code: code_url, preview: None }),
            Some((start, end)) => {
                let v = chars_of(code);
                let lines = lines_of(v.as_slice());
                let s = start - 1;
                let e = end - 1;
                if s > e || s >= lines.len() || e >= lines.len() {
                    let mut msg = decimal_string(s as u64);
                    push_char(&mut msg, '-');
                    let tail = decimal_string(e as u64);
                    push_str(&mut msg, tail.as_str());
                    assert(strings_view(lines@).len() == lines@.len());
                    assert(msg@ =~= decimal(s as nat) + seq!['-'] + decimal(e as nat));
                    return Err(ParserError::InvalidFragment(msg));
                }
                let mut block = "```".to_owned();
                match &code_url.language {
                    Some(language) => {
                        push_str(&mut block, language.as_str());
                        push_char(&mut block, '\n');
                    },
                    None => {},
                }
                let body = join_range(&lines, s, e + 1, "\n");
                push_str(&mut block, body.as_str());
                push_str(&mut block, "```");
                proof {
                    reveal_strlit("\n");
                    assert("\n"@ =~= seq!['\n']);
                    assert(block@ =~= code_block(code_url@.language, text_lines(code@).subrange(s as int, e + 1)));
                }
                Ok(CodePreview { code: code_url, preview: Some(block) })
            },
        }
    }
}


// ---------------------------------------------------------------------------
// Laws
// ---------------------------------------------------------------------------

proof fn lemma_fragment_number_of_line(n: usize)
    ensures
        fragment_number(seq!['L'] + decimal(n as nat)) == Some(n as nat),
        forall|j: int| 0 <= j < (seq!['L'] + decimal(n as nat)).len() ==> (seq!['L'] + decimal(n as nat))[j] != '-',
{
    let d = decimal(n as nat);
    let p = seq!['L'] + d;
    crate::text::lemma_decimal_digits(n as nat);
    assert(p.drop_first() =~= d);
    assert(p[0] == 'L');
    assert(d[0] != 'L');
    assert(crate::text::trim_start_char(p, 'L') == crate::text::trim_start_char(d, 'L'));
    assert(crate::text::trim_start_char(d, 'L') == d);
    assert(d.last() != 'L');
    assert(crate::text::trim_end_char(d, 'L') == d);
    assert(trim_char(p, 'L') == d);
    crate::text::law_decimal_roundtrip(n as nat, usize::MAX as nat);
    assert forall|j: int| 0 <= j < p.len() implies p[j] != '-' by {
        if j > 0 {
            assert(p[j] == d[j - 1]);
        }
    }
}

/// A fragment that names lines as GitHub writes them is read back as
/// those lines: `L<a>-L<b>` selects lines `a` to `b`, and `L<a>` selects
/// line `a` alone.
pub proof fn law_fragment_lines_roundtrip(a: usize, b: usize)
    ensures
        fragment_lines(Some(seq!['L'] + decimal(a as nat) + seq!['-'] + seq!['L'] + decimal(b as nat)))
            == Ok::<Option<(usize, usize)>, ParserErrorView>(Some((a, b))),
        fragment_lines(Some(seq!['L'] + decimal(a as nat))) == Ok::<Option<(usize, usize)>, ParserErrorView>(Some((a, a))),
{
    let p1 = seq!['L'] + decimal(a as nat);
    let p2 = seq!['L'] + decimal(b as nat);
    lemma_fragment_number_of_line(a);
    lemma_fragment_number_of_line(b);
    let f = seq!['L'] + decimal(a as nat) + seq!['-'] + seq!['L'] + decimal(b as nat);
    assert(f =~= p1 + seq!['-'] + p2);
    let i = p1.len() as int;
    assert(crate::text::is_first_index_of(f, '-', i)) by {
        assert forall|j: int| 0 <= j < i implies f[j] != '-' by {
            assert(f[j] == p1[j]);
        }
    }
    crate::text::lemma_split_char_step(f, '-', i);
    assert(f.take(i) =~= p1);
    assert(f.skip(i + 1) =~= p2);
    crate::text::lemma_split_char_last(p2, '-');
    let pieces = split_char(f, '-');
    assert(pieces =~= seq![p1, p2]);
    assert(!exists|k: int| 0 <= k < pieces.len() && #[trigger] fragment_number(pieces[k]) is None) by {
        assert forall|k: int| 0 <= k < pieces.len() implies !(#[trigger] fragment_number(pieces[k]) is None) by {
            if k == 0 {
                assert(pieces[k] == p1);
            } else {
                assert(pieces[k] == p2);
            }
        }
    }
    crate::text::lemma_split_char_last(p1, '-');
    let single = split_char(p1, '-');
    assert(single =~= seq![p1]);
    assert(!exists|k: int| 0 <= k < single.len() && #[trigger] fragment_number(single[k]) is None) by {
        assert forall|k: int| 0 <= k < single.len() implies !(#[trigger] fragment_number(single[k]) is None) by {
            assert(single[k] == p1);
        }
    }
}

} // verus!
