use revanced_discord_bot::utils::code_embed::url_parser::{
    CodePreview, CodeUrl, CodeUrlParser, GitHubCodeUrl, ParserError, WebUrl,
};
use revanced_discord_bot::utils::code_embed::utils::{
    find_code_urls, http_url_candidates, preview_attachments,
};

fn github(url: &str) -> GitHubCodeUrl {
    GitHubCodeUrl { url: WebUrl::parse(url).expect("valid url") }
}

#[test]
fn web_url_parse_reads_parts() {
    let u = WebUrl::parse("https://github.com/a/b/blob/main/x.rs#L3").unwrap();
    assert_eq!(u.serialization, "https://github.com/a/b/blob/main/x.rs#L3");
    assert_eq!(u.domain.as_deref(), Some("github.com"));
    assert_eq!(
        u.path_segments.unwrap(),
        vec!["a".to_string(), "b".to_string(), "blob".to_string(), "main".to_string(), "x.rs".to_string()]
    );
    assert_eq!(u.fragment.as_deref(), Some("L3"));
    assert!(WebUrl::parse("not a url").is_none());
}

#[test]
fn parse_code_url_reads_location_lines_and_language() {
    let c = github("https://github.com/revanced/revanced-patches/blob/main/src/main/kotlin/Foo.kt#L10-L20")
        .parse_code_url()
        .ok()
        .unwrap();
    assert_eq!(
        c.raw_code_url,
        "https://raw.githubusercontent.com/revanced/revanced-patches/main/src/main/kotlin/Foo.kt"
    );
    assert_eq!(c.user, "revanced");
    assert_eq!(c.repo, "revanced-patches");
    assert_eq!(c.branch_or_sha, "main");
    assert_eq!(c.relevant_lines, Some((10, 20)));
    assert_eq!(c.language.as_deref(), Some("kt"));
    assert_eq!(
        c.original_code_url,
        "https://github.com/revanced/revanced-patches/blob/main/src/main/kotlin/Foo.kt#L10-L20"
    );
}

#[test]
fn parse_code_url_single_line_and_no_fragment() {
    let c = github("https://github.com/u/r/blob/abc123/a/b.py#L7").parse_code_url().ok().unwrap();
    assert_eq!(c.relevant_lines, Some((7, 7)));
    assert_eq!(c.language.as_deref(), Some("py"));
    let c = github("https://github.com/u/r/blob/dev/README").parse_code_url().ok().unwrap();
    assert_eq!(c.relevant_lines, None);
    assert_eq!(c.language, None);
    assert_eq!(c.raw_code_url, "https://raw.githubusercontent.com/u/r/dev/README");
}

#[test]
fn parse_code_url_skips_empty_segments_and_hidden_files() {
    let c = github("https://github.com/u/r/blob/dev/dir//.gitignore/").parse_code_url().ok().unwrap();
    assert_eq!(c.raw_code_url, "https://raw.githubusercontent.com/u/r/dev/dir/.gitignore");
    assert_eq!(c.language, None);
}

fn conversion_message(r: Result<CodeUrl, ParserError>) -> String {
    match r {
        Err(ParserError::ConversionError(m)) => m,
        _ => panic!("expected a conversion error"),
    }
}

#[test]
fn parse_code_url_errors() {
    assert_eq!(conversion_message(github("https://github.com/u").parse_code_url()), "Failed to parse repo");
    assert_eq!(
        conversion_message(github("https://github.com/u/r/blob").parse_code_url()),
        "Failed to parse branch or sha"
    );
    let no_base = GitHubCodeUrl { url: WebUrl::parse("mailto:someone@github.com").unwrap() };
    assert_eq!(conversion_message(no_base.parse_code_url()), "Failed to convert path segments");
    match github("https://github.com/u/r/blob/main/a.rs#L1-L2-L3").parse_code_url() {
        Err(ParserError::InvalidFragment(f)) => assert_eq!(f, "L1-L2-L3"),
        _ => panic!("expected an invalid fragment"),
    }
    match github("https://github.com/u/r/blob/main/a.rs#Lx").parse_code_url() {
        Err(ParserError::InvalidFragment(f)) => assert_eq!(f, "Lx"),
        _ => panic!("expected an invalid fragment"),
    }
}

#[test]
fn locate_checks_the_domain() {
    match github("https://gitlab.com/u/r/blob/main/a.rs").locate() {
        Err(ParserError::WrongParserError(expected, got)) => {
            assert_eq!(expected, "github.com");
            assert_eq!(got, "gitlab.com");
        },
        _ => panic!("expected a wrong parser error"),
    }
    match github("https://127.0.0.1/u/r/blob/main/a.rs").locate() {
        Err(ParserError::Error(e)) => assert_eq!(e, "No domain found"),
        _ => panic!("expected an error"),
    }
    assert!(github("https://github.com/u/r/blob/main/a.rs").locate().is_ok());
    assert_eq!(github("https://github.com/u/r").kind(), "github.com");
}

#[test]
fn preview_selects_lines() {
    let url = github("https://github.com/u/r/blob/main/a.kt#L2-L3");
    let code_url = url.locate().ok().unwrap();
    let p = url.parse(code_url, "a\nb\r\nc\nd").ok().unwrap();
    assert_eq!(p.preview.as_deref(), Some("```kt\nb\nc```"));
    let url = github("https://github.com/u/r/blob/main/Makefile#L1");
    let code_url = url.locate().ok().unwrap();
    let p = url.parse(code_url, "all:\n\tcc x.c\n").ok().unwrap();
    assert_eq!(p.preview.as_deref(), Some("```all:```"));
}

#[test]
fn preview_without_lines_and_out_of_range() {
    let url = github("https://github.com/u/r/blob/main/a.kt");
    let code_url = url.locate().ok().unwrap();
    assert!(url.parse(code_url, "x").ok().unwrap().preview.is_none());
    let url = github("https://github.com/u/r/blob/main/a.kt#L2-L9");
    let code_url = url.locate().ok().unwrap();
    match url.parse(code_url, "a\nb\n") {
        Err(ParserError::InvalidFragment(f)) => assert_eq!(f, "1-8"),
        _ => panic!("expected an invalid fragment"),
    }
    let url = github("https://github.com/u/r/blob/main/a.kt#L3-L2");
    let code_url = url.locate().ok().unwrap();
    match url.parse(code_url, "a\nb\nc\n") {
        Err(ParserError::InvalidFragment(f)) => assert_eq!(f, "2-1"),
        _ => panic!("expected an invalid fragment"),
    }
}

#[test]
fn parser_error_messages() {
    assert_eq!(ParserError::Error("x".to_string()).to_message(), "Error: x");
    assert_eq!(
        ParserError::WrongParserError("a".to_string(), "b".to_string()).to_message(),
        "Expected parser a, got b"
    );
    assert_eq!(ParserError::ConversionError("c".to_string()).to_message(), "Conversion error: c");
    assert_eq!(ParserError::InvalidFragment("L1".to_string()).to_message(), "Invalid fragment: L1");
    assert_eq!(ParserError::FailedToGetCode("no".to_string()).to_message(), "Failed to get code: no");
}

#[test]
fn candidates_run_from_http_to_space() {
    let c = http_url_candidates("see https://a.b/c and http://x y, httpz");
    assert_eq!(c, vec!["https://a.b/c".to_string(), "http://x".to_string(), "httpz".to_string()]);
    assert!(http_url_candidates("no links here").is_empty());
}

#[test]
fn find_code_urls_keeps_parsable_links() {
    let urls = find_code_urls("look https://github.com/u/r/blob/main/a.rs#L1 httpnothing http://x.y/z");
    assert_eq!(urls.len(), 2);
    assert_eq!(urls[0].url.domain.as_deref(), Some("github.com"));
    assert_eq!(urls[1].url.serialization, "http://x.y/z");
}

fn preview(branch: &str, language: Option<&str>, text: Option<&str>) -> CodePreview {
    CodePreview {
        code: CodeUrl {
            raw_code_url: String::new(),
            original_code_url: String::new(),
            repo: String::new(),
            user: String::new(),
            branch_or_sha: branch.to_string(),
            relevant_lines: None,
            language: language.map(|l| l.to_string()),
        },
        preview: text.map(|t| t.to_string()),
    }
}

#[test]
fn attachments_name_previews() {
    let files = preview_attachments(&vec![
        preview("main", Some("rs"), Some("```rs\nx```")),
        preview("dev", None, None),
        preview("abc", None, Some("y")),
    ]);
    assert_eq!(
        files,
        vec![
            ("main.rs".to_string(), "```rs\nx```".to_string()),
            ("abc.txt".to_string(), "y".to_string()),
        ]
    );
}
