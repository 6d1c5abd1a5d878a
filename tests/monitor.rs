use monitorbot::{
    cache_file_name, diff_report, fs_safe_url, log_level, page_report, pretty_diff, render_html,
    store_actions, ColorChoice, DiffLine, Header, LineKind, LogLevel, PageError, PageReport,
    Response, ResponseError, StoreAction, TooVerbose,
};

fn u(s: &str) -> url::Url {
    url::Url::parse(s).unwrap()
}

fn response(url: &str, content_type: Option<&[u8]>, body: &[u8]) -> Response {
    let mut headers = vec![Header { name: "server".to_string(), value: b"test".to_vec() }];
    if let Some(ct) = content_type {
        headers.push(Header { name: "content-type".to_string(), value: ct.to_vec() });
    }
    Response {
        url: url.to_string(),
        version: "HTTP/1.1".to_string(),
        status: 200,
        headers,
        body: body.to_vec(),
    }
}

fn line(kind: LineKind, text: &str) -> DiffLine {
    DiffLine { kind, text: text.to_string() }
}

fn shape(lines: &[DiffLine]) -> Vec<(LineKind, String)> {
    lines.iter().map(|l| (l.kind, l.text.clone())).collect()
}

#[test]
fn test_fs_safe_url() {
    assert!(
        fs_safe_url(u("https://demon.horse/hireme/#fragment").as_str())
            == "https:||demon.horse|hireme|#fragment"
    );
    assert!(fs_safe_url(u("a://a/b").as_str()) == "a:||a|b");
    assert!(
        fs_safe_url(u(r"a://a/foo\back|pipe\|backpipe").as_str())
            == r"a:||a|foo\\back\|pipe\\\|backpipe"
    );
}

#[test]
fn cache_keys_keep_escaped_slashes_apart() {
    let plain = fs_safe_url(u("https://example.com/a/b").as_str());
    let escaped = fs_safe_url(u("https://example.com/a%2Fb").as_str());
    assert_ne!(plain, escaped);
    assert!(!plain.contains('/'));
    assert_eq!(fs_safe_url("x|/"), r"x\||");
}

#[test]
fn cache_file_has_extension() {
    assert_eq!(cache_file_name("a://a/b"), "a:||a|b.ron");
}

#[test]
fn diff_of_equal_texts_reports_nothing() {
    let t = "# Title\n\nsome text\nmore\n";
    assert!(diff_report(t, t).is_empty());
}

#[test]
fn diff_reports_changed_lines() {
    let r = diff_report("a\nb\n", "a\nc\n");
    assert_eq!(
        shape(&r),
        vec![
            (LineKind::Common, "a".to_string()),
            (LineKind::Removed, "b".to_string()),
            (LineKind::Added, "c".to_string()),
            (LineKind::Common, "".to_string()),
        ]
    );
}

#[test]
fn context_is_two_lines_each_side() {
    let old = "1\n2\n3\n4\n5\nold\n6\n7\n8\n9\n10";
    let new = "1\n2\n3\n4\n5\nnew\n6\n7\n8\n9\n10";
    let r = diff_report(old, new);
    assert_eq!(
        shape(&r),
        vec![
            (LineKind::Common, "4".to_string()),
            (LineKind::Common, "5".to_string()),
            (LineKind::Removed, "old".to_string()),
            (LineKind::Added, "new".to_string()),
            (LineKind::Common, "6".to_string()),
            (LineKind::Common, "7".to_string()),
        ]
    );
}

#[test]
fn collapsing_keeps_context_between_distant_changes() {
    let d = vec![
        line(LineKind::Added, "x"),
        line(LineKind::Common, "a"),
        line(LineKind::Common, "b"),
        line(LineKind::Common, "c"),
        line(LineKind::Common, "d"),
        line(LineKind::Common, "e"),
        line(LineKind::Common, "f"),
        line(LineKind::Removed, "y"),
    ];
    assert_eq!(
        shape(&pretty_diff(&d)),
        vec![
            (LineKind::Added, "x".to_string()),
            (LineKind::Common, "a".to_string()),
            (LineKind::Common, "b".to_string()),
            (LineKind::Common, "e".to_string()),
            (LineKind::Common, "f".to_string()),
            (LineKind::Removed, "y".to_string()),
        ]
    );
}

#[test]
fn without_previous_text_every_line_is_added() {
    let r = diff_report("", "one\ntwo");
    assert_eq!(
        shape(&r),
        vec![(LineKind::Added, "one".to_string()), (LineKind::Added, "two".to_string())]
    );
}

#[test]
fn identical_bodies_short_circuit() {
    // An unknown charset would fail rendering: it is never reached.
    let old = response("https://a/", Some(b"text/html; charset=nonsense"), b"<p>hi</p>");
    let new = response("https://a/", Some(b"text/html; charset=nonsense"), b"<p>hi</p>");
    assert!(matches!(page_report(Some(&old), &new, false), Ok(PageReport::Unchanged)));
    assert!(matches!(page_report(Some(&old), &new, true), Ok(PageReport::Unchanged)));
}

#[test]
fn changed_body_is_diffed() {
    let old = response("https://a/", None, b"<p>one</p>");
    let new = response("https://a/", None, b"<p>two</p>");
    match page_report(Some(&old), &new, false) {
        Ok(PageReport::Diff(d)) => assert_eq!(
            shape(&d),
            vec![(LineKind::Removed, "one".to_string()), (LineKind::Added, "two".to_string())]
        ),
        other => panic!("unexpected {other:?}"),
    }
}

#[test]
fn first_fetch_reports_whole_page() {
    let new = response("https://a/", Some(b"text/html"), b"<h1>Title</h1>");
    match page_report(None, &new, false) {
        Ok(PageReport::Diff(d)) => {
            assert_eq!(shape(&d), vec![(LineKind::Added, "# Title".to_string())])
        }
        other => panic!("unexpected {other:?}"),
    }
    match page_report(None, &new, true) {
        Ok(PageReport::Full(t)) => assert_eq!(t, "# Title"),
        other => panic!("unexpected {other:?}"),
    }
}

#[test]
fn equal_renderings_report_nothing() {
    let old = response("https://a/", None, b"<p>same</p>");
    let new = response("https://a/", None, b"<p>same</p>\n");
    assert!(matches!(page_report(Some(&old), &new, false), Ok(PageReport::Unchanged)));
}

#[test]
fn render_failure_on_unknown_charset() {
    let new = response("https://a/", Some(b"text/html; charset=nonsense"), b"<p>x</p>");
    assert!(matches!(
        page_report(None, &new, false),
        Err(PageError::Response(ResponseError::InvalidCharset(_)))
    ));
}

#[test]
fn render_html_heading() {
    assert_eq!(render_html("<h1>Hello</h1>", "https://a/").unwrap(), "# Hello");
}

#[test]
fn missing_charset_decodes_utf8() {
    let r = response("https://a/", Some(b"text/html"), "caf\u{e9}".as_bytes());
    assert_eq!(r.text().unwrap(), "caf\u{e9}");
    let r = response("https://a/", None, "caf\u{e9}".as_bytes());
    assert_eq!(r.text().unwrap(), "caf\u{e9}");
    assert!(r.charset().unwrap().is_none());
    assert!(r.charset_encoding().unwrap().is_none());
}

#[test]
fn declared_charset_is_used() {
    let r = response("https://a/", Some(b"text/html; charset=iso-8859-1"), b"caf\xe9");
    assert_eq!(r.charset().unwrap(), Some("iso-8859-1".to_string()));
    assert_eq!(r.charset_encoding().unwrap(), Some(encoding_rs::WINDOWS_1252));
    assert_eq!(r.text().unwrap(), "caf\u{e9}");
}

#[test]
fn unknown_charset_is_an_error() {
    let r = response("https://a/", Some(b"text/html; charset=nonsense"), b"x");
    match r.text() {
        Err(ResponseError::InvalidCharset(c)) => assert_eq!(c, "nonsense"),
        other => panic!("unexpected {other:?}"),
    }
    assert!(matches!(r.charset_encoding(), Err(ResponseError::InvalidCharset(_))));
}

#[test]
fn content_type_errors() {
    let r = response("https://a/", Some(b"text/html; charset=\xff"), b"x");
    assert!(matches!(r.content_type(), Err(ResponseError::InvalidStr)));
    let r = response("https://a/", Some(b"not a media type"), b"x");
    assert!(matches!(r.content_type(), Err(ResponseError::InvalidMediaType(_))));
    assert!(matches!(r.text(), Err(ResponseError::InvalidMediaType(_))));
    let r = response("https://a/", Some(b"text/plain; charset=utf-8"), b"x");
    let m = r.content_type().unwrap().unwrap();
    assert_eq!(m.value, "text/plain; charset=utf-8");
    assert_eq!(m.charset, Some("utf-8".to_string()));
}

#[test]
fn redirect_links_requested_file() {
    let r = store_actions("https://a/", "https://b/");
    assert_eq!(r.len(), 3);
    assert!(matches!(&r[0], StoreAction::Write(n) if n == "https:||b|.ron"));
    assert!(matches!(&r[1], StoreAction::Remove(n) if n == "https:||a|.ron"));
    assert!(matches!(&r[2], StoreAction::Link(l, t) if l == "https:||a|.ron" && t == "https:||b|.ron"));
}

#[test]
fn no_redirect_writes_once() {
    let r = store_actions("https://a/", "https://a/");
    assert_eq!(r.len(), 1);
    assert!(matches!(&r[0], StoreAction::Write(n) if n == "https:||a|.ron"));
}

#[test]
fn verbosity_levels() {
    assert_eq!(log_level(0), Ok(LogLevel::Warn));
    assert_eq!(log_level(1), Ok(LogLevel::Info));
    assert_eq!(log_level(2), Ok(LogLevel::Debug));
    assert_eq!(log_level(3), Ok(LogLevel::Trace));
    assert_eq!(log_level(4), Err(TooVerbose { verbose: 4 }));
    assert_eq!(TooVerbose { verbose: 9 }.message(), "-v is only allowed up to 3 times.");
}

#[test]
fn color_choice_for_stream() {
    assert_eq!(ColorChoice::default(), ColorChoice::Auto);
    assert_eq!(ColorChoice::Auto.for_stream(false), ColorChoice::Never);
    assert_eq!(ColorChoice::Auto.for_stream(true), ColorChoice::Auto);
    assert_eq!(ColorChoice::Always.for_stream(false), ColorChoice::Always);
}
