use shiki_tui::capture::{
    disabled_response, parse_request, response_line, route_request, tags_of, with_source, CaptureReply, ParsedRequest,
    RequestKind, Route,
};

#[test]
fn response_line_formats_ok_and_err() {
    assert_eq!(
        response_line(&CaptureReply::Saved("/tmp/note.md".to_string())),
        "OK /tmp/note.md\n"
    );
    assert_eq!(
        response_line(&CaptureReply::Failed("oops".into())),
        "ERR oops\n"
    );
}

#[test]
fn disabled_response_is_a_clear_err_line() {
    assert_eq!(disabled_response(), "ERR daemon disabled\n");
}

#[test]
fn parse_request_recognizes_ping_and_undo() {
    assert!(matches!(parse_request("PING\n\n"), ParsedRequest::Ping));
    assert!(matches!(parse_request("PING"), ParsedRequest::Ping));
    assert!(matches!(parse_request("UNDO\n\n"), ParsedRequest::Undo));
    assert!(matches!(parse_request("UNDO"), ParsedRequest::Undo));
}

#[test]
fn parse_request_parses_plain_capture_with_no_headers() {
    match parse_request("CAPTURE\n\nbuy milk") {
        ParsedRequest::Capture {
            daily,
            tags,
            notebook,
            folder,
            template,
            url,
            title,
            source,
            text,
        } => {
            assert!(!daily);
            assert!(tags.is_empty());
            assert!(notebook.is_none());
            assert!(folder.is_none());
            assert!(template.is_none());
            assert!(url.is_none());
            assert!(title.is_none());
            assert!(source.is_none());
            assert_eq!(text, "buy milk");
        }
        _ => panic!("expected Capture"),
    }
}

#[test]
fn parse_request_parses_all_headers() {
    match parse_request(
        "CAPTURE\ndaily=1\ntags=work,idea\nnotebook=work\nfolder=work/meetings\ntemplate=meeting\nurl=https://example.com\ntitle=Example\nsource=browser\n\nbuy milk",
    ) {
        ParsedRequest::Capture {
            daily,
            tags,
            notebook,
            folder,
            template,
            url,
            title,
            source,
            text,
        } => {
            assert!(daily);
            assert_eq!(tags, vec!["work".to_string(), "idea".to_string()]);
            assert_eq!(notebook.as_deref(), Some("work"));
            assert_eq!(folder.as_deref(), Some("work/meetings"));
            assert_eq!(template.as_deref(), Some("meeting"));
            assert_eq!(url.as_deref(), Some("https://example.com"));
            assert_eq!(title.as_deref(), Some("Example"));
            assert_eq!(source.as_deref(), Some("browser"));
            assert_eq!(text, "buy milk");
        }
        _ => panic!("expected Capture"),
    }
}

#[test]
fn with_source_appends_url_and_title() {
    assert_eq!(
        with_source("hello", Some("https://x.com"), Some("X")),
        "hello\n\nSource: [X](https://x.com)"
    );
    assert_eq!(
        with_source("hello", Some("https://x.com"), None),
        "hello\n\nSource: https://x.com"
    );
    assert_eq!(
        with_source("hello https://x.com world", Some("https://x.com"), None),
        "hello https://x.com world"
    );
    assert_eq!(with_source("hello", None, None), "hello");
}

#[test]
fn parse_request_body_may_contain_blank_lines() {
    match parse_request("CAPTURE\n\nline one\n\nline two") {
        ParsedRequest::Capture { text, .. } => {
            assert_eq!(text, "line one\n\nline two");
        }
        _ => panic!("expected Capture"),
    }
}

#[test]
fn parse_request_rejects_unrecognized_command() {
    assert!(matches!(
        parse_request("GARBAGE\n\nsomething"),
        ParsedRequest::Invalid
    ));
    assert!(matches!(parse_request(""), ParsedRequest::Invalid));
}

#[test]
fn with_source_ignores_empty_url_and_empty_title() {
    assert_eq!(with_source("hello", Some(""), Some("X")), "hello");
    assert_eq!(
        with_source("hello", Some("https://x.com"), Some("")),
        "hello\n\nSource: https://x.com"
    );
}

#[test]
fn later_header_lines_override_and_empty_values_clear() {
    match parse_request("CAPTURE\nnotebook=work\nnotebook=  \ndaily=true\nfoo=bar\n\nbody") {
        ParsedRequest::Capture { notebook, daily, text, .. } => {
            assert!(notebook.is_none());
            assert!(daily);
            assert_eq!(text, "body");
        }
        _ => panic!("expected Capture"),
    }
}

#[test]
fn command_word_is_trimmed_and_crlf_lines_are_split() {
    assert!(matches!(parse_request("  PING  \r\n"), ParsedRequest::Ping));
    match parse_request("CAPTURE\r\ntags= a , ,b\r\n\r\n\nx") {
        ParsedRequest::Capture { tags, text, .. } => {
            assert_eq!(tags, vec!["a".to_string(), "b".to_string()]);
            assert_eq!(text, "x");
        }
        _ => panic!("expected Capture"),
    }
}

#[test]
fn tags_drop_empty_pieces() {
    assert_eq!(tags_of(&[',', ' ', 'x', ',', ',']), vec!["x".to_string()]);
    assert!(tags_of(&[]).is_empty());
}

#[test]
fn daily_flag_only_for_one_or_true() {
    match parse_request("CAPTURE\ndaily=yes\n\nz") {
        ParsedRequest::Capture { daily, .. } => assert!(!daily),
        _ => panic!("expected Capture"),
    }
}

fn reply_text(r: Route) -> String {
    match r {
        Route::Reply(s) => s,
        Route::Dispatch(_) => panic!("expected a reply"),
    }
}

#[test]
fn pings_are_answered_with_the_switch_state() {
    assert_eq!(reply_text(route_request(parse_request("PING\n"), true)), "OK enabled\n");
    assert_eq!(reply_text(route_request(parse_request("PING\n"), false)), "OK disabled\n");
}

#[test]
fn captures_go_to_the_main_thread_only_while_enabled() {
    match route_request(parse_request("CAPTURE\ntags=a\n\nbuy milk"), true) {
        Route::Dispatch(RequestKind::Capture { text, tags, daily, .. }) => {
            assert_eq!(text, "buy milk");
            assert_eq!(tags, vec!["a".to_string()]);
            assert!(!daily);
        }
        _ => panic!("expected a capture to dispatch"),
    }
    assert_eq!(reply_text(route_request(parse_request("CAPTURE\n\nbuy milk"), false)), "ERR daemon disabled\n");
    assert!(matches!(route_request(parse_request("UNDO\n"), true), Route::Dispatch(RequestKind::Undo)));
    assert_eq!(reply_text(route_request(parse_request("UNDO\n"), false)), "ERR daemon disabled\n");
    assert_eq!(reply_text(route_request(parse_request("HELLO\n"), true)), "ERR unrecognized request\n");
}
