use gemview::buffer::Buffer;
use gemview::gemini::{classify_scheme, GeminiKind, Request, Response as GeminiResponse, Step};
use gemview::protocol::{Response as ProtoResponse, StatusCode};
use gemview::scheme::{absolute_url, download_filename, render_decision, scheme_supported,
    AddressError, RenderKind, RequestError, ResponseParseError};

#[test]
fn supported_schemes() {
    assert!(scheme_supported("gemini"));
    assert!(scheme_supported("mercury"));
    assert!(scheme_supported("spartan"));
    assert!(scheme_supported("gopher"));
    assert!(scheme_supported("finger"));
    assert!(scheme_supported("file"));
    assert!(scheme_supported("data"));
    assert!(!scheme_supported("https"));
    assert!(!scheme_supported("mailto"));
}

#[test]
fn absolute_url_passes_whitelisted() {
    let url = absolute_url("about:blank", "GEMINI://example.com/page").unwrap();
    assert_eq!(url, "gemini://example.com/page");
}

#[test]
fn absolute_url_refuses_unknown_scheme() {
    match absolute_url("about:blank", "https://example.com/") {
        Err(AddressError::UnsupportedScheme(s)) => assert_eq!(s, "https"),
        other => panic!("expected an unsupported scheme, got {:?}", other),
    }
}

#[test]
fn absolute_url_resolves_relative() {
    let url = absolute_url("gemini://example.com/dir/page", "other").unwrap();
    assert_eq!(url, "gemini://example.com/dir/other");
}

#[test]
fn absolute_url_fails_without_base() {
    match absolute_url("about:blank", "just words") {
        Err(AddressError::ParseFailed) => {}
        other => panic!("expected a parse failure, got {:?}", other),
    }
}

#[test]
fn render_decision_by_mime() {
    assert_eq!(render_decision("text/gemini", ""), RenderKind::Gemtext);
    assert_eq!(render_decision("text/plain", ""), RenderKind::PlainText);
    assert_eq!(render_decision("image/png", ""), RenderKind::Image);
    assert_eq!(render_decision("application/gopher", "text/plain"), RenderKind::PlainText);
    assert_eq!(render_decision("application/x", "image/png"), RenderKind::Image);
    assert_eq!(render_decision("application/x", "application/x"), RenderKind::Download);
}

#[test]
fn download_filename_from_url() {
    assert_eq!(download_filename("gemini://example.com/files/pic.png"), "pic.png");
    assert_eq!(download_filename("data:text/plain,abc"), "download");
}

#[test]
fn classify_gemini_schemes() {
    assert_eq!(classify_scheme("gemini").unwrap(), GeminiKind::Gemini);
    assert_eq!(classify_scheme("mercury").unwrap(), GeminiKind::Mercury);
    match classify_scheme("https") {
        Err(RequestError::UnknownScheme(s)) => assert_eq!(s, "https"),
        other => panic!("expected an unknown scheme, got {:?}", other),
    }
}

#[test]
fn request_line_appends_crlf() {
    let req = Request::new("gemini://gemini.circumlunar.space/");
    assert_eq!(req.raw_string, "gemini://gemini.circumlunar.space/\r\n");
}

#[test]
fn interpret_success() {
    let response = ProtoResponse {
        status: StatusCode::Success(0),
        meta: "text/plain;charset=utf-8".to_string(),
        data: b"hi".to_vec(),
    };
    match Step::interpret(response, "gemini://example.com/") {
        Step::Done(GeminiResponse::Success(content)) => {
            assert_eq!(content.mime, "text/plain");
            assert_eq!(content.url, Some("gemini://example.com/".to_string()));
            assert_eq!(content.bytes, b"hi".to_vec());
        }
        other => panic!("expected a success, got {:?}", other),
    }
}

#[test]
fn interpret_redirect() {
    let response = ProtoResponse {
        status: StatusCode::Redirect(1),
        meta: "gemini://elsewhere.example/page".to_string(),
        data: vec![],
    };
    match Step::interpret(response, "gemini://example.com/") {
        Step::Follow(url) => assert_eq!(url, "gemini://elsewhere.example/page"),
        other => panic!("expected a redirect to follow, got {:?}", other),
    }
}

#[test]
fn interpret_bad_redirect() {
    let response = ProtoResponse {
        status: StatusCode::Redirect(0),
        meta: "no scheme here".to_string(),
        data: vec![],
    };
    match Step::interpret(response, "gemini://example.com/") {
        Step::Done(GeminiResponse::Error(m)) => assert_eq!(m, "invalid redirect url"),
        other => panic!("expected an error, got {:?}", other),
    }
}

#[test]
fn input_event_carries_fields() {
    let input = gemview::scheme::Input {
        meta: "Search".to_string(),
        url: "gemini://example.com/s".to_string(),
        sensitive: 0,
    };
    assert_eq!(input.meta, "Search");
    assert_eq!(input.url, "gemini://example.com/s");
    assert_eq!(input.sensitive, 0);
}

#[test]
fn interpret_input() {
    let response = ProtoResponse {
        status: StatusCode::Input(1),
        meta: "Password".to_string(),
        data: vec![],
    };
    match Step::interpret(response, "gemini://example.com/login") {
        Step::Done(GeminiResponse::RequestInput(input)) => {
            assert_eq!(input.meta, "Password");
            assert_eq!(input.url, "gemini://example.com/login");
            assert_eq!(input.sensitive, 1);
        }
        other => panic!("expected an input request, got {:?}", other),
    }
}

#[test]
fn interpret_failure_names_status() {
    let response = ProtoResponse {
        status: StatusCode::TemporaryFailure(4),
        meta: "slow down".to_string(),
        data: vec![],
    };
    match Step::interpret(response, "gemini://example.com/") {
        Step::Done(GeminiResponse::Error(m)) => assert_eq!(m, "TemporaryFailure(4)"),
        other => panic!("expected an error, got {:?}", other),
    }
}

#[test]
fn request_error_messages() {
    assert_eq!(RequestError::DnsError.message(), "DNS Error");
    assert_eq!(
        RequestError::UnknownScheme("https".to_string()).message(),
        "Unknown scheme https"
    );
    assert_eq!(
        RequestError::IoError("connection refused".to_string()).message(),
        "IO error: connection refused"
    );
    assert_eq!(
        RequestError::TlsError("handshake failed".to_string()).message(),
        "TLS Error: handshake failed"
    );
    assert_eq!(
        RequestError::ResponseParseError(ResponseParseError::EmptyResponse).message(),
        "Response parse error: Error parsing response! The response was empty!"
    );
}

#[test]
fn buffer_from_response() {
    let response = ProtoResponse {
        status: StatusCode::Success(0),
        meta: "text/gemini".to_string(),
        data: b"# hi".to_vec(),
    };
    let buffer = Buffer::from_gmi_response(response);
    assert_eq!(buffer.mime, "text/gemini");
    assert_eq!(buffer.content, b"# hi".to_vec());
}

#[test]
fn file_mime_override() {
    assert_eq!(gemview::file::file_mime("text/plain", Some("gmi")), "text/gemini");
    assert_eq!(gemview::file::file_mime("text/plain", Some("gemini")), "text/gemini");
    assert_eq!(gemview::file::file_mime("text/plain", Some("txt")), "text/plain");
    assert_eq!(gemview::file::file_mime("image/png", Some("gmi")), "image/png");
    assert_eq!(gemview::file::file_mime("text/plain", None), "text/plain");
}

#[test]
fn directory_index_page() {
    let entries = vec![
        gemview::file::DirEntry {
            path: "/home/user/a.gmi".to_string(),
            name: "a.gmi".to_string(),
        },
        gemview::file::DirEntry {
            path: "/home/user/b".to_string(),
            name: "b".to_string(),
        },
    ];
    let page = gemview::file::dir_index("/home/user", Some("/home"), &entries);
    assert_eq!(
        page,
        "# Index of /home/user\n=> file:///home parent directory\n\n\
         => file:///home/user/a.gmi a.gmi\n=> file:///home/user/b b\n"
    );
}
