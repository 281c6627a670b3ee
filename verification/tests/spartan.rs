use gemview::scheme::{Response as SchemeResponse, ResponseParseError};
use gemview::spartan::{Response, Status};

#[test]
fn status_from_u8() {
    assert_eq!(Status::from_u8(2).unwrap(), Status::Success);
}

#[test]
fn response_parse() {
    let raw = "2 text/gemini 0\r\nLorum Ipsum";
    let response = Response::parse(raw.as_bytes()).unwrap();
    assert_eq!(response.status, Status::Success);
    assert_eq!(response.meta, "text/gemini 0");
    assert_eq!(response.data, "Lorum Ipsum".as_bytes());
}

#[test]
fn response_parse_empty() {
    let raw = "";
    let response = Response::parse(raw.as_bytes()).unwrap_err();
    assert_eq!(response, ResponseParseError::EmptyResponse);
}

#[test]
fn response_parse_missing_space() {
    let raw = "2text/gemini\r\n#Hello!";
    let response = Response::parse(raw.as_bytes()).unwrap_err();
    assert_eq!(response, ResponseParseError::InvalidResponseHeader);
}

#[test]
fn response_parse_bad_status_digit() {
    let raw = "7 text/gemini\r\n";
    let response = Response::parse(raw.as_bytes()).unwrap_err();
    assert_eq!(response, ResponseParseError::InvalidResponseHeader);
}

#[test]
fn to_message_success_extracts_mime() {
    let response = Response {
        status: Status::Success,
        meta: "text/gemini 0".to_string(),
        data: b"hello".to_vec(),
    };
    match response.to_message("spartan://example.com/") {
        SchemeResponse::Success(content) => {
            assert_eq!(content.mime, "text/gemini");
            assert_eq!(content.url, Some("spartan://example.com/".to_string()));
            assert_eq!(content.bytes, b"hello".to_vec());
        }
        other => panic!("expected a success, got {:?}", other),
    }
}

#[test]
fn to_message_redirect_rewrites_path() {
    let response = Response {
        status: Status::Redirect,
        meta: "/new".to_string(),
        data: vec![],
    };
    match response.to_message("spartan://example.com/old") {
        SchemeResponse::Redirect(url) => {
            assert_eq!(url, "spartan://example.com/new");
        }
        other => panic!("expected a redirect, got {:?}", other),
    }
}

#[test]
fn to_message_bad_redirect_base() {
    let response = Response {
        status: Status::Redirect,
        meta: "/new".to_string(),
        data: vec![],
    };
    match response.to_message("not a url at all") {
        SchemeResponse::Error(m) => assert_eq!(m, "invalid redirect"),
        other => panic!("expected an error, got {:?}", other),
    }
}

#[test]
fn to_message_errors() {
    let response = Response {
        status: Status::ClientError,
        meta: "nope".to_string(),
        data: vec![],
    };
    match response.to_message("spartan://example.com/") {
        SchemeResponse::Error(m) => assert_eq!(m, "Client Error"),
        other => panic!("expected an error, got {:?}", other),
    }
}

#[test]
fn request_line_get() {
    let line = gemview::spartan::request_line("example.com", "/page", None).unwrap();
    assert_eq!(line, "example.com /page 0\r\n");
}

#[test]
fn request_line_empty_path_and_query() {
    let line = gemview::spartan::request_line("example.com", "", Some("q%20r")).unwrap();
    assert_eq!(line, "example.com /?q r 0\r\n");
}

#[test]
fn post_header_counts_bytes() {
    let line = gemview::spartan::post_header("example.com", "/up%20load", 42).unwrap();
    assert_eq!(line, "example.com /up load 42\r\n");
}
