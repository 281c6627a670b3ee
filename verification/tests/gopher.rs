use gemview::gopher::{ExternLink, LineType, Link};
use gemview::scheme::Content;

fn text_content(bytes: &[u8]) -> Content {
    Content {
        url: None,
        mime: "text/plain".to_string(),
        bytes: bytes.to_vec(),
    }
}

#[test]
fn is_map_accepts_listing() {
    // every line is of type i, 0 or 1, up to the terminator
    let body = b"iWelcome\t\thost\t70\n0About\t/about\thost\t70\n1Sub\t/sub\thost\t70\n.\n";
    assert!(text_content(body).is_map());
}

#[test]
fn is_map_rejects_bad_leading_char() {
    let body = b"iWelcome\t\thost\t70\nplain prose line\n";
    assert!(!text_content(body).is_map());
}

#[test]
fn is_map_ignores_lines_after_terminator() {
    let body = b"iWelcome\t\thost\t70\n.\nplain prose line\n";
    assert!(text_content(body).is_map());
}

#[test]
fn is_map_needs_text_mime() {
    let mut content = text_content(b"iWelcome\t\thost\t70\n");
    content.mime = "application/gopher".to_string();
    assert!(!content.is_map());
}

#[test]
fn is_map_rejects_empty_line() {
    let body = b"iWelcome\t\thost\t70\n\ni\t\thost\t70\n";
    assert!(!text_content(body).is_map());
}

#[test]
fn parse_decodes_bytes_lossily() {
    // an invalid UTF-8 byte becomes the replacement character
    let body = b"iWel\xFFcome\t\thost\t70\n";
    let lines = text_content(body).parse();
    assert_eq!(lines, vec![LineType::Text("Wel\u{FFFD}come".to_string())]);
    assert!(text_content(body).is_map());
}

#[test]
fn parse_line_text() {
    let parsed = LineType::parse_line("iJust some info\t\thost\t70");
    assert_eq!(parsed, Some(LineType::Text("Just some info".to_string())));
}

#[test]
fn parse_line_link() {
    let parsed = LineType::parse_line("0About this server\t/about\texample.com\t70");
    assert_eq!(
        parsed,
        Some(LineType::Link(Link {
            display: "About this server".to_string(),
            path: "/about".to_string(),
            host: "example.com".to_string(),
            port: "70".to_string(),
        }))
    );
}

#[test]
fn parse_line_query() {
    let parsed = LineType::parse_line("7Search\t/search\texample.com\t70");
    assert_eq!(
        parsed,
        Some(LineType::Query(Link {
            display: "Search".to_string(),
            path: "/search".to_string(),
            host: "example.com".to_string(),
            port: "70".to_string(),
        }))
    );
}

#[test]
fn parse_line_http_link() {
    let parsed = LineType::parse_line("hHome page\tURL:http://example.com\tinvalid\t70");
    assert_eq!(
        parsed,
        Some(LineType::Http(ExternLink::new(
            "Home page".to_string(),
            "http://example.com".to_string(),
        )))
    );
}

#[test]
fn parse_line_drops_short_lines() {
    assert_eq!(LineType::parse_line("0Too\tfew"), None);
    assert_eq!(LineType::parse_line("."), None);
    assert_eq!(LineType::parse_line(""), None);
}

#[test]
fn parse_whole_map() {
    let body = b"iWelcome\t\thost\t70\n0About\t/about\thost\t70\n.\n";
    let lines = text_content(body).parse();
    assert_eq!(lines.len(), 2);
    assert_eq!(lines[0], LineType::Text("Welcome".to_string()));
    assert_eq!(
        lines[1],
        LineType::Link(Link {
            display: "About".to_string(),
            path: "/about".to_string(),
            host: "host".to_string(),
            port: "70".to_string(),
        })
    );
}

#[test]
fn link_to_url() {
    let link = Link {
        display: "About".to_string(),
        path: "/about".to_string(),
        host: "example.com".to_string(),
        port: "70".to_string(),
    };
    assert_eq!(link.to_url(), "gopher://example.com:70/about");
}

#[test]
fn trim_path_strips_type_indicator() {
    assert_eq!(gemview::gopher::trim_path("/0/file.txt"), "/file.txt");
    assert_eq!(gemview::gopher::trim_path("/1/dir"), "/dir");
    assert_eq!(gemview::gopher::trim_path("/about"), "/about");
}

#[test]
fn selector_line_for_request() {
    assert_eq!(
        gemview::gopher::selector_line("/1/docs", Some("q%20x")).unwrap(),
        "/docs?q x\r\n"
    );
    assert_eq!(gemview::gopher::selector_line("", None).unwrap(), "\r\n");
}
