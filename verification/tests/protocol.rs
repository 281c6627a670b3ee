use gemview::protocol::{Response, ResponseParseError, StatusCode};

#[test]
fn status_code_from_u8_input() {
    assert_eq!(StatusCode::from(18), StatusCode::Input(8));
}

#[test]
fn status_code_to_u8() {
    assert_eq!(StatusCode::Input(8).to_u8(), 18);
}

#[test]
fn status_code_roundtrip_all() {
    // splitting any numeric code into class and subcode and reassembling
    // it gives the code back
    let mut i: u16 = 0;
    while i <= 255 {
        let code = i as u8;
        assert_eq!(StatusCode::from(code).to_u8(), code);
        i += 1;
    }
}

#[test]
fn response_parse_slice() {
    let raw_response = "20 text/gemini\r\n# Hello!";
    let parsed_response = Response::parse(raw_response.as_bytes()).unwrap();
    assert_eq!(parsed_response.status, StatusCode::Success(0));
    assert_eq!(parsed_response.meta, "text/gemini");
    assert_eq!(parsed_response.data, "# Hello!".as_bytes());
}

#[test]
fn response_parse_slice_error_empty() {
    let raw_response = "";
    let parsed_response = Response::parse(raw_response.as_bytes()).unwrap_err();
    assert_eq!(parsed_response, ResponseParseError::EmptyResponse);
}

#[test]
fn response_parse_slice_error_invalid_header_missing_space() {
    let raw_response = "20text/gemini\r\n#Hello!";
    let parsed_response = Response::parse(raw_response.as_bytes()).unwrap_err();
    assert_eq!(parsed_response, ResponseParseError::InvalidResponseHeader);
}

#[test]
fn response_parse_slice_error_invalid_header_missing_space_and_meta() {
    let raw_response = "20\r\n# Hello!";
    let parsed_response = Response::parse(raw_response.as_bytes()).unwrap_err();
    assert_eq!(parsed_response, ResponseParseError::InvalidResponseHeader);
}

#[test]
fn response_parse_slice_error_invalid_header_meta_long() {
    let mut raw_response: String = String::from("20 ");
    for _ in 0..2048 {
        raw_response.push('a');
    }
    raw_response.push_str("\r\n# Hello!");
    let parsed_response = Response::parse(raw_response.as_bytes()).unwrap_err();
    assert_eq!(parsed_response, ResponseParseError::InvalidResponseHeader);
}

#[test]
fn response_parse_slice_empty_body() {
    let raw_response = "20 text/gemini\r\n";
    let parsed_response = Response::parse(raw_response.as_bytes()).unwrap();
    assert_eq!(parsed_response.status, StatusCode::Success(0));
    assert_eq!(parsed_response.meta, "text/gemini");
    assert_eq!(parsed_response.data, []);
}

#[test]
fn response_parse_slice_empty_meta() {
    let raw_response = "20 \r\n";
    let parsed_response = Response::parse(raw_response.as_bytes()).unwrap();
    assert_eq!(parsed_response.status, StatusCode::Success(0));
    assert_eq!(parsed_response.meta, "");
    assert_eq!(parsed_response.data, []);
}

#[test]
fn response_parse_no_newline() {
    let parsed = Response::parse("20 text/gemini".as_bytes()).unwrap_err();
    assert_eq!(parsed, ResponseParseError::InvalidResponseHeader);
}

#[test]
fn response_parse_newline_first() {
    let parsed = Response::parse("\n20 text/gemini".as_bytes()).unwrap_err();
    assert_eq!(parsed, ResponseParseError::InvalidResponseHeader);
}

#[test]
fn response_parse_header_not_utf8() {
    let parsed = Response::parse(b"20 \xFF\n").unwrap_err();
    assert_eq!(parsed, ResponseParseError::InvalidResponseHeader);
}

#[test]
fn response_parse_meta_is_trimmed() {
    // the gemini response of the specification: status, meta, CRLF, body
    let raw = "20 text/gemini; charset=utf-8 \r\nbody".as_bytes();
    let parsed = Response::parse(raw).unwrap();
    assert_eq!(parsed.meta, "text/gemini; charset=utf-8");
    assert_eq!(parsed.data, "body".as_bytes());
}

#[test]
fn response_parse_error_messages() {
    assert_eq!(
        ResponseParseError::EmptyResponse.message(),
        "Error parsing response! The response was empty!"
    );
    assert_eq!(
        ResponseParseError::InvalidResponseHeader.message(),
        "Error parsing response! The response's header was invalid"
    );
}
