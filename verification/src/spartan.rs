//! The Spartan protocol: response parsing, interpreting a response as a
//! navigation outcome, and building the request lines the drivers send.

use crate::outside::{chars_to_string, percent_decode, percent_decode_of, url_with_path,
    url_with_path_of, utf8_to_string};
use crate::scheme::{Content, ResponseParseError};
use crate::strutil::{
    extend_chars, find_byte, find_byte_in, find_char, find_char_in, lemma_find_byte,
    lemma_find_char, parse_u8_chars, spec_dec, spec_parse_u8, str_chars, subvec, trim_spec,
    trim_vec, usize_to_chars, utf8_len, utf8_len_over_kib,
};
use vstd::prelude::*;

verus! {

/// A Spartan response status: a single digit, 2 through 5.
#[derive(Debug, PartialEq, Eq, Structural, Clone, Copy)]
pub enum Status {
    Success,
    Redirect,
    ClientError,
    ServerError,
}

/// The status a numeric code denotes; codes outside 2..=5 are a header
/// error.
pub open spec fn spec_status_try_from(code: u8) -> Result<Status, ResponseParseError> {
    if code == 2 {
        Ok(Status::Success)
    } else if code == 3 {
        Ok(Status::Redirect)
    } else if code == 4 {
        Ok(Status::ClientError)
    } else if code == 5 {
        Ok(Status::ServerError)
    } else {
        Err(ResponseParseError::InvalidResponseHeader)
    }
}

impl Status {
    /// Classifies a numeric status code.
    pub fn from_u8(code: u8) -> (r: Result<Status, ResponseParseError>)
        ensures
            r == spec_status_try_from(code),
    {
        match code {
            2 => Ok(Self::Success),
            3 => Ok(Self::Redirect),
            4 => Ok(Self::ClientError),
            5 => Ok(Self::ServerError),
            _ => Err(ResponseParseError::InvalidResponseHeader),
        }
    }
}

/// A parsed Spartan response.
#[derive(Debug, PartialEq, Eq, Clone)]
pub struct Response {
    pub status: Status,
    pub meta: String,
    pub data: Vec<u8>,
}

/// The reference parse of a raw Spartan response: as for Gemini, but the
/// status is a single digit in 2..=5.
pub open spec fn spec_parse_spartan(raw: Seq<u8>) -> Result<
    (Status, Seq<char>, Seq<u8>),
    ResponseParseError,
> {
    if raw.len() == 0 {
        Err(ResponseParseError::EmptyResponse)
    } else {
        let lf = find_byte(raw, 10);
        if lf == 0 || lf >= raw.len() {
            Err(ResponseParseError::InvalidResponseHeader)
        } else if !vstd::utf8::valid_utf8(raw.take(lf)) {
            Err(ResponseParseError::InvalidResponseHeader)
        } else {
            let header = vstd::utf8::decode_utf8(raw.take(lf));
            let sp = find_char(header, ' ');
            if sp >= header.len() {
                Err(ResponseParseError::InvalidResponseHeader)
            } else {
                let meta = trim_spec(header.skip(sp + 1));
                if utf8_len(meta) > 1024 {
                    Err(ResponseParseError::InvalidResponseHeader)
                } else {
                    match spec_parse_u8(header.take(sp)) {
                        Some(code) => match spec_status_try_from(code) {
                            Ok(st) => Ok((st, meta, raw.skip(lf + 1))),
                            Err(e) => Err(e),
                        },
                        None => Err(ResponseParseError::InvalidResponseHeader),
                    }
                }
            }
        }
    }
}

impl Response {
    /// Parses a raw response: `Ok` if and only if the bytes form a
    /// well-formed Spartan response, with the error the reference parse
    /// assigns otherwise.
    pub fn parse(raw: &[u8]) -> (r: Result<Response, ResponseParseError>)
        ensures
            r is Ok <==> spec_parse_spartan(raw@) is Ok,
            r matches Ok(resp) ==> {
                let (st, meta, body) = spec_parse_spartan(raw@)->Ok_0;
                resp.status == st && resp.meta@ == meta && resp.data@ == body
            },
            r matches Err(e) ==> e == spec_parse_spartan(raw@)->Err_0,
    {
        if raw.len() == 0 {
            return Err(ResponseParseError::EmptyResponse);
        }
        proof {
            lemma_find_byte(raw@, 10);
        }
        let lf = find_byte_in(raw, 10);
        if lf == 0 || lf >= raw.len() {
            return Err(ResponseParseError::InvalidResponseHeader);
        }
        let header_bytes = vstd::slice::slice_subrange(raw, 0, lf);
        proof {
            assert(header_bytes@ == raw@.take(lf as int));
        }
        let header = match utf8_to_string(header_bytes) {
            Some(h) => h,
            None => {
                return Err(ResponseParseError::InvalidResponseHeader);
            },
        };
        let hc = str_chars(header.as_str());
        proof {
            lemma_find_char(hc@, ' ');
        }
        let sp = find_char_in(&hc, ' ');
        if sp >= hc.len() {
            return Err(ResponseParseError::InvalidResponseHeader);
        }
        let meta_raw = subvec(&hc, sp + 1, hc.len());
        proof {
            assert(meta_raw@ == hc@.skip(sp + 1));
        }
        let meta = trim_vec(&meta_raw);
        if utf8_len_over_kib(&meta) {
            return Err(ResponseParseError::InvalidResponseHeader);
        }
        let status_s = subvec(&hc, 0, sp);
        proof {
            assert(status_s@ == hc@.take(sp as int));
        }
        let code = match parse_u8_chars(&status_s) {
            Some(c) => c,
            None => {
                return Err(ResponseParseError::InvalidResponseHeader);
            },
        };
        let status = match Status::from_u8(code) {
            Ok(s) => s,
            Err(e) => {
                return Err(e);
            },
        };
        let body = vstd::slice::slice_to_vec(
            vstd::slice::slice_subrange(raw, lf + 1, raw.len()),
        );
        proof {
            assert(body@ == raw@.skip(lf + 1));
        }
        Ok(Response { status, meta: chars_to_string(&meta), data: body })
    }

    /// The MIME type a successful response declares: `text/gemini` when
    /// the meta starts with it, otherwise the meta up to its first space.
    pub open spec fn spec_success_mime(meta: Seq<char>) -> Seq<char> {
        if "text/gemini"@.is_prefix_of(meta) {
            "text/gemini"@
        } else {
            let sp = find_char(meta, ' ');
            if 0 <= sp < meta.len() {
                meta.take(sp)
            } else {
                meta
            }
        }
    }

    /// Interprets this response as a navigation outcome for the request
    /// URL `url`: a redirect rewrites the URL's path to the meta, a
    /// success carries the content under the declared MIME type, and the
    /// error statuses surface as errors.
    pub fn to_message(self, url: &str) -> (r: crate::scheme::Response)
        ensures
            self.status is Redirect ==> match url_with_path_of(url@, self.meta@) {
                Some(u) => r matches crate::scheme::Response::Redirect(t) && t@ == u,
                None => r matches crate::scheme::Response::Error(m) && m@
                    == "invalid redirect"@,
            },
            self.status is Success ==> (r matches crate::scheme::Response::Success(c)
                && c.url matches Some(cu) && cu@ == url@ && c.mime@ == Self::spec_success_mime(
                self.meta@,
            ) && c.bytes@ == self.data@),
            (self.status is ClientError || self.status is ServerError) ==> (r matches
                crate::scheme::Response::Error(m) && m@ == "Client Error"@),
    {
        match self.status {
            Status::Redirect => {
                match url_with_path(url, self.meta.as_str()) {
                    Some(u) => crate::scheme::Response::Redirect(u),
                    None => {
                        let v = str_chars("invalid redirect");
                        crate::scheme::Response::Error(chars_to_string(&v))
                    },
                }
            },
            Status::Success => {
                let mc = str_chars(self.meta.as_str());
                let mime: String = if crate::strutil::starts_with_str(&mc, "text/gemini") {
                    let v = str_chars("text/gemini");
                    chars_to_string(&v)
                } else {
                    proof {
                        lemma_find_char(mc@, ' ');
                    }
                    let sp = find_char_in(&mc, ' ');
                    if sp < mc.len() {
                        let head = subvec(&mc, 0, sp);
                        chars_to_string(&head)
                    } else {
                        chars_to_string(&mc)
                    }
                };
                let url_c = str_chars(url);
                let content = Content {
                    url: Some(chars_to_string(&url_c)),
                    mime,
                    bytes: self.data,
                };
                crate::scheme::Response::Success(content)
            },
            Status::ClientError => {
                let v = str_chars("Client Error");
                crate::scheme::Response::Error(chars_to_string(&v))
            },
            Status::ServerError => {
                let v = str_chars("Client Error");
                crate::scheme::Response::Error(chars_to_string(&v))
            },
        }
    }
}

/// The request path a Spartan GET sends for a URL path and optional query:
/// an empty path becomes `/`, the query is appended after `?`, and the
/// whole is percent-decoded.
pub open spec fn spec_request_path(path: Seq<char>, query: Option<Seq<char>>) -> Seq<char> {
    let p = if path.len() == 0 {
        seq!['/']
    } else {
        path
    };
    match query {
        Some(q) => p + seq!['?'] + q,
        None => p,
    }
}

/// Builds the line a Spartan GET request sends:
/// `<host> <decoded path> 0\r\n`. `None` where percent-decoding fails.
pub fn request_line(host: &str, path: &str, query: Option<&str>) -> (r: Option<String>)
    ensures
        ({
            let pq = spec_request_path(path@, match query {
                Some(q) => Some(q@),
                None => None,
            });
            match percent_decode_of(pq) {
                Some(d) => r matches Some(line) && line@ == host@ + " "@ + d + " 0\r\n"@,
                None => r is None,
            }
        }),
{
    let mut pq: Vec<char> = Vec::new();
    if path.unicode_len() == 0 {
        pq.push('/');
    } else {
        let pc = str_chars(path);
        extend_chars(&mut pq, &pc);
    }
    match query {
        Some(q) => {
            pq.push('?');
            let qc = str_chars(q);
            extend_chars(&mut pq, &qc);
        },
        None => {},
    }
    proof {
        assert(pq@ =~= spec_request_path(path@, match query {
            Some(q) => Some(q@),
            None => None,
        }));
    }
    let pq_s = chars_to_string(&pq);
    match percent_decode(pq_s.as_str()) {
        Some(d) => {
            let mut line: Vec<char> = Vec::new();
            let hc = str_chars(host);
            extend_chars(&mut line, &hc);
            line.push(' ');
            let dc = str_chars(d.as_str());
            extend_chars(&mut line, &dc);
            let tail = str_chars(" 0\r\n");
            extend_chars(&mut line, &tail);
            proof {
                reveal_strlit(" ");
                assert(line@ =~= host@ + " "@ + d@ + " 0\r\n"@);
            }
            Some(chars_to_string(&line))
        },
        None => None,
    }
}

/// Builds the header a Spartan POST (upload) sends:
/// `<host> <decoded path> <content length>\r\n`. `None` where
/// percent-decoding fails.
pub fn post_header(host: &str, path: &str, len: usize) -> (r: Option<String>)
    ensures
        match percent_decode_of(path@) {
            Some(d) => r matches Some(line) && line@ == host@ + " "@ + d + " "@ + spec_dec(
                len as int,
            ) + "\r\n"@,
            None => r is None,
        },
{
    match percent_decode(path) {
        Some(d) => {
            let mut line: Vec<char> = Vec::new();
            let hc = str_chars(host);
            extend_chars(&mut line, &hc);
            line.push(' ');
            let dc = str_chars(d.as_str());
            extend_chars(&mut line, &dc);
            line.push(' ');
            let lc = usize_to_chars(len);
            extend_chars(&mut line, &lc);
            let tail = str_chars("\r\n");
            extend_chars(&mut line, &tail);
            proof {
                reveal_strlit(" ");
                assert(line@ =~= host@ + " "@ + d@ + " "@ + spec_dec(len as int) + "\r\n"@);
            }
            Some(chars_to_string(&line))
        },
        None => None,
    }
}

} // verus!
