//! The Gemini response protocol: status codes and the response parser.
//!
//! A response is a header line — a two-digit status, a space, a meta
//! string, a newline (optionally preceded by a carriage return) — followed
//! by the raw body bytes.

use crate::outside::utf8_to_string;
use crate::strutil::{
    find_byte, find_byte_in, find_char, find_char_in, lemma_find_byte, lemma_find_char,
    spec_parse_u8, parse_u8_chars, str_chars, subvec, trim_spec, trim_vec, utf8_len,
    utf8_len_over_kib,
};
use vstd::prelude::*;

verus! {

/// The status code of a Gemini response header: the tens digit picks the
/// class, the units digit rides along as the subcode. A code outside the
/// known classes (or above 99) is kept whole in `Unknown`.
#[derive(Debug, PartialEq, Eq, Structural, Clone, Copy)]
pub enum StatusCode {
    /// 1x — user input is requested; subcode 1 asks for sensitive input.
    Input(u8),
    /// 2x — success; the meta field carries the MIME type of the body.
    Success(u8),
    /// 3x — redirect; the meta field carries the new location.
    Redirect(u8),
    /// 4x — temporary failure.
    TemporaryFailure(u8),
    /// 5x — permanent failure.
    PermanentFailure(u8),
    /// 6x — a client certificate is required.
    ClientCertRequired(u8),
    /// Any other numeric code, kept in full.
    Unknown(u8),
}

/// The status code denoted by a raw numeric code.
pub open spec fn spec_status_from(i: u8) -> StatusCode {
    if i > 99 {
        StatusCode::Unknown(i)
    } else {
        let sub = (i % 10) as u8;
        let class = i / 10;
        if class == 1 {
            StatusCode::Input(sub)
        } else if class == 2 {
            StatusCode::Success(sub)
        } else if class == 3 {
            StatusCode::Redirect(sub)
        } else if class == 4 {
            StatusCode::TemporaryFailure(sub)
        } else if class == 5 {
            StatusCode::PermanentFailure(sub)
        } else if class == 6 {
            StatusCode::ClientCertRequired(sub)
        } else {
            StatusCode::Unknown(i)
        }
    }
}

/// A status code as it comes from parsing: classed variants carry a single
/// digit, and `Unknown` holds the raw code.
pub open spec fn wf_status(s: StatusCode) -> bool {
    match s {
        StatusCode::Input(i) => i <= 9,
        StatusCode::Success(i) => i <= 9,
        StatusCode::Redirect(i) => i <= 9,
        StatusCode::TemporaryFailure(i) => i <= 9,
        StatusCode::PermanentFailure(i) => i <= 9,
        StatusCode::ClientCertRequired(i) => i <= 9,
        StatusCode::Unknown(_) => true,
    }
}

/// The numeric code a status code denotes.
pub open spec fn spec_status_to(s: StatusCode) -> int {
    match s {
        StatusCode::Input(i) => 10 + i,
        StatusCode::Success(i) => 20 + i,
        StatusCode::Redirect(i) => 30 + i,
        StatusCode::TemporaryFailure(i) => 40 + i,
        StatusCode::PermanentFailure(i) => 50 + i,
        StatusCode::ClientCertRequired(i) => 60 + i,
        StatusCode::Unknown(i) => i as int,
    }
}

impl From<u8> for StatusCode {
    /// Splits a numeric code into its class and subcode.
    fn from(i: u8) -> (r: Self) {
        if i > 99 {
            return Self::Unknown(i);
        }
        let first_digit = i % 10;
        let second_digit = i / 10;
        match second_digit {
            1 => Self::Input(first_digit),
            2 => Self::Success(first_digit),
            3 => Self::Redirect(first_digit),
            4 => Self::TemporaryFailure(first_digit),
            5 => Self::PermanentFailure(first_digit),
            6 => Self::ClientCertRequired(first_digit),
            _ => Self::Unknown(i),
        }
    }
}

impl vstd::std_specs::convert::FromSpecImpl<u8> for StatusCode {
    open spec fn obeys_from_spec() -> bool {
        true
    }

    open spec fn from_spec(i: u8) -> Self {
        spec_status_from(i)
    }
}

impl StatusCode {
    /// The numeric code this status denotes — the inverse of `From<u8>`
    /// on every code that parsing can produce.
    pub fn to_u8(&self) -> (r: u8)
        requires
            wf_status(*self),
        ensures
            r == spec_status_to(*self),
    {
        match self {
            StatusCode::Input(i) => 10 + i,
            StatusCode::Success(i) => 20 + i,
            StatusCode::Redirect(i) => 30 + i,
            StatusCode::TemporaryFailure(i) => 40 + i,
            StatusCode::PermanentFailure(i) => 50 + i,
            StatusCode::ClientCertRequired(i) => 60 + i,
            StatusCode::Unknown(i) => *i,
        }
    }
}

/// Splitting any code into class and subcode and reassembling it gives the
/// code back, and the split code is always well formed.
pub proof fn lemma_status_roundtrip(i: u8)
    ensures
        wf_status(spec_status_from(i)),
        spec_status_to(spec_status_from(i)) == i,
{
}

/// An error in parsing a response from a server.
#[derive(Debug, PartialEq, Eq, Structural, Clone, Copy)]
pub enum ResponseParseError {
    /// The entire response was empty.
    EmptyResponse,
    /// The response header was invalid and could not be parsed.
    InvalidResponseHeader,
}

impl ResponseParseError {
    /// A human-readable description of the error.
    pub fn message(&self) -> (r: &'static str)
        ensures
            *self is EmptyResponse ==> r@ == "Error parsing response! The response was empty!"@,
            *self is InvalidResponseHeader ==> r@
                == "Error parsing response! The response's header was invalid"@,
    {
        match self {
            ResponseParseError::EmptyResponse => "Error parsing response! The response was empty!",
            ResponseParseError::InvalidResponseHeader => "Error parsing response! The response's header was invalid",
        }
    }
}

/// A parsed Gemini response: the header's status code and meta string, and
/// the body bytes.
#[derive(Debug, PartialEq, Eq, Clone)]
pub struct Response {
    /// The status code of the response header.
    pub status: StatusCode,
    /// The META string of the response header.
    pub meta: String,
    /// The body: every byte after the header line, verbatim.
    pub data: Vec<u8>,
}

/// The reference parse of a raw Gemini response.
///
/// The empty response is its own error. Otherwise the header runs to the
/// first line feed, which must exist and not sit at position zero; it must
/// decode as UTF-8 and contain a space. The meta is everything after the
/// first space, whitespace-trimmed, and must encode to at most 1024 bytes;
/// the status is parsed as a `u8` and split into class and subcode. The
/// body is every byte after the line feed, untouched.
pub open spec fn spec_parse_response(raw: Seq<u8>) -> Result<
    (StatusCode, Seq<char>, Seq<u8>),
    ResponseParseError,
> {
    if raw.len() == 0 {
        Err(ResponseParseError::EmptyResponse)
    } else {
        let lf = find_byte(raw, 10);
        if lf == 0 || lf >= raw.len() {
            Err(ResponseParseError::InvalidResponseHeader)
        } else if !vstd::utf8::valid_utf8(raw.take(lf)) {
            Err(ResponseParseError::InvalidResponseHeader)
        } else {
            let header = vstd::utf8::decode_utf8(raw.take(lf));
            let sp = find_char(header, ' ');
            if sp >= header.len() {
                Err(ResponseParseError::InvalidResponseHeader)
            } else {
                let meta = trim_spec(header.skip(sp + 1));
                if utf8_len(meta) > 1024 {
                    Err(ResponseParseError::InvalidResponseHeader)
                } else {
                    match spec_parse_u8(header.take(sp)) {
                        Some(code) => Ok(
                            (spec_status_from(code), meta, raw.skip(lf + 1)),
                        ),
                        None => Err(ResponseParseError::InvalidResponseHeader),
                    }
                }
            }
        }
    }
}

impl Response {
    /// Parses a raw response. Returns exactly what the reference parse
    /// says: `Ok` if and only if the bytes form a well-formed response,
    /// and otherwise the error the reference parse assigns.
    pub fn parse(raw: &[u8]) -> (r: Result<Response, ResponseParseError>)
        ensures
            r is Ok <==> spec_parse_response(raw@) is Ok,
            r matches Ok(resp) ==> {
                let (st, meta, body) = spec_parse_response(raw@)->Ok_0;
                resp.status == st && resp.meta@ == meta && resp.data@ == body
            },
            r matches Err(e) ==> e == spec_parse_response(raw@)->Err_0,
    {
        if raw.len() == 0 {
            return Err(ResponseParseError::EmptyResponse);
        }
        proof {
            lemma_find_byte(raw@, 10);
        }
        let lf = find_byte_in(raw, 10);
        if lf == 0 || lf >= raw.len() {
            return Err(ResponseParseError::InvalidResponseHeader);
        }
        let header_bytes = vstd::slice::slice_subrange(raw, 0, lf);
        proof {
            assert(header_bytes@ == raw@.take(lf as int));
        }
        let header = match utf8_to_string(header_bytes) {
            Some(h) => h,
            None => {
                return Err(ResponseParseError::InvalidResponseHeader);
            },
        };
        let hc = str_chars(header.as_str());
        proof {
            lemma_find_char(hc@, ' ');
        }
        let sp = find_char_in(&hc, ' ');
        if sp >= hc.len() {
            return Err(ResponseParseError::InvalidResponseHeader);
        }
        let meta_raw = subvec(&hc, sp + 1, hc.len());
        proof {
            assert(meta_raw@ == hc@.skip(sp + 1));
        }
        let meta = trim_vec(&meta_raw);
        if utf8_len_over_kib(&meta) {
            return Err(ResponseParseError::InvalidResponseHeader);
        }
        let status_s = subvec(&hc, 0, sp);
        proof {
            assert(status_s@ == hc@.take(sp as int));
        }
        let code = match parse_u8_chars(&status_s) {
            Some(c) => c,
            None => {
                return Err(ResponseParseError::InvalidResponseHeader);
            },
        };
        let body = vstd::slice::slice_to_vec(
            vstd::slice::slice_subrange(raw, lf + 1, raw.len()),
        );
        proof {
            assert(body@ == raw@.skip(lf + 1));
        }
        Ok(Response { status: StatusCode::from(code), meta: crate::outside::chars_to_string(&meta), data: body })
    }
}

} // verus!
