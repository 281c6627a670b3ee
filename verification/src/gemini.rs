//! The Gemini request side: the request line, interpreting a parsed
//! response as the next step of the redirect-following loop, and the
//! scheme dispatch for the Gemini family.

use crate::outside::{chars_to_string, url_parse, url_parse_of};
use crate::protocol::{spec_parse_response, Response as ProtoResponse, StatusCode};
use crate::scheme::{Content, RequestError, ResponseParseError};
use crate::strutil::{extend_chars, find_char, find_char_in, lemma_find_char, spec_dec, str_chars,
    subvec, usize_to_chars};
use vstd::prelude::*;

verus! {

/// A server's request for user input (Gemini 1x status): the prompt, the
/// URL to revisit with the input attached, and the sensitive-input
/// subcode.
#[derive(Clone, Debug)]
pub struct Input {
    pub meta: String,
    pub url: String,
    pub sensitive: u8,
}

/// The outcome of driving one Gemini request to completion.
#[derive(Clone, Debug)]
pub enum Response {
    Success(Content),
    RequestInput(Input),
    Error(String),
}

/// A request to a Gemini (or Mercury) server: the URL followed by CRLF.
#[derive(Eq, PartialEq, Clone, Debug)]
pub struct Request {
    /// The raw request line, ready to be written to the server.
    pub raw_string: String,
}

impl Request {
    /// The request line for a URL: the URL itself, then `\r\n`.
    pub fn new(url: &str) -> (r: Request)
        ensures
            r.raw_string@ == url@ + "\r\n"@,
    {
        let mut v = str_chars(url);
        let tail = str_chars("\r\n");
        extend_chars(&mut v, &tail);
        proof {
            assert(v@ =~= url@ + "\r\n"@);
        }
        Request { raw_string: chars_to_string(&v) }
    }
}

/// Parses a raw Gemini response, wrapping a parse failure as a request
/// error.
pub fn parse_merc_gemini_resp(resp: &[u8]) -> (r: Result<ProtoResponse, RequestError>)
    ensures
        r is Ok <==> spec_parse_response(resp@) is Ok,
        r matches Ok(res) ==> {
            let (st, meta, body) = spec_parse_response(resp@)->Ok_0;
            res.status == st && res.meta@ == meta && res.data@ == body
        },
        r matches Err(e) ==> (e matches RequestError::ResponseParseError(pe) && ((pe
            is EmptyResponse && spec_parse_response(resp@)->Err_0 is EmptyResponse) || (pe
            is InvalidResponseHeader && spec_parse_response(resp@)->Err_0
            is InvalidResponseHeader))),
{
    match ProtoResponse::parse(resp) {
        Ok(r) => Ok(r),
        Err(e) => Err(
            RequestError::ResponseParseError(
                match e {
                    crate::protocol::ResponseParseError::EmptyResponse =>
                        ResponseParseError::EmptyResponse,
                    crate::protocol::ResponseParseError::InvalidResponseHeader =>
                        ResponseParseError::InvalidResponseHeader,
                },
            ),
        ),
    }
}

/// Which member of the Gemini family a scheme names.
#[derive(Clone, Copy, Debug, PartialEq, Eq, Structural)]
pub enum GeminiKind {
    /// `gemini`: TLS, default port 1965.
    Gemini,
    /// `mercury`: plain TCP, default port 1963.
    Mercury,
}

/// Classifies the scheme of a request URL: `gemini` and `mercury` are
/// served, anything else is an `UnknownScheme` error carrying the scheme.
pub fn classify_scheme(scheme: &str) -> (r: Result<GeminiKind, RequestError>)
    ensures
        r matches Ok(k) ==> (k == GeminiKind::Gemini && scheme@ == "gemini"@) || (k
            == GeminiKind::Mercury && scheme@ == "mercury"@),
        scheme@ == "gemini"@ || scheme@ == "mercury"@ ==> r is Ok,
        r matches Err(e) ==> scheme@ != "gemini"@ && scheme@ != "mercury"@ && (e matches
            RequestError::UnknownScheme(s) && s@ == scheme@),
{
    let sc = str_chars(scheme);
    if crate::strutil::eq_str(&sc, "gemini") {
        Ok(GeminiKind::Gemini)
    } else if crate::strutil::eq_str(&sc, "mercury") {
        Ok(GeminiKind::Mercury)
    } else {
        Err(RequestError::UnknownScheme(chars_to_string(&sc)))
    }
}

/// The MIME type a successful Gemini response declares: `text/gemini`
/// when the meta starts with it, otherwise the meta up to its first `;`.
pub open spec fn spec_gemini_mime(meta: Seq<char>) -> Seq<char> {
    if "text/gemini"@.is_prefix_of(meta) {
        "text/gemini"@
    } else {
        let sp = find_char(meta, ';');
        if 0 <= sp < meta.len() {
            meta.take(sp)
        } else {
            meta
        }
    }
}

/// The error text shown for a status the redirect loop cannot handle.
pub open spec fn spec_status_label(s: StatusCode) -> Seq<char> {
    match s {
        StatusCode::Input(i) => "Input("@ + spec_dec(i as int) + ")"@,
        StatusCode::Success(i) => "Success("@ + spec_dec(i as int) + ")"@,
        StatusCode::Redirect(i) => "Redirect("@ + spec_dec(i as int) + ")"@,
        StatusCode::TemporaryFailure(i) => "TemporaryFailure("@ + spec_dec(i as int) + ")"@,
        StatusCode::PermanentFailure(i) => "PermanentFailure("@ + spec_dec(i as int) + ")"@,
        StatusCode::ClientCertRequired(i) => "ClientCertRequired("@ + spec_dec(i as int) + ")"@,
        StatusCode::Unknown(i) => "Unknown("@ + spec_dec(i as int) + ")"@,
    }
}

/// Renders `spec_status_label`.
pub fn status_label(s: &StatusCode) -> (r: String)
    ensures
        r@ == spec_status_label(*s),
{
    let mut v: Vec<char> = Vec::new();
    let (name, sub): (&str, u8) = match s {
        StatusCode::Input(i) => ("Input(", *i),
        StatusCode::Success(i) => ("Success(", *i),
        StatusCode::Redirect(i) => ("Redirect(", *i),
        StatusCode::TemporaryFailure(i) => ("TemporaryFailure(", *i),
        StatusCode::PermanentFailure(i) => ("PermanentFailure(", *i),
        StatusCode::ClientCertRequired(i) => ("ClientCertRequired(", *i),
        StatusCode::Unknown(i) => ("Unknown(", *i),
    };
    let nc = str_chars(name);
    extend_chars(&mut v, &nc);
    let dc = usize_to_chars(sub as usize);
    extend_chars(&mut v, &dc);
    let close = str_chars(")");
    extend_chars(&mut v, &close);
    proof {
        assert(v@ =~= spec_status_label(*s));
    }
    chars_to_string(&v)
}

/// The next move of the redirect-following loop.
#[derive(Clone, Debug)]
pub enum Step {
    /// A redirect: request this URL next.
    Follow(String),
    /// The loop ends with this outcome.
    Done(Response),
}

impl Step {
    /// Interprets a parsed response for the request URL `url`.
    ///
    /// A redirect follows the (parsed) meta URL, and fails the load when
    /// the meta is not a valid URL; a success carries the body under the
    /// MIME type `spec_gemini_mime` extracts from the meta; an input
    /// status asks the user, keeping the prompt, URL and subcode; every
    /// other status ends the load with its name as the error text.
    pub fn interpret(response: ProtoResponse, url: &str) -> (r: Step)
        ensures
            response.status matches StatusCode::Redirect(_) ==> (match url_parse_of(
                response.meta@,
            ) {
                Ok(u) => r matches Step::Follow(t) && t@ == u,
                Err(_) => r matches Step::Done(Response::Error(m)) && m@
                    == "invalid redirect url"@,
            }),
            response.status matches StatusCode::Success(_) ==> (r matches Step::Done(
                Response::Success(c),
            ) && c.url matches Some(cu) && cu@ == url@ && c.mime@ == spec_gemini_mime(
                response.meta@,
            ) && c.bytes@ == response.data@),
            response.status matches StatusCode::Input(sens) ==> (r matches Step::Done(
                Response::RequestInput(inp),
            ) && inp.meta@ == response.meta@ && inp.url@ == url@ && inp.sensitive == sens),
            (response.status is TemporaryFailure || response.status is PermanentFailure
                || response.status is ClientCertRequired || response.status is Unknown) ==> (
            r matches Step::Done(Response::Error(m)) && m@ == spec_status_label(
                response.status,
            )),
    {
        match response.status {
            StatusCode::Redirect(_) => match url_parse(response.meta.as_str()) {
                Ok(u) => Step::Follow(u),
                Err(_) => {
                    let v = str_chars("invalid redirect url");
                    Step::Done(Response::Error(chars_to_string(&v)))
                },
            },
            StatusCode::Success(_) => {
                let mc = str_chars(response.meta.as_str());
                let mime: String = if crate::strutil::starts_with_str(&mc, "text/gemini") {
                    let v = str_chars("text/gemini");
                    chars_to_string(&v)
                } else {
                    proof {
                        lemma_find_char(mc@, ';');
                    }
                    let sp = find_char_in(&mc, ';');
                    if sp < mc.len() {
                        let head = subvec(&mc, 0, sp);
                        chars_to_string(&head)
                    } else {
                        chars_to_string(&mc)
                    }
                };
                let uc = str_chars(url);
                Step::Done(
                    Response::Success(
                        Content {
                            url: Some(chars_to_string(&uc)),
                            mime,
                            bytes: response.data,
                        },
                    ),
                )
            },
            StatusCode::Input(sensitive) => {
                let uc = str_chars(url);
                Step::Done(
                    Response::RequestInput(
                        Input { meta: response.meta, url: chars_to_string(&uc), sensitive },
                    ),
                )
            },
            _ => Step::Done(Response::Error(status_label(&response.status))),
        }
    }
}

} // verus!
