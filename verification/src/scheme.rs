//! Types shared by the scheme handlers, and the navigation engine's pure
//! decisions: resolving an address against the current page, the scheme
//! whitelist, and how a successful response is rendered.

use crate::outside::{chars_to_string, url_join, url_join_of, url_last_segment, url_last_segment_of,
    url_parse, url_parse_of};
use crate::strutil::{extend_chars, find_char, find_char_in, lemma_find_char, str_chars, subvec};
use vstd::prelude::*;

verus! {

/// A page's raw content: where it came from, its MIME type, and its bytes.
#[derive(Clone, Debug)]
pub struct Content {
    pub url: Option<String>,
    pub mime: String,
    pub bytes: Vec<u8>,
}

/// A server's request for user input: the prompt, the URL to revisit with
/// the input attached, and whether the input is sensitive.
#[derive(Clone, Debug)]
pub struct Input {
    pub meta: String,
    pub url: String,
    pub sensitive: u8,
}

/// The outcome of driving one request to completion.
#[derive(Clone, Debug)]
pub enum Response {
    Success(Content),
    Redirect(String),
    RequestInput(Input),
    Error(String),
}

/// An error in parsing a response header from a server.
#[derive(Debug, PartialEq, Eq, Structural, Clone, Copy)]
pub enum ResponseParseError {
    /// The entire response was empty.
    EmptyResponse,
    /// The response header was invalid and could not be parsed.
    InvalidResponseHeader,
}

/// A catch-all for any error that may happen while making and parsing a
/// request.
#[derive(Debug)]
pub enum RequestError {
    /// An I/O failure, described in words.
    IoError(String),
    /// A DNS failure.
    DnsError,
    /// A TLS failure, described in words.
    TlsError(String),
    /// The scheme given is unknown; carries the scheme name.
    UnknownScheme(String),
    /// The response from the server could not be parsed.
    ResponseParseError(ResponseParseError),
}

/// The description `RequestError::message` renders for each error.
pub open spec fn spec_request_error_message(e: RequestError) -> Seq<char> {
    match e {
        RequestError::IoError(m) => "IO error: "@ + m@,
        RequestError::DnsError => "DNS Error"@,
        RequestError::TlsError(m) => "TLS Error: "@ + m@,
        RequestError::UnknownScheme(s) => "Unknown scheme "@ + s@,
        RequestError::ResponseParseError(p) => "Response parse error: "@ + (match p {
            ResponseParseError::EmptyResponse => "Error parsing response! The response was empty!"@,
            ResponseParseError::InvalidResponseHeader =>
                "Error parsing response! The response's header was invalid"@,
        }),
    }
}

impl RequestError {
    /// A human-readable description of the error.
    pub fn message(&self) -> (r: String)
        ensures
            r@ == spec_request_error_message(*self),
    {
        let mut v: Vec<char> = Vec::new();
        match self {
            RequestError::IoError(m) => {
                let p = str_chars("IO error: ");
                extend_chars(&mut v, &p);
                let mc = str_chars(m.as_str());
                extend_chars(&mut v, &mc);
            },
            RequestError::DnsError => {
                let p = str_chars("DNS Error");
                extend_chars(&mut v, &p);
            },
            RequestError::TlsError(m) => {
                let p = str_chars("TLS Error: ");
                extend_chars(&mut v, &p);
                let mc = str_chars(m.as_str());
                extend_chars(&mut v, &mc);
            },
            RequestError::UnknownScheme(s) => {
                let p = str_chars("Unknown scheme ");
                extend_chars(&mut v, &p);
                let sc = str_chars(s.as_str());
                extend_chars(&mut v, &sc);
            },
            RequestError::ResponseParseError(e) => {
                let p = str_chars("Response parse error: ");
                extend_chars(&mut v, &p);
                let ec = match e {
                    ResponseParseError::EmptyResponse => str_chars(
                        "Error parsing response! The response was empty!",
                    ),
                    ResponseParseError::InvalidResponseHeader => str_chars(
                        "Error parsing response! The response's header was invalid",
                    ),
                };
                extend_chars(&mut v, &ec);
            },
        }
        proof {
            assert(v@ =~= spec_request_error_message(*self));
        }
        chars_to_string(&v)
    }
}

/// The scheme of a serialized URL: everything before the first colon.
pub open spec fn scheme_of(u: Seq<char>) -> Seq<char> {
    u.take(find_char(u, ':'))
}

/// The schemes this browser knows how to load.
pub open spec fn spec_scheme_supported(s: Seq<char>) -> bool {
    s == "gemini"@ || s == "mercury"@ || s == "data"@ || s == "gopher"@ || s == "finger"@ || s
        == "file"@ || s == "spartan"@
}

/// Decides `spec_scheme_supported`.
pub fn scheme_supported(s: &str) -> (r: bool)
    ensures
        r == spec_scheme_supported(s@),
{
    let v = str_chars(s);
    crate::strutil::eq_str(&v, "gemini") || crate::strutil::eq_str(&v, "mercury")
        || crate::strutil::eq_str(&v, "data") || crate::strutil::eq_str(&v, "gopher")
        || crate::strutil::eq_str(&v, "finger") || crate::strutil::eq_str(&v, "file")
        || crate::strutil::eq_str(&v, "spartan")
}

/// Why an address could not be resolved to a loadable URL.
#[derive(Debug, Clone, PartialEq, Eq)]
pub enum AddressError {
    /// The address is a valid URL of a scheme this browser does not load;
    /// carries the scheme name.
    UnsupportedScheme(String),
    /// The address is not a valid URL, and could not be resolved against
    /// the current page either.
    ParseFailed,
}

/// Resolves `addr` to an absolute URL to load.
///
/// An absolute URL passes through (normalized) when its scheme is
/// whitelisted and is refused otherwise; a relative reference is resolved
/// against `current`. The contract is exact over the named results of the
/// URL library: `Ok` is the normalized URL, `UnsupportedScheme` carries
/// the offending scheme, and `ParseFailed` covers both an invalid address
/// and a failed join.
pub fn absolute_url(current: &str, addr: &str) -> (r: Result<String, AddressError>)
    ensures
        match r {
            Ok(u) => (url_parse_of(addr@) == Ok::<Seq<char>, bool>(u@) && spec_scheme_supported(
                scheme_of(u@),
            )) || (url_parse_of(addr@) == Err::<Seq<char>, bool>(true) && url_join_of(
                current@,
                addr@,
            ) == Some(u@)),
            Err(AddressError::UnsupportedScheme(s)) => exists|u: Seq<char>|
                url_parse_of(addr@) == Ok::<Seq<char>, bool>(u) && !spec_scheme_supported(
                    scheme_of(u),
                ) && s@ == scheme_of(u),
            Err(AddressError::ParseFailed) => url_parse_of(addr@) == Err::<Seq<char>, bool>(false)
                || (url_parse_of(addr@) == Err::<Seq<char>, bool>(true) && url_join_of(
                current@,
                addr@,
            ) is None),
        },
{
    match url_parse(addr) {
        Ok(u) => {
            let uc = str_chars(u.as_str());
            proof {
                lemma_find_char(uc@, ':');
            }
            let i = find_char_in(&uc, ':');
            let sch = subvec(&uc, 0, i);
            proof {
                assert(sch@ == scheme_of(u@));
            }
            let sch_s = chars_to_string(&sch);
            if scheme_supported(sch_s.as_str()) {
                Ok(u)
            } else {
                Err(AddressError::UnsupportedScheme(sch_s))
            }
        },
        Err(rel) => {
            if rel {
                match url_join(current, addr) {
                    Some(u) => Ok(u),
                    None => Err(AddressError::ParseFailed),
                }
            } else {
                Err(AddressError::ParseFailed)
            }
        },
    }
}

/// The line a finger request sends: the explicit user name if the URL has
/// one, otherwise the URL path with its leading slash dropped, then CRLF.
pub open spec fn spec_finger_line(username: Seq<char>, path: Seq<char>) -> Seq<char> {
    (if username.len() > 0 {
        username
    } else if path.len() > 0 {
        path.skip(1)
    } else {
        Seq::empty()
    }) + "\r\n"@
}

/// Builds the request line a finger query sends, as `spec_finger_line`
/// says.
pub fn finger_request_line(username: &str, path: &str) -> (r: String)
    ensures
        r@ == spec_finger_line(username@, path@),
{
    let mut v: Vec<char> = Vec::new();
    let uc = str_chars(username);
    if uc.len() > 0 {
        extend_chars(&mut v, &uc);
    } else {
        let pc = str_chars(path);
        if pc.len() > 0 {
            let rest = subvec(&pc, 1, pc.len());
            proof {
                assert(rest@ == path@.skip(1));
            }
            extend_chars(&mut v, &rest);
        }
    }
    let tail = str_chars("\r\n");
    extend_chars(&mut v, &tail);
    proof {
        assert(v@ =~= spec_finger_line(username@, path@));
    }
    chars_to_string(&v)
}

/// How a successfully loaded page is to be shown.
#[derive(Debug, Clone, Copy, PartialEq, Eq, Structural)]
pub enum RenderKind {
    /// Parse as Gemtext and render the nodes.
    Gemtext,
    /// Parse as a Gopher map and render the lines; chosen by the Gopher
    /// loader for textual content that `Content::is_map` accepts.
    GopherMap,
    /// Show as plain text.
    PlainText,
    /// Decode and show as an image.
    Image,
    /// Not renderable: offer it as a download.
    Download,
}

/// The render decision for a declared MIME type, with `derived` the type
/// sniffed from the bytes as a fallback: exactly `text/gemini` is Gemtext;
/// other `text/` types are plain text; `image` types are images; anything
/// else goes by the sniffed type, and is a download when that is not
/// renderable either.
pub open spec fn spec_render_decision(mime: Seq<char>, derived: Seq<char>) -> RenderKind {
    if mime == "text/gemini"@ {
        RenderKind::Gemtext
    } else if "text/"@.is_prefix_of(mime) {
        RenderKind::PlainText
    } else if "image"@.is_prefix_of(mime) {
        RenderKind::Image
    } else if "text"@.is_prefix_of(derived) {
        RenderKind::PlainText
    } else if "image"@.is_prefix_of(derived) {
        RenderKind::Image
    } else {
        RenderKind::Download
    }
}

/// Decides `spec_render_decision`.
pub fn render_decision(mime: &str, derived: &str) -> (r: RenderKind)
    ensures
        r == spec_render_decision(mime@, derived@),
{
    let mc = str_chars(mime);
    let dc = str_chars(derived);
    if crate::strutil::eq_str(&mc, "text/gemini") {
        RenderKind::Gemtext
    } else if crate::strutil::starts_with_str(&mc, "text/") {
        RenderKind::PlainText
    } else if crate::strutil::starts_with_str(&mc, "image") {
        RenderKind::Image
    } else if crate::strutil::starts_with_str(&dc, "text") {
        RenderKind::PlainText
    } else if crate::strutil::starts_with_str(&dc, "image") {
        RenderKind::Image
    } else {
        RenderKind::Download
    }
}

/// The filename a download of `url` is suggested under: the URL's last
/// path segment, or `download` where the URL has no path segments.
pub fn download_filename(url: &str) -> (r: String)
    ensures
        match url_last_segment_of(url@) {
            Some(seg) => r@ == seg,
            None => r@ == "download"@,
        },
{
    match url_last_segment(url) {
        Some(seg) => seg,
        None => {
            let v = str_chars("download");
            chars_to_string(&v)
        },
    }
}

} // verus!
