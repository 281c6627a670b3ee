//! The crate's trusted boundary: every call into an outside crate, and the
//! few std conversions that vstd gives no specification for, lives here as a
//! small wrapper whose contract Verus believes without proof.
//!
//! Results that no short spec can state are given names (`uninterp` spec
//! functions); the contracts of the verified callers speak of those names.

use base64::Engine;
use vstd::prelude::*;

verus! {

/// Builds a `String` from its characters.
/// Relies on `String`'s `FromIterator<char>` impl: the string holds exactly
/// the characters of the iterator, in order.
#[verifier::external_body]
pub fn chars_to_string(v: &Vec<char>) -> (r: String)
    ensures
        r@ == v@,
{
    v.iter().collect()
}

/// Decodes bytes as UTF-8.
/// Relies on `core::str::from_utf8`: `Ok` exactly on valid UTF-8, yielding
/// the decoded characters.
#[verifier::external_body]
pub fn utf8_to_string(b: &[u8]) -> (r: Option<String>)
    ensures
        r is Some <==> vstd::utf8::valid_utf8(b@),
        r matches Some(s) ==> s@ == vstd::utf8::decode_utf8(b@),
{
    match core::str::from_utf8(b) {
        Ok(s) => Some(s.to_string()),
        Err(_) => None,
    }
}

/// The characters that lossy UTF-8 decoding yields for the given bytes:
/// each invalid sequence becomes replacement characters.
pub uninterp spec fn utf8_lossy_of(b: Seq<u8>) -> Seq<char>;

/// Decodes bytes as UTF-8, replacing invalid sequences.
/// Relies on `String::from_utf8_lossy`; on valid UTF-8 it is documented to
/// decode the bytes exactly.
#[verifier::external_body]
pub fn utf8_lossy(b: &[u8]) -> (r: String)
    ensures
        r@ == utf8_lossy_of(b@),
        vstd::utf8::valid_utf8(b@) ==> r@ == vstd::utf8::decode_utf8(b@),
{
    String::from_utf8_lossy(b).into_owned()
}

/// The bytes that standard-alphabet base64 decoding yields for the given
/// characters, or `None` where they are not a valid encoding.
pub uninterp spec fn base64_decode_of(s: Seq<char>) -> Option<Seq<u8>>;

/// Decodes standard-alphabet, padded base64.
/// Relies on `base64::engine::Engine::decode` with the
/// `general_purpose::STANDARD` engine.
#[verifier::external_body]
pub fn base64_decode(s: &str) -> (r: Option<Vec<u8>>)
    ensures
        match r {
            Some(b) => base64_decode_of(s@) == Some(b@),
            None => base64_decode_of(s@) is None,
        },
{
    match base64::engine::general_purpose::STANDARD.decode(s) {
        Ok(b) => Some(b),
        Err(_) => None,
    }
}

/// The characters that percent-decoding yields for the given characters, or
/// `None` where the decoded bytes are not valid UTF-8.
pub uninterp spec fn percent_decode_of(s: Seq<char>) -> Option<Seq<char>>;

/// Percent-decodes a string.
/// Relies on `urlencoding::decode`: `%xx` sequences become bytes, the rest
/// is kept, and the result must be valid UTF-8.
#[verifier::external_body]
pub fn percent_decode(s: &str) -> (r: Option<String>)
    ensures
        match r {
            Some(t) => percent_decode_of(s@) == Some(t@),
            None => percent_decode_of(s@) is None,
        },
{
    match urlencoding::decode(s) {
        Ok(t) => Some(t.into_owned()),
        Err(_) => None,
    }
}

/// What URL parsing yields for the given characters: the normalized
/// serialization of the URL on success, `Err(true)` for a relative
/// reference that needs a base, and `Err(false)` for anything else invalid.
pub uninterp spec fn url_parse_of(s: Seq<char>) -> Result<Seq<char>, bool>;

/// Parses an absolute URL and returns its normalized serialization.
/// Relies on `url::Url::parse` and `url::Url::as_str`; a
/// `RelativeUrlWithoutBase` error is reported as `Err(true)`, any other
/// parse error as `Err(false)`.
#[verifier::external_body]
pub fn url_parse(s: &str) -> (r: Result<String, bool>)
    ensures
        match r {
            Ok(u) => url_parse_of(s@) == Ok::<Seq<char>, bool>(u@),
            Err(rel) => url_parse_of(s@) == Err::<Seq<char>, bool>(rel),
        },
{
    match url::Url::parse(s) {
        Ok(u) => Ok(u.as_str().to_string()),
        Err(url::ParseError::RelativeUrlWithoutBase) => Err(true),
        Err(_) => Err(false),
    }
}

/// What joining a relative reference against a base URL yields: the
/// normalized serialization, or `None` where the base or the join is
/// invalid.
pub uninterp spec fn url_join_of(base: Seq<char>, rel: Seq<char>) -> Option<Seq<char>>;

/// Resolves `rel` against the absolute URL `base`.
/// Relies on `url::Url::parse` (for the base) and `url::Url::join`.
#[verifier::external_body]
pub fn url_join(base: &str, rel: &str) -> (r: Option<String>)
    ensures
        match r {
            Some(u) => url_join_of(base@, rel@) == Some(u@),
            None => url_join_of(base@, rel@) is None,
        },
{
    match url::Url::parse(base) {
        Ok(b) => match b.join(rel) {
            Ok(u) => Some(u.as_str().to_string()),
            Err(_) => None,
        },
        Err(_) => None,
    }
}

/// What the last path segment of a URL is: `None` where the string does
/// not parse as an absolute URL or the URL cannot have path segments (a
/// `data:` URL, for instance); otherwise the final segment, possibly empty.
pub uninterp spec fn url_last_segment_of(u: Seq<char>) -> Option<Seq<char>>;

/// The last path segment of the URL `u`.
/// Relies on `url::Url::parse` and `url::Url::path_segments`.
#[verifier::external_body]
pub fn url_last_segment(u: &str) -> (r: Option<String>)
    ensures
        match r {
            Some(seg) => url_last_segment_of(u@) == Some(seg@),
            None => url_last_segment_of(u@) is None,
        },
{
    match url::Url::parse(u) {
        Ok(p) => match p.path_segments() {
            Some(segments) => segments.last().map(|s| s.to_string()),
            None => None,
        },
        Err(_) => None,
    }
}

/// What replacing the path of a URL yields: the normalized serialization of
/// the URL with its path set to the given string, or `None` where the URL
/// does not parse.
pub uninterp spec fn url_with_path_of(u: Seq<char>, path: Seq<char>) -> Option<Seq<char>>;

/// Replaces the path of the URL `u` with `path`.
/// Relies on `url::Url::parse`, `url::Url::set_path` and `url::Url::as_str`.
#[verifier::external_body]
pub fn url_with_path(u: &str, path: &str) -> (r: Option<String>)
    ensures
        match r {
            Some(t) => url_with_path_of(u@, path@) == Some(t@),
            None => url_with_path_of(u@, path@) is None,
        },
{
    match url::Url::parse(u) {
        Ok(mut b) => {
            b.set_path(path);
            Some(b.as_str().to_string())
        },
        Err(_) => None,
    }
}

} // verus!
