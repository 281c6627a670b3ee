//! The `data:` URL codec: parsing the scheme, media type and payload, and
//! decoding base64 or percent-encoded payloads.

use crate::outside::{base64_decode, base64_decode_of, chars_to_string, percent_decode,
    percent_decode_of, utf8_to_string};
use crate::strutil::{contains_seq, find_char, find_char_in, lemma_find_char, str_chars, subvec};
use vstd::prelude::*;

verus! {

/// The media types a `data:` URL is classified into.
#[derive(Clone, Copy, Debug, Eq, PartialEq, Structural)]
pub enum MimeType {
    TextPlain,
    TextGemini,
    ImageJpeg,
    ImagePng,
    ImageSvg,
    ImageOther,
    Unknown,
}

/// A parsed `data:` URL: its media type, whether the payload is base64,
/// and the raw (still encoded) payload.
#[derive(Clone, Debug, Eq, PartialEq)]
pub struct DataUrl {
    pub mime: MimeType,
    pub base64: bool,
    pub data: String,
}

/// A decoded payload: text for the textual media types, bytes for images.
#[derive(Clone, Debug, Eq, PartialEq)]
pub enum Data {
    Text(String),
    Bytes(Vec<u8>),
}

/// Why a payload could not be decoded.
#[derive(Clone, Copy, Debug, Eq, PartialEq, Structural)]
pub enum DecodeError {
    /// The payload is not valid base64.
    Base64,
    /// The decoded bytes are not valid UTF-8.
    Utf8,
    /// Percent-decoding failed.
    Percent,
    /// An unknown media type cannot be decoded.
    UnknownMime,
}

/// The media type a metadata string (before any `;`) denotes: the known
/// names exactly, any other `image` type collectively, anything else
/// unknown.
pub open spec fn spec_mime_type(m: Seq<char>) -> MimeType {
    if m == "text/plain"@ {
        MimeType::TextPlain
    } else if m == "text/gemini"@ {
        MimeType::TextGemini
    } else if m == "image/jpeg"@ {
        MimeType::ImageJpeg
    } else if m == "image/png"@ {
        MimeType::ImagePng
    } else if m == "image/svg"@ {
        MimeType::ImageSvg
    } else if "image"@.is_prefix_of(m) {
        MimeType::ImageOther
    } else {
        MimeType::Unknown
    }
}

/// The reference parse of a `data:` URL: the scheme before the first `:`
/// must be `data`, a `,` must separate metadata from payload, `base64`
/// anywhere in the metadata marks a base64 payload, and the metadata up
/// to its first `;` names the media type.
pub open spec fn spec_data_url(url: Seq<char>) -> Result<(MimeType, bool, Seq<char>), Seq<char>> {
    let ci = find_char(url, ':');
    if ci >= url.len() {
        Err("Malformed url"@)
    } else if url.take(ci) != "data"@ {
        Err("Not a data url"@)
    } else {
        let remainder = url.skip(ci + 1);
        let co = find_char(remainder, ',');
        if co >= remainder.len() {
            Err("Malformed url"@)
        } else {
            let meta = remainder.take(co);
            let payload = remainder.skip(co + 1);
            let si = find_char(meta, ';');
            let mime = if si < meta.len() {
                meta.take(si)
            } else {
                meta
            };
            Ok((spec_mime_type(mime), contains_seq(meta, "base64"@), payload))
        }
    }
}

impl DataUrl {
    /// Parses a `data:` URL, as the reference parse says; the error is
    /// the message the reference parse assigns.
    pub fn parse(url: &str) -> (r: Result<DataUrl, &'static str>)
        ensures
            match spec_data_url(url@) {
                Ok((m, b, d)) => r matches Ok(x) && x.mime == m && x.base64 == b && x.data@ == d,
                Err(msg) => r matches Err(e) && e@ == msg,
            },
    {
        let uc = str_chars(url);
        proof {
            lemma_find_char(uc@, ':');
        }
        let ci = find_char_in(&uc, ':');
        if ci >= uc.len() {
            return Err("Malformed url");
        }
        let scheme = subvec(&uc, 0, ci);
        proof {
            assert(scheme@ == url@.take(ci as int));
        }
        if !crate::strutil::eq_str(&scheme, "data") {
            return Err("Not a data url");
        }
        let remainder = subvec(&uc, ci + 1, uc.len());
        proof {
            assert(remainder@ == url@.skip(ci + 1));
            lemma_find_char(remainder@, ',');
        }
        let co = find_char_in(&remainder, ',');
        if co >= remainder.len() {
            return Err("Malformed url");
        }
        let meta = subvec(&remainder, 0, co);
        let payload = subvec(&remainder, co + 1, remainder.len());
        proof {
            assert(meta@ == remainder@.take(co as int));
            assert(payload@ == remainder@.skip(co + 1));
            lemma_find_char(meta@, ';');
        }
        let b64 = crate::strutil::contains_str(&meta, "base64");
        let si = find_char_in(&meta, ';');
        let mime_part = if si < meta.len() {
            subvec(&meta, 0, si)
        } else {
            subvec(&meta, 0, meta.len())
        };
        proof {
            if si < meta@.len() {
                assert(mime_part@ == meta@.take(si as int));
            } else {
                assert(mime_part@ =~= meta@);
            }
        }
        let mime = if crate::strutil::eq_str(&mime_part, "text/plain") {
            MimeType::TextPlain
        } else if crate::strutil::eq_str(&mime_part, "text/gemini") {
            MimeType::TextGemini
        } else if crate::strutil::eq_str(&mime_part, "image/jpeg") {
            MimeType::ImageJpeg
        } else if crate::strutil::eq_str(&mime_part, "image/png") {
            MimeType::ImagePng
        } else if crate::strutil::eq_str(&mime_part, "image/svg") {
            MimeType::ImageSvg
        } else if crate::strutil::starts_with_str(&mime_part, "image") {
            MimeType::ImageOther
        } else {
            MimeType::Unknown
        };
        Ok(DataUrl { mime, base64: b64, data: chars_to_string(&payload) })
    }

    /// The media type of this URL.
    pub fn mime(&self) -> (r: MimeType)
        ensures
            r == self.mime,
    {
        self.mime
    }
}

/// The MIME string a page loaded from a `data:` URL is recorded under.
pub open spec fn spec_mime_label(m: MimeType) -> Seq<char> {
    match m {
        MimeType::TextPlain => "text/plain"@,
        MimeType::TextGemini => "text/gemini"@,
        MimeType::ImageJpeg => "image/jpeg"@,
        MimeType::ImagePng => "image/png"@,
        MimeType::ImageSvg => "image/svg+xml"@,
        MimeType::ImageOther => "image/other"@,
        MimeType::Unknown => Seq::empty(),
    }
}

impl MimeType {
    /// The MIME string this media type is recorded under; empty for an
    /// unknown type, which is never shown as a page.
    pub fn label(&self) -> (r: &'static str)
        ensures
            r@ == spec_mime_label(*self),
    {
        proof {
            reveal_strlit("");
        }
        match self {
            MimeType::TextPlain => "text/plain",
            MimeType::TextGemini => "text/gemini",
            MimeType::ImageJpeg => "image/jpeg",
            MimeType::ImagePng => "image/png",
            MimeType::ImageSvg => "image/svg+xml",
            MimeType::ImageOther => "image/other",
            MimeType::Unknown => "",
        }
    }
}

impl DataUrl {
    /// Decodes the payload: for textual media types base64 (then UTF-8)
    /// or percent decoding into text, for image types base64 decoding or
    /// the raw payload bytes; an unknown media type is a decode error.
    /// The contract is exact over the named results of the decoders.
    pub fn decode(&self) -> (r: Result<Data, DecodeError>)
        ensures
            (self.mime is TextPlain || self.mime is TextGemini) && self.base64 ==> (match
                base64_decode_of(self.data@) {
                Some(b) => {
                    if vstd::utf8::valid_utf8(b) {
                        r matches Ok(Data::Text(s)) && s@ == vstd::utf8::decode_utf8(b)
                    } else {
                        r == Err::<Data, DecodeError>(DecodeError::Utf8)
                    }
                },
                None => r == Err::<Data, DecodeError>(DecodeError::Base64),
            }),
            (self.mime is TextPlain || self.mime is TextGemini) && !self.base64 ==> (match
                percent_decode_of(self.data@) {
                Some(t) => r matches Ok(Data::Text(s)) && s@ == t,
                None => r == Err::<Data, DecodeError>(DecodeError::Percent),
            }),
            (self.mime is ImageJpeg || self.mime is ImagePng || self.mime is ImageSvg
                || self.mime is ImageOther) && self.base64 ==> (match base64_decode_of(
                self.data@,
            ) {
                Some(b) => r matches Ok(Data::Bytes(v)) && v@ == b,
                None => r == Err::<Data, DecodeError>(DecodeError::Base64),
            }),
            (self.mime is ImageJpeg || self.mime is ImagePng || self.mime is ImageSvg
                || self.mime is ImageOther) && !self.base64 ==> (r matches Ok(Data::Bytes(v))
                && v@ == vstd::utf8::encode_utf8(self.data@)),
            self.mime is Unknown ==> r == Err::<Data, DecodeError>(DecodeError::UnknownMime),
    {
        match self.mime {
            MimeType::TextPlain | MimeType::TextGemini => {
                if self.base64 {
                    match base64_decode(self.data.as_str()) {
                        Some(bytes) => match utf8_to_string(bytes.as_slice()) {
                            Some(s) => Ok(Data::Text(s)),
                            None => Err(DecodeError::Utf8),
                        },
                        None => Err(DecodeError::Base64),
                    }
                } else {
                    match percent_decode(self.data.as_str()) {
                        Some(t) => Ok(Data::Text(t)),
                        None => Err(DecodeError::Percent),
                    }
                }
            },
            MimeType::ImageJpeg | MimeType::ImagePng | MimeType::ImageSvg
                | MimeType::ImageOther => {
                if self.base64 {
                    match base64_decode(self.data.as_str()) {
                        Some(bytes) => Ok(Data::Bytes(bytes)),
                        None => Err(DecodeError::Base64),
                    }
                } else {
                    Ok(Data::Bytes(vstd::slice::slice_to_vec(self.data.as_str().as_bytes())))
                }
            },
            MimeType::Unknown => Err(DecodeError::UnknownMime),
        }
    }
}

} // verus!
