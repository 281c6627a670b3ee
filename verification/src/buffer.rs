//! The buffer holding the currently displayed page: its MIME type and its
//! raw bytes.

use vstd::prelude::*;

verus! {

/// The current page's source: MIME type and raw content bytes.
#[derive(Clone, Debug)]
pub struct Buffer {
    pub mime: String,
    pub content: Vec<u8>,
}

impl Default for Buffer {
    /// An empty buffer.
    fn default() -> (r: Self)
        ensures
            r.mime@.len() == 0,
            r.content@.len() == 0,
    {
        Self { mime: String::new(), content: Vec::new() }
    }
}

impl Buffer {
    /// A buffer holding a Gemini response: the meta string becomes the
    /// MIME type and the body becomes the content.
    pub fn from_gmi_response(response: crate::protocol::Response) -> (r: Self)
        ensures
            r.mime@ == response.meta@,
            r.content@ == response.data@,
    {
        Self { mime: response.meta, content: response.data }
    }
}

} // verus!
