//! A verified core for a small-web document browser: parsers for the
//! Gemtext and Gopher-map formats, a `data:` URL codec, Gemini and Spartan
//! response parsers, and the session (history / navigation) state machine.
//!
//! Network and file I/O, TLS, and rendering live outside this crate; the
//! functions here work on plain values and carry contracts for what they
//! compute.

pub mod buffer;
pub mod data_url;
pub mod file;
pub mod gemini;
pub mod gemtext;
pub mod gopher;
pub mod history;
pub mod laws;
pub mod outside;
pub mod protocol;
pub mod scheme;
pub mod spartan;
pub mod strutil;
