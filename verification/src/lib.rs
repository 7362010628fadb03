//! Core of a small Gemini-protocol browser: the protocol codec that turns
//! raw response bytes into a stream of events, the streaming text decoder,
//! the gemtext markup parser, the document that accumulates parsed lines,
//! an integer-geometry layout engine with a render cache and hit testing,
//! and the navigation session rules (status classes, redirect bound).
//!
//! Everything here is pure logic over plain values; the windowing shell,
//! network transport and raster painting live outside this crate and talk
//! to it through byte chunks, strings and integer geometry.

pub mod cache;
pub mod codec;
pub mod config;
pub mod decode;
pub mod doc;
pub mod errors;
pub mod header;
pub mod hit;
pub mod layout;
pub mod line;
pub mod mimeinfo;
pub mod policy;
pub mod session;
pub mod status;
pub mod text;
pub mod urlinfo;
