//! Error taxonomy of the core: content errors (bad bytes or a bad line),
//! protocol errors (malformed header, unknown mime), and navigation
//! errors (the redirect bound).

use vstd::prelude::*;

verus! {

/// A fault in the document content itself.
#[derive(Clone, Copy, Debug, PartialEq, Eq, Structural)]
pub enum ContentError {
    /// A link line with no target token; fails that line only.
    MissingLinkTarget,
    /// Bytes that the declared character encoding cannot decode; aborts
    /// the navigation.
    MalformedEncoding,
}

impl ContentError {
    /// A short description of the error.
    pub fn message(&self) -> (r: String)
        ensures
            *self is MissingLinkTarget ==> r@ == "link line has no target"@,
            *self is MalformedEncoding ==> r@ == "malformed input for declared encoding"@,
    {
        match self {
            ContentError::MissingLinkTarget => String::from_str("link line has no target"),
            ContentError::MalformedEncoding => String::from_str(
                "malformed input for declared encoding",
            ),
        }
    }
}

/// A fault in the server's side of the protocol exchange.
#[derive(Clone, Copy, Debug, PartialEq, Eq, Structural)]
pub enum ProtocolError {
    /// The response header is not `<two digits> SP <meta>`.
    MalformedHeader,
    /// The response mimetype cannot be parsed at all.
    InvalidMime,
    /// No renderer is registered for the response's mime essence.
    UnknownMime,
}

impl ProtocolError {
    /// A short description of the error.
    pub fn message(&self) -> (r: String)
        ensures
            *self is MalformedHeader ==> r@ == "malformed response header"@,
            *self is InvalidMime ==> r@ == "cannot parse response mimetype"@,
            *self is UnknownMime ==> r@ == "no renderer for mime"@,
    {
        match self {
            ProtocolError::MalformedHeader => String::from_str("malformed response header"),
            ProtocolError::InvalidMime => String::from_str("cannot parse response mimetype"),
            ProtocolError::UnknownMime => String::from_str("no renderer for mime"),
        }
    }
}

/// A fault in the navigation itself rather than in any one response.
#[derive(Clone, Copy, Debug, PartialEq, Eq, Structural)]
pub enum NavError {
    /// More than the allowed number of consecutive redirects.
    RedirectLoop,
}

impl NavError {
    /// A short description of the error.
    pub fn message(&self) -> (r: String)
        ensures
            r@ == "loop detected"@,
    {
        match self {
            NavError::RedirectLoop => String::from_str("loop detected"),
        }
    }
}

} // verus!
