//! Parsing of the response header line `<two digits> SP <meta>` and the
//! classification of status codes into the four classes the client acts
//! on.

use vstd::prelude::*;

use crate::decode::{utf8_bytes_to_string_lossy, utf8_lossy_of};
use crate::errors::ProtocolError;

verus! {

/// An ASCII decimal digit.
pub open spec fn is_digit(b: u8) -> bool {
    0x30 <= b <= 0x39
}

/// A well-formed header line (without its CRLF): exactly two digits, one
/// space, and a non-empty meta.  Nothing else can fail it: the meta's
/// bytes are decoded tolerantly, whatever they are.
pub open spec fn header_ok(h: Seq<u8>) -> bool {
    &&& h.len() >= 4
    &&& is_digit(h[0])
    &&& is_digit(h[1])
    &&& h[2] == 0x20
}

/// The two-digit status of a well-formed header line.
pub open spec fn header_status(h: Seq<u8>) -> int {
    (h[0] - 0x30) * 10 + (h[1] - 0x30)
}

/// The meta text of a well-formed header line: everything after the
/// single space, decoded lossily.
pub open spec fn header_meta(h: Seq<u8>) -> Seq<char> {
    utf8_lossy_of(h.skip(3))
}

/// Parses a header line into status and meta; fails exactly on lines
/// whose status is not two ASCII digits or whose meta is absent.
pub fn parse_header(line: &[u8]) -> (r: Result<(u8, String), ProtocolError>)
    ensures
        r is Ok <==> header_ok(line@),
        r is Ok ==> (r->Ok_0).0 as int == header_status(line@),
        r is Ok ==> (r->Ok_0).1@ == header_meta(line@),
        r is Err ==> r->Err_0 is MalformedHeader,
{
    let n = line.len();
    if n < 4 {
        return Err(ProtocolError::MalformedHeader);
    }
    let b0 = *vstd::slice::slice_index_get(line, 0);
    let b1 = *vstd::slice::slice_index_get(line, 1);
    let b2 = *vstd::slice::slice_index_get(line, 2);
    if !(0x30 <= b0 && b0 <= 0x39) || !(0x30 <= b1 && b1 <= 0x39) || b2 != 0x20 {
        return Err(ProtocolError::MalformedHeader);
    }
    let meta_bytes = vstd::slice::slice_subrange(line, 3, n);
    let meta = utf8_bytes_to_string_lossy(meta_bytes);
    let status: u8 = (b0 - 0x30) * 10 + (b1 - 0x30);
    proof {
        assert(meta_bytes@ =~= line@.skip(3));
    }
    Ok((status, meta))
}

/// The four classes a status code falls into.
#[derive(Clone, Copy, Debug, PartialEq, Eq, Structural)]
pub enum StatusClass {
    /// 10–19: the server asks for input; meta is the prompt.
    Input,
    /// 20–29: success; meta is the mimetype and a body follows.
    Success,
    /// 30–39: redirect; meta is the target URL.
    Redirect,
    /// Every other code: a structured terminal outcome; meta is a human
    /// message.
    Failure,
}

/// The class of a status code.
pub open spec fn status_class_s(status: int) -> StatusClass {
    if 10 <= status <= 19 {
        StatusClass::Input
    } else if 20 <= status <= 29 {
        StatusClass::Success
    } else if 30 <= status <= 39 {
        StatusClass::Redirect
    } else {
        StatusClass::Failure
    }
}

/// Classifies a status code.
pub fn classify_status(status: u8) -> (r: StatusClass)
    ensures
        r == status_class_s(status as int),
{
    if 10 <= status && status <= 19 {
        StatusClass::Input
    } else if 20 <= status && status <= 29 {
        StatusClass::Success
    } else if 30 <= status && status <= 39 {
        StatusClass::Redirect
    } else {
        StatusClass::Failure
    }
}

} // verus!
