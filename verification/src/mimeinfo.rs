//! Mime handling: a parsed mime string is reduced to the two plain values
//! the core reads — the essence (`type/subtype` without parameters) and
//! the optional charset parameter.

use vstd::prelude::*;

verus! {

/// What parsing a mime string yields: its essence and optional charset
/// parameter, or nothing for an invalid mime string.  A function of the
/// string alone.
pub uninterp spec fn mime_parts_of(s: Seq<char>) -> Option<(Seq<char>, Option<Seq<char>>)>;

/// Relies on `mime::Mime::from_str`, `Mime::essence_str` and
/// `Mime::get_param(mime::CHARSET)`: parses a mime string and hands back
/// its essence and charset parameter as plain strings.
#[verifier::external_body]
pub fn parse_mime(s: &str) -> (r: Option<(String, Option<String>)>)
    ensures
        r is Some <==> mime_parts_of(s@) is Some,
        r is Some ==> (r->0).0@ == (mime_parts_of(s@)->0).0,
        r is Some ==> ((r->0).1 is Some <==> (mime_parts_of(s@)->0).1 is Some),
        r is Some && (r->0).1 is Some ==> ((r->0).1)->0@ == ((mime_parts_of(s@)->0).1)->0,
{
    match s.parse::<mime::Mime>() {
        Ok(m) => {
            let essence = m.essence_str().to_owned();
            let charset = match m.get_param(mime::CHARSET) {
                Some(v) => Some(v.as_str().to_owned()),
                None => None,
            };
            Some((essence, charset))
        },
        Err(_) => None,
    }
}

} // verus!
