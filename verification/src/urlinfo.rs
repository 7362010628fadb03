//! URL handling reduced to plain values: the parts a navigation needs
//! (scheme, host, port) and relative-reference resolution against a base.

use vstd::prelude::*;

verus! {

/// The scheme, host and explicit port of a URL, or nothing when the URL
/// is invalid or has no host.  A function of the string alone.
pub uninterp spec fn url_parts_of(s: Seq<char>) -> Option<(Seq<char>, Seq<char>, Option<u16>)>;

/// Relies on `url::Url::parse`, `Url::scheme`, `Url::host_str` and
/// `Url::port`: takes a URL apart into scheme, host and explicit port;
/// nothing for an invalid URL or one without a host.
#[verifier::external_body]
pub fn url_parts(s: &str) -> (r: Option<(String, String, Option<u16>)>)
    ensures
        r is Some <==> url_parts_of(s@) is Some,
        r is Some ==> (r->0).0@ == (url_parts_of(s@)->0).0,
        r is Some ==> (r->0).1@ == (url_parts_of(s@)->0).1,
        r is Some ==> (r->0).2 == (url_parts_of(s@)->0).2,
{
    match url::Url::parse(s) {
        Ok(u) => match u.host_str() {
            Some(h) => Some((u.scheme().to_owned(), h.to_owned(), u.port())),
            None => None,
        },
        Err(_) => None,
    }
}

/// What resolving `rel` against the base URL `base` yields, or nothing
/// when the base is invalid or the join fails.  A function of the two
/// strings alone.
pub uninterp spec fn url_join_of(base: Seq<char>, rel: Seq<char>) -> Option<Seq<char>>;

/// Relies on `url::Url::parse`, `Url::join` and the `Display` rendering
/// of `Url`: resolves a (possibly relative) link target against a base
/// URL and hands the absolute URL back as a string.
#[verifier::external_body]
pub fn join_url(base: &str, rel: &str) -> (r: Option<String>)
    ensures
        r is Some <==> url_join_of(base@, rel@) is Some,
        r is Some ==> r->0@ == url_join_of(base@, rel@)->0,
{
    match url::Url::parse(base) {
        Ok(b) => match b.join(rel) {
            Ok(u) => Some(u.to_string()),
            Err(_) => None,
        },
        Err(_) => None,
    }
}

} // verus!
