//! The table of Gemini status codes and their human-readable messages,
//! and the lookup used when a structured server response is shown.

use vstd::prelude::*;

verus! {

/// The documented message for a status code, or `None` when the code has
/// no entry in the table.
pub open spec fn message_for(code: u8) -> Option<Seq<char>> {
    if code == 10 {
        Some("Input required"@)
    } else if code == 20 {
        Some("Success"@)
    } else if code == 21 {
        Some("Success (End of Certificate Session)"@)
    } else if code == 30 {
        Some("Temporary Redirect"@)
    } else if code == 31 {
        Some("Permanent Redirect"@)
    } else if code == 40 {
        Some("Temporary Failure"@)
    } else if code == 41 {
        Some("Server Unavailable"@)
    } else if code == 42 {
        Some("CGI Error"@)
    } else if code == 43 {
        Some("Proxy Error"@)
    } else if code == 44 {
        Some("Slow Down (Rate Limited)"@)
    } else if code == 50 {
        Some("Permanent Failure"@)
    } else if code == 51 {
        Some("Not Found"@)
    } else if code == 52 {
        Some("Gone"@)
    } else if code == 53 {
        Some("Proxy Request Refused"@)
    } else if code == 59 {
        Some("Bad Request"@)
    } else if code == 60 {
        Some("Client Certificate Required"@)
    } else if code == 61 {
        Some("Transient Certificate Required"@)
    } else if code == 62 {
        Some("Authorized Certificate Required"@)
    } else if code == 63 {
        Some("Certificate Not Accepted"@)
    } else if code == 64 {
        Some("Future Certificate Rejected"@)
    } else if code == 65 {
        Some("Expred Certificate Rejected"@)
    } else {
        None
    }
}

/// The message that an unmapped status code falls back to.
pub open spec fn unknown_status_message() -> Seq<char> {
    "Unknown Status Code"@
}

/// Looks up the documented message for a status code.
pub fn get_message_for(code: u8) -> (r: Option<String>)
    ensures
        r is Some <==> message_for(code) is Some,
        r is Some ==> r->0@ == message_for(code)->0,
{
    if code == 10 {
        Some(String::from_str("Input required"))
    } else if code == 20 {
        Some(String::from_str("Success"))
    } else if code == 21 {
        Some(String::from_str("Success (End of Certificate Session)"))
    } else if code == 30 {
        Some(String::from_str("Temporary Redirect"))
    } else if code == 31 {
        Some(String::from_str("Permanent Redirect"))
    } else if code == 40 {
        Some(String::from_str("Temporary Failure"))
    } else if code == 41 {
        Some(String::from_str("Server Unavailable"))
    } else if code == 42 {
        Some(String::from_str("CGI Error"))
    } else if code == 43 {
        Some(String::from_str("Proxy Error"))
    } else if code == 44 {
        Some(String::from_str("Slow Down (Rate Limited)"))
    } else if code == 50 {
        Some(String::from_str("Permanent Failure"))
    } else if code == 51 {
        Some(String::from_str("Not Found"))
    } else if code == 52 {
        Some(String::from_str("Gone"))
    } else if code == 53 {
        Some(String::from_str("Proxy Request Refused"))
    } else if code == 59 {
        Some(String::from_str("Bad Request"))
    } else if code == 60 {
        Some(String::from_str("Client Certificate Required"))
    } else if code == 61 {
        Some(String::from_str("Transient Certificate Required"))
    } else if code == 62 {
        Some(String::from_str("Authorized Certificate Required"))
    } else if code == 63 {
        Some(String::from_str("Certificate Not Accepted"))
    } else if code == 64 {
        Some(String::from_str("Future Certificate Rejected"))
    } else if code == 65 {
        Some(String::from_str("Expred Certificate Rejected"))
    } else {
        None
    }
}

/// The message shown for a status code: the documented one where the table
/// has an entry, `"Unknown Status Code"` otherwise.
pub fn status_message(code: u8) -> (r: String)
    ensures
        message_for(code) is Some ==> r@ == message_for(code)->0,
        message_for(code) is None ==> r@ == unknown_status_message(),
{
    match get_message_for(code) {
        Some(m) => m,
        None => String::from_str("Unknown Status Code"),
    }
}

} // verus!
