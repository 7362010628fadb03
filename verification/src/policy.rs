//! The pluggable certificate-trust policy of the TLS transport.  The
//! transport asks the policy, never decides itself, so a stricter policy
//! (for example trust-on-first-use pinning) can replace this one without
//! touching the transport.

use vstd::prelude::*;

verus! {

/// The current policy: accept every server certificate.  This is a known
/// security gap kept deliberately visible — a trust-on-first-use scheme
/// belongs here.
pub struct GeminiVerifier {}

impl GeminiVerifier {
    /// The accept-all policy.
    pub fn new() -> (r: Self) {
        GeminiVerifier {  }
    }

    /// Whether the presented certificate chain is trusted for the host.
    /// Under the current policy: always.
    pub fn accepts(&self, _host: &str, _certificates_der: &Vec<Vec<u8>>) -> (r: bool)
        ensures
            r,
    {
        true
    }
}

} // verus!
