//! Configuration of the CSRF-token lifetime.

use vstd::prelude::*;

verus! {

/// CSRF tokens are valid for one hour unless configured otherwise.
pub fn default_ttl() -> (r: i64)
    ensures
        r == 3600,
{
    3600
}

/// The CSRF configuration section: the token time-to-live, in seconds.
#[derive(Clone, Copy, PartialEq, Eq, Structural, Debug)]
pub struct CsrfConfig {
    pub ttl_s: i64,
}

impl CsrfConfig {
    /// Where this section lives in the configuration tree.
    pub fn path() -> (r: &'static str)
        ensures
            r@ == "csrf"@,
    {
        "csrf"
    }

    /// The configuration to generate when none is on disk: the default.
    pub fn generate() -> (r: Self)
        ensures
            r.ttl_s == 3600,
    {
        CsrfConfig { ttl_s: default_ttl() }
    }
}

impl Default for CsrfConfig {
    /// One-hour token lifetime.
    fn default() -> (r: Self)
        ensures
            r.ttl_s == 3600,
    {
        CsrfConfig { ttl_s: default_ttl() }
    }
}

} // verus!
