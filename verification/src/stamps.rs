//! Time stamps and record identities.
//!
//! Both depend on the outside world — the clock and a random source — so
//! nothing is promised of their values beyond their shape; the verified
//! functions take them as arguments and are proved for every value.

use vstd::prelude::*;

verus! {

/// Relies on chrono's Utc::now().to_rfc3339(): the current UTC time in
/// RFC 3339 text form. The clock decides the value; only non-emptiness is
/// promised.
#[verifier::external_body]
pub fn now_rfc3339() -> (r: String)
    ensures
        r@.len() > 0,
{
    chrono::Utc::now().to_rfc3339()
}

/// Relies on uuid's Uuid::new_v4 and its Display form: a random version-4
/// UUID rendered hyphenated, which is always 36 characters. The value is
/// random; nothing more is promised.
#[verifier::external_body]
pub(crate) fn new_record_id() -> (r: String)
    ensures
        r@.len() == 36,
{
    uuid::Uuid::new_v4().to_string()
}

} // verus!
