//! The few calls this library makes into outside crates, each behind a
//! contract that states only what the callee's source shows.

use vstd::prelude::*;

verus! {

/// Relies on uuid::Uuid::new_v4 and Uuid's Display impl: a fresh random
/// identifier, printed in the hyphenated form of 32 hex digits and 4
/// hyphens. The value is random, so nothing beyond its length is assumed.
#[verifier::external_body]
pub(crate) fn fresh_id() -> (r: String)
    ensures
        r@.len() == 36,
{
    uuid::Uuid::new_v4().to_string()
}

/// Relies on chrono::Utc::now and DateTime::to_rfc3339: the current wall
/// clock, written as an RFC 3339 timestamp. The value depends on the clock,
/// so nothing is assumed of it.
#[verifier::external_body]
pub(crate) fn current_timestamp() -> String {
    chrono::Utc::now().to_rfc3339()
}

/// Relies on String::from_utf8: it succeeds exactly on valid UTF-8 and
/// yields the characters those bytes encode.
#[verifier::external_body]
pub(crate) fn utf8_string(bytes: Vec<u8>) -> (r: Option<String>)
    ensures
        r is Some <==> vstd::utf8::valid_utf8(bytes@),
        r matches Some(s) ==> s@ == vstd::utf8::decode_utf8(bytes@),
{
    String::from_utf8(bytes).ok()
}

} // verus!
