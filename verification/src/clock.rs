//! Points in time as text.

use vstd::prelude::*;

verus! {

/// What `chrono` writes for a number of seconds since the Unix epoch, in UTC, as RFC 3339; nothing
/// where the number is outside the years that it supports.
pub uninterp spec fn rfc3339_of(secs: i64) -> Option<Seq<char>>;

/// Calls `chrono::DateTime::from_timestamp` with no nanoseconds and `to_rfc3339` on the result. Both
/// depend on the number alone.
#[verifier::external_body]
pub(crate) fn rfc3339(secs: i64) -> (r: Option<String>)
    ensures
        r is Some <==> rfc3339_of(secs) is Some,
        r matches Some(t) ==> rfc3339_of(secs) == Some(t@),
{
    chrono::DateTime::from_timestamp(secs, 0).map(|t| t.to_rfc3339())
}

/// Calls `chrono::Utc::now` and `to_rfc3339` on the result. The text depends on the clock: nothing
/// is claimed of it.
#[verifier::external_body]
pub(crate) fn utc_now() -> (r: String) {
    chrono::Utc::now().to_rfc3339()
}

} // verus!
