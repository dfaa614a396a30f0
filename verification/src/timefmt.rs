//! RFC 2822 rendering of the timestamps that date the `Release` document.

use vstd::prelude::*;

verus! {

/// The largest timestamp the formatter accepts: the last second of year
/// 9999, well inside chrono's own range.
pub const MAX_DATE_SECS: i64 = 253402300799;

/// The RFC 2822 rendering of the UTC date `secs` seconds after the Unix
/// epoch: a function of `secs` alone.
pub uninterp spec fn rfc2822_of(secs: int) -> Seq<char>;

/// Relies on `chrono::DateTime::<Utc>::from_timestamp` and `to_rfc2822`:
/// within the admitted range `from_timestamp` returns `Some`, and the
/// rendering depends on the timestamp alone (UTC, no environment).
#[verifier::external_body]
pub fn rfc2822_utc(secs: i64) -> (r: String)
    requires
        0 <= secs <= MAX_DATE_SECS,
    ensures
        r@ == rfc2822_of(secs as int),
{
    chrono::DateTime::<chrono::Utc>::from_timestamp(secs, 0).unwrap().to_rfc2822()
}

} // verus!
