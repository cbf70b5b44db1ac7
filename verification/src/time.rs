use vstd::prelude::*;

verus! {

/// A bound on the clock, in milliseconds from the Unix epoch: chrono's
/// `DateTime<Utc>` spans the years -262143 to 262142, which lie within
/// 10^16 milliseconds of the epoch.
pub const CLOCK_SPAN: i64 = 10000000000000000;

/// The current time as milliseconds since the Unix epoch
/// (`Utc::now().timestamp_millis()`). It is the clock's; all that is known
/// of it is that it lies within chrono's range.
#[verifier::external_body]
pub(crate) fn now_millis() -> (t: i64)
    ensures
        -CLOCK_SPAN < t < CLOCK_SPAN,
{
    chrono::Utc::now().timestamp_millis()
}

/// An RFC 3339 text in UTC as chrono writes it: at least the 25 characters
/// of `YYYY-MM-DDTHH:MM:SS+00:00`, ending in the offset `+00:00`.
pub open spec fn is_utc_rfc3339(t: Seq<char>) -> bool {
    &&& t.len() >= 25
    &&& t.subrange(t.len() - 6, t.len() as int) == "+00:00"@
}

/// The current time in RFC 3339 form (`Utc::now().to_rfc3339()`). The date
/// and time are the clock's, and nothing is claimed of them; chrono writes
/// the zero offset of `Utc` as `+00:00` after at least four digits of year,
/// the month, day, hour, minute and second.
#[verifier::external_body]
pub(crate) fn now_rfc3339() -> (t: String)
    ensures
        is_utc_rfc3339(t@),
{
    chrono::Utc::now().to_rfc3339()
}

} // verus!
