//! Helpers of the proposal commands: how a DID is shown and how a duration
//! argument is read.

use vstd::prelude::*;
use crate::compiler::flat::Parsed;
use crate::numeric::{parse_i64_range, parse_i64_spec};
use crate::text::{chars_of, lowercase, str_eq, to_lowercase, utf8_width};

verus! {

/// What a DID is shown as: for a text that begins with `did:`, the part
/// after its last `:`; any other text as it is.
pub open spec fn short_did(did: Seq<char>) -> Seq<char> {
    if crate::text::starts_with(did, "did:"@) {
        did.skip(crate::text::rfind_before(did, ':', did.len() as int) + 1)
    } else {
        did
    }
}

/// Shortens a DID for display (`did:coop:user123` becomes `user123`).
pub fn shorten_did(did: &str) -> (r: String)
    ensures
        r@ == short_did(did@),
{
    let cs = crate::text::chars_of(did);
    let s = cs.as_slice();
    if crate::text::str_starts_with(did, "did:") {
        proof {
            crate::text::lemma_rfind_bounds(s@, ':', s@.len() as int);
        }
        match crate::text::rfind_char(s, ':') {
            Some(k) => {
                let n = s.len();
                assert(k < n);
                let r = crate::text::string_of_range(s, k + 1, n);
                assert(r@ =~= s@.skip(k + 1));
                return r;
            },
            None => {},
        }
    }
    String::from_str(did)
}

/// The number of seconds in one unit of a duration argument.
pub open spec fn unit_seconds(u: char) -> Option<i64> {
    if u == 'd' {
        Some(86400)
    } else if u == 'h' {
        Some(3600)
    } else if u == 'm' {
        Some(60)
    } else if u == 's' {
        Some(1)
    } else {
        None
    }
}

/// The largest number of seconds a `chrono::Duration` made from seconds can
/// hold (`i64::MAX / 1000`).
pub const MAX_DURATION_SECONDS: i64 = 9223372036854775;

/// What `parse_duration_string` gives for `s`: a signed amount followed by
/// one unit letter (`d`, `h`, `m` or `s`), as a number of seconds. An empty
/// text, or one whose last character is not a single-byte unit letter, is
/// an invalid format; a duration beyond what `chrono::Duration` holds
/// cannot be made.
pub open spec fn duration_string_spec(s: Seq<char>) -> Parsed<i64> {
    if s.len() == 0 || utf8_width(s.last()) != 1 {
        Parsed::Error("Invalid duration format: "@ + s)
    } else {
        match parse_i64_spec(s.drop_last()) {
            None => Parsed::Error("Invalid duration format: "@ + s),
            Some(n) => match unit_seconds(s.last()) {
                None => Parsed::Error(
                    "Invalid duration unit: "@ + seq![s.last()] + ". Expected d, h, m, or s"@,
                ),
                Some(k) => if -MAX_DURATION_SECONDS <= n * k <= MAX_DURATION_SECONDS {
                    Parsed::Done((n * k) as i64)
                } else {
                    Parsed::Panic
                },
            },
        }
    }
}

/// Reads a duration argument such as `7d` or `24h` as a number of seconds.
pub fn parse_duration_string(duration_str: &str) -> (r: Result<i64, String>)
    requires
        !(duration_string_spec(duration_str@) is Panic),
    ensures
        match r {
            Ok(secs) => duration_string_spec(duration_str@) == Parsed::Done(secs),
            Err(m) => duration_string_spec(duration_str@) == Parsed::<i64>::Error(m@),
        },
{
    let cs = chars_of(duration_str);
    let s = cs.as_slice();
    if s.len() == 0 || (s[s.len() - 1] as u32) >= 0x80 {
        let mut m = String::from_str("Invalid duration format: ");
        m.append(duration_str);
        return Err(m);
    }
    let last = s[s.len() - 1];
    assert(s@.subrange(0, s@.len() - 1) =~= s@.drop_last());
    let num = match parse_i64_range(s, 0, s.len() - 1) {
        Some(n) => n,
        None => {
            let mut m = String::from_str("Invalid duration format: ");
            m.append(duration_str);
            return Err(m);
        },
    };
    let k: i64 = if last == 'd' {
        86400
    } else if last == 'h' {
        3600
    } else if last == 'm' {
        60
    } else if last == 's' {
        1
    } else {
        let mut m = String::from_str("Invalid duration unit: ");
        let u = crate::text::string_of_range(s, s.len() - 1, s.len());
        assert(u@ =~= seq![last]);
        m.append(u.as_str());
        m.append(". Expected d, h, m, or s");
        return Err(m);
    };
    assert(-MAX_DURATION_SECONDS <= num * k <= MAX_DURATION_SECONDS);
    Ok(num * k)
}

/// The stage of a proposal as the proposal commands list it.
#[derive(Debug, Clone, Copy, PartialEq, Eq, Structural)]
pub enum LocalProposalStatus {
    Draft,
    Deliberation,
    Active,
    Voting,
    Executed,
    Rejected,
    Expired,
}

/// The stage a lowercase status name stands for.
pub open spec fn status_named(name: Seq<char>) -> Option<LocalProposalStatus> {
    if name == "draft"@ {
        Some(LocalProposalStatus::Draft)
    } else if name == "deliberation"@ {
        Some(LocalProposalStatus::Deliberation)
    } else if name == "active"@ {
        Some(LocalProposalStatus::Active)
    } else if name == "voting"@ {
        Some(LocalProposalStatus::Voting)
    } else if name == "executed"@ {
        Some(LocalProposalStatus::Executed)
    } else if name == "rejected"@ {
        Some(LocalProposalStatus::Rejected)
    } else if name == "expired"@ {
        Some(LocalProposalStatus::Expired)
    } else {
        None
    }
}

/// Whether a proposal's stage is the one a status filter names, in any
/// case; a name of no stage matches nothing.
pub fn match_status(status: &LocalProposalStatus, status_str: &str) -> (b: bool)
    ensures
        b == (status_named(lowercase(status_str@)) == Some(*status)),
{
    let lower = to_lowercase(status_str);
    let l = lower.as_str();
    let named = if str_eq(l, "draft") {
        Some(LocalProposalStatus::Draft)
    } else if str_eq(l, "deliberation") {
        Some(LocalProposalStatus::Deliberation)
    } else if str_eq(l, "active") {
        Some(LocalProposalStatus::Active)
    } else if str_eq(l, "voting") {
        Some(LocalProposalStatus::Voting)
    } else if str_eq(l, "executed") {
        Some(LocalProposalStatus::Executed)
    } else if str_eq(l, "rejected") {
        Some(LocalProposalStatus::Rejected)
    } else if str_eq(l, "expired") {
        Some(LocalProposalStatus::Expired)
    } else {
        None
    };
    match named {
        Some(n) => n == *status,
        None => false,
    }
}

} // verus!
