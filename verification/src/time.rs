//! Instants in UTC, as chrono represents them, and their RFC 3339 text.

use vstd::prelude::*;
use chrono::{DateTime, SecondsFormat, Utc};

verus! {

/// Whether chrono has a `DateTime<Utc>` for `seconds` seconds and `nanos`
/// nanoseconds after the Unix epoch (`DateTime::from_timestamp` gives
/// `Some`).
pub uninterp spec fn chrono_instant(seconds: i64, nanos: u32) -> bool;

/// The RFC 3339 text chrono writes for that instant with nanosecond
/// precision and a `Z` offset.
pub uninterp spec fn chrono_rfc3339(seconds: i64, nanos: u32) -> Seq<char>;

/// What chrono reads from an RFC 3339 text, converted to UTC: the instant's
/// seconds and nanoseconds since the epoch, or `None` when it rejects the
/// text.
pub uninterp spec fn chrono_rfc3339_reading(text: Seq<char>) -> Option<(i64, u32)>;

/// `DateTime::<Utc>::from_timestamp(seconds, nanos).is_some()`.
#[verifier::external_body]
fn instant_exists(seconds: i64, nanos: u32) -> (r: bool)
    ensures
        r == chrono_instant(seconds, nanos),
{
    DateTime::<Utc>::from_timestamp(seconds, nanos).is_some()
}

/// Whether an instant lies in the years 0 through 9999, which RFC 3339
/// text writes with four digits.
pub open spec fn four_digit_year(seconds: i64) -> bool {
    -62_167_219_200 <= seconds < 253_402_300_800
}

/// `DateTime::<Utc>::from_timestamp(seconds, nanos)` written by
/// `to_rfc3339_opts(SecondsFormat::Nanos, true)`. The text is RFC 3339,
/// whose grammar has no `|`. In the years 0 through 9999 the year takes
/// four digits and the fraction all nine, so `parse_from_rfc3339` reads
/// the same instant back (a leap second's `:60` included); other years
/// are written with a sign, which that parser refuses.
#[verifier::external_body]
fn format_rfc3339(seconds: i64, nanos: u32) -> (r: String)
    requires
        chrono_instant(seconds, nanos),
    ensures
        r@ == chrono_rfc3339(seconds, nanos),
        !r@.contains('|'),
        four_digit_year(seconds) ==> chrono_rfc3339_reading(r@) == Some((seconds, nanos)),
{
    DateTime::<Utc>::from_timestamp(seconds, nanos).unwrap_or_default().to_rfc3339_opts(
        SecondsFormat::Nanos,
        true,
    )
}

/// `DateTime::parse_from_rfc3339(text)` converted to UTC, as
/// `(timestamp(), timestamp_subsec_nanos())`. chrono documents that
/// `from_timestamp` accepts what these two return for any `DateTime`.
#[verifier::external_body]
fn parse_rfc3339(text: &str) -> (r: Option<(i64, u32)>)
    ensures
        r == chrono_rfc3339_reading(text@),
        r matches Some((s, n)) ==> chrono_instant(s, n),
{
    match DateTime::parse_from_rfc3339(text) {
        Ok(d) => {
            let u = d.with_timezone(&Utc);
            Some((u.timestamp(), u.timestamp_subsec_nanos()))
        },
        Err(_) => None,
    }
}

/// An instant in UTC: seconds and nanoseconds since the Unix epoch that
/// chrono can represent.
#[derive(Debug, Clone, Copy, PartialEq, Eq, Structural)]
pub struct Timestamp {
    seconds: i64,
    nanos: u32,
}

/// Chronological order of instants.
pub open spec fn ts_le(a: Timestamp, b: Timestamp) -> bool {
    a.secs() < b.secs() || (a.secs() == b.secs() && a.subsec() <= b.subsec())
}

impl Timestamp {
    #[verifier::type_invariant]
    spec fn representable(self) -> bool {
        chrono_instant(self.seconds, self.nanos)
    }

    /// Whole seconds since the epoch.
    pub closed spec fn secs(self) -> i64 {
        self.seconds
    }

    /// Nanoseconds past the whole second.
    pub closed spec fn subsec(self) -> u32 {
        self.nanos
    }

    /// Two instants with the same seconds and nanoseconds are the same.
    pub proof fn lemma_same_instant(a: Timestamp, b: Timestamp)
        requires
            a.secs() == b.secs(),
            a.subsec() == b.subsec(),
        ensures
            a == b,
    {
    }

    /// The instant `seconds` s + `nanos` ns after the epoch, when chrono
    /// can represent it.
    pub fn new(seconds: i64, nanos: u32) -> (r: Option<Timestamp>)
        ensures
            r is Some <==> chrono_instant(seconds, nanos),
            r matches Some(t) ==> t.secs() == seconds && t.subsec() == nanos,
    {
        if instant_exists(seconds, nanos) {
            Some(Timestamp { seconds, nanos })
        } else {
            None
        }
    }

    pub fn seconds(&self) -> (r: i64)
        ensures
            r == self.secs(),
    {
        self.seconds
    }

    pub fn nanos(&self) -> (r: u32)
        ensures
            r == self.subsec(),
    {
        self.nanos
    }

    /// Whether `self` is no later than `other`.
    pub fn le(self, other: Timestamp) -> (r: bool)
        ensures
            r == ts_le(self, other),
    {
        self.seconds < other.seconds || (self.seconds == other.seconds && self.nanos <= other.nanos)
    }

    /// The RFC 3339 text of the instant, with nanoseconds and `Z`; it
    /// reads back as the same instant in the years 0 through 9999.
    pub fn to_rfc3339(&self) -> (r: String)
        ensures
            r@ == chrono_rfc3339(self.secs(), self.subsec()),
            !r@.contains('|'),
            four_digit_year(self.secs()) ==> chrono_rfc3339_reading(r@) == Some((self.secs(), self.subsec())),
    {
        proof {
            use_type_invariant(self);
        }
        format_rfc3339(self.seconds, self.nanos)
    }

    /// The instant an RFC 3339 text denotes, in UTC.
    pub fn parse_rfc3339(text: &str) -> (r: Option<Timestamp>)
        ensures
            r is None <==> chrono_rfc3339_reading(text@) is None,
            r matches Some(t) ==> chrono_rfc3339_reading(text@) == Some((t.secs(), t.subsec())),
    {
        match parse_rfc3339(text) {
            Some((seconds, nanos)) => Some(Timestamp { seconds, nanos }),
            None => None,
        }
    }
}

} // verus!
