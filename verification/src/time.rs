//! Instants on the UTC time line, held as plain integers.

use vstd::prelude::*;

verus! {

/// A point in time: the whole seconds since 1970-01-01T00:00:00Z and the
/// nanoseconds past that second.
///
/// Two instants are ordered by their seconds first and their nanoseconds second.
/// Within a leap second `nanos` may reach past 999,999,999; no function here asks
/// that it does not.
#[derive(Clone, Copy, Debug, PartialEq, Eq, Structural)]
pub struct Timestamp {
    pub secs: i64,
    pub nanos: u32,
}

/// What chrono reads out of a date and time written with its offset from UTC:
/// the seconds since the epoch and the nanoseconds past them, or `None` where
/// chrono rejects the text.
pub uninterp spec fn utc_instant(text: Seq<char>) -> Option<(i64, u32)>;

/// Calls chrono's `FromStr` for `DateTime<Utc>` (a relaxed RFC 3339 reader) and
/// hands out the instant as `DateTime::timestamp` and
/// `DateTime::timestamp_subsec_nanos` report it. Nothing is claimed of which
/// texts chrono accepts, only that the outcome depends on the text alone; a text
/// that chrono rejects gives `None`.
#[verifier::external_body]
fn read_utc(text: &str) -> (r: Option<(i64, u32)>)
    ensures
        r == utc_instant(text@),
{
    match text.parse::<chrono::DateTime<chrono::Utc>>() {
        Ok(at) => Some((at.timestamp(), at.timestamp_subsec_nanos())),
        Err(_) => None,
    }
}

impl Timestamp {
    /// The instant that `text` denotes, if chrono can read one from it.
    pub open spec fn of_text(text: Seq<char>) -> Option<Timestamp> {
        match utc_instant(text) {
            Some(parts) => Some(Timestamp { secs: parts.0, nanos: parts.1 }),
            None => None,
        }
    }

    /// Whether `self` lies strictly after `other`.
    pub open spec fn spec_is_after(self, other: Timestamp) -> bool {
        self.secs > other.secs || (self.secs == other.secs && self.nanos > other.nanos)
    }

    /// The nanoseconds from `earlier` to `self`; negative where `self` comes first.
    pub open spec fn nanos_since(self, earlier: Timestamp) -> int {
        (self.secs - earlier.secs) * 1_000_000_000 + (self.nanos - earlier.nanos)
    }

    /// The whole seconds from `earlier` to `self`, rounded toward zero.
    pub open spec fn whole_seconds_since(self, earlier: Timestamp) -> int {
        let n = self.nanos_since(earlier);
        if n >= 0 {
            n / 1_000_000_000
        } else {
            -((-n) / 1_000_000_000)
        }
    }

    /// The instant `hours` hours before `self`.
    pub open spec fn spec_hours_before(self, hours: u16) -> Timestamp
        recommends
            self.secs - 3_600 * hours >= i64::MIN,
    {
        Timestamp { secs: (self.secs - 3_600 * hours) as i64, nanos: self.nanos }
    }

    /// The instant `nanos` nanoseconds past the second `secs`.
    pub fn new(secs: i64, nanos: u32) -> (r: Timestamp)
        ensures
            r == (Timestamp { secs, nanos }),
    {
        Timestamp { secs, nanos }
    }

    /// Reads an instant from a date and time written with its offset from UTC,
    /// such as `2024-01-01T12:00:00Z`.
    pub fn parse(text: &str) -> (r: Option<Timestamp>)
        ensures
            r == Timestamp::of_text(text@),
    {
        match read_utc(text) {
            Some(parts) => Some(Timestamp { secs: parts.0, nanos: parts.1 }),
            None => None,
        }
    }

    /// Whether `self` lies strictly after `other`.
    #[verifier::when_used_as_spec(spec_is_after)]
    pub fn is_after(self, other: Timestamp) -> (r: bool)
        ensures
            r == self.spec_is_after(other),
    {
        self.secs > other.secs || (self.secs == other.secs && self.nanos > other.nanos)
    }

    /// The whole seconds from `earlier` to `self`, rounded toward zero. Any two
    /// instants are that many seconds apart: the result is wide enough for all.
    pub fn seconds_since(self, earlier: Timestamp) -> (r: i128)
        ensures
            r == self.whole_seconds_since(earlier),
    {
        let secs: i128 = self.secs as i128 - earlier.secs as i128;
        let nanos: i128 = self.nanos as i128 - earlier.nanos as i128;
        let n: i128 = secs * 1_000_000_000 + nanos;
        if n >= 0 {
            ((n as u128) / 1_000_000_000) as i128
        } else {
            let back: u128 = (-n) as u128;
            -((back / 1_000_000_000) as i128)
        }
    }

    /// The instant `hours` hours before `self`, where seconds reach that far
    /// back.
    #[verifier::when_used_as_spec(spec_hours_before)]
    pub fn hours_before(self, hours: u16) -> (r: Timestamp)
        requires
            self.secs - 3_600 * hours >= i64::MIN,
        ensures
            r == self.spec_hours_before(hours),
    {
        Timestamp { secs: self.secs - 3_600 * (hours as i64), nanos: self.nanos }
    }
}

} // verus!
