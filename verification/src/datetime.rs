//! Instants of time, as RFC 3339 texts denote them.

use vstd::prelude::*;
use crate::text::Order;

verus! {

/// An instant: whole seconds since 1970-01-01T00:00:00Z, not counting leap seconds,
/// and the nanoseconds since the last whole second. Within a leap second the
/// nanoseconds run on past 999,999,999.
#[derive(Debug, Clone, Copy, PartialEq, Eq, Structural)]
pub struct Timestamp {
    pub seconds: i64,
    pub nanos: u32,
}

/// What `chrono` makes of a text read as an RFC 3339 date and time: the instant's
/// seconds and nanoseconds, or nothing where it rejects the text.
pub uninterp spec fn rfc3339_instant(text: Seq<char>) -> Option<(i64, u32)>;

/// The instant that a text denotes, if it is an RFC 3339 date and time.
pub open spec fn instant_of(text: Seq<char>) -> Option<Timestamp> {
    match rfc3339_instant(text) {
        Some((seconds, nanos)) => Some(Timestamp { seconds, nanos }),
        None => None,
    }
}

/// Earlier, same or later: by the seconds first, then by the nanoseconds.
pub open spec fn instant_order(a: Timestamp, b: Timestamp) -> Order {
    if a.seconds < b.seconds || (a.seconds == b.seconds && a.nanos < b.nanos) {
        Order::Less
    } else if a.seconds == b.seconds && a.nanos == b.nanos {
        Order::Equal
    } else {
        Order::Greater
    }
}

/// Calls `chrono::DateTime::parse_from_rfc3339`, then `timestamp` and
/// `timestamp_subsec_nanos` on what it returns. Not proved: the pair is a function
/// of the text alone (the offset is part of the text).
#[verifier::external_body]
fn parse_rfc3339(text: &str) -> (r: Option<(i64, u32)>)
    ensures
        r == rfc3339_instant(text@),
{
    match chrono::DateTime::parse_from_rfc3339(text) {
        Ok(d) => Some((d.timestamp(), d.timestamp_subsec_nanos())),
        Err(_) => None,
    }
}

impl Timestamp {
    /// Reads an RFC 3339 date and time.
    pub fn parse(text: &str) -> (r: Option<Timestamp>)
        ensures
            r == instant_of(text@),
    {
        match parse_rfc3339(text) {
            Some((seconds, nanos)) => Some(Timestamp { seconds, nanos }),
            None => None,
        }
    }

    /// How the instant `self` stands to the instant `other`.
    pub fn order(&self, other: &Timestamp) -> (r: Order)
        ensures
            r == instant_order(*self, *other),
    {
        if self.seconds < other.seconds || (self.seconds == other.seconds && self.nanos
            < other.nanos) {
            Order::Less
        } else if self.seconds == other.seconds && self.nanos == other.nanos {
            Order::Equal
        } else {
            Order::Greater
        }
    }
}

} // verus!
