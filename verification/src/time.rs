//! Points in time, as the number of microseconds since the Unix epoch.

use vstd::prelude::*;

verus! {

/// A point in time on the UTC scale: microseconds since 1970-01-01T00:00:00Z.
#[derive(Clone, Copy, Debug, PartialEq, Eq, Structural)]
pub struct Timestamp {
    pub micros: i64,
}

impl Timestamp {
    /// The point in time `micros` microseconds after the epoch.
    pub fn from_micros(micros: i64) -> (r: Timestamp)
        ensures
            r.micros == micros,
    {
        Timestamp { micros }
    }

    /// Whether this point lies strictly before `other`.
    pub fn is_before(&self, other: &Timestamp) -> (r: bool)
        ensures
            r == (self.micros < other.micros),
    {
        self.micros < other.micros
    }
}

/// The clock of `chrono`: `Utc::now()` read as microseconds since the epoch
/// (`DateTime::timestamp_micros`). The clock refuses a system time before
/// the epoch, so the reading is never negative; nothing else is known of it.
#[verifier::external_body]
fn utc_now_micros() -> (r: i64)
    ensures
        r >= 0,
{
    chrono::Utc::now().timestamp_micros()
}

/// The current time. Two readings may differ, and nothing orders them.
pub fn now() -> (r: Timestamp)
    ensures
        r.micros >= 0,
{
    Timestamp { micros: utc_now_micros() }
}

} // verus!
