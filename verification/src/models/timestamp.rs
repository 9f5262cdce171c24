use vstd::prelude::*;

verus! {

/// A point in time in UTC: whole seconds since 1970-01-01 00:00:00 and the
/// nanoseconds past that second.
#[derive(Debug, PartialEq, Eq, Clone, Copy, Structural)]
pub struct Timestamp {
    pub secs: i64,
    pub nanos: u32,
}

impl Timestamp {
    /// Chronological order: by seconds, then by nanoseconds.
    pub open spec fn before(self, other: Timestamp) -> bool {
        self.secs < other.secs || (self.secs == other.secs && self.nanos < other.nanos)
    }

    pub fn new(secs: i64, nanos: u32) -> (t: Timestamp)
        ensures
            t == (Timestamp { secs, nanos }),
    {
        Timestamp { secs, nanos }
    }

    pub fn secs(&self) -> (secs: i64)
        ensures
            secs == self.secs,
    {
        self.secs
    }

    pub fn nanos(&self) -> (nanos: u32)
        ensures
            nanos == self.nanos,
    {
        self.nanos
    }

    /// Whether `self` lies strictly earlier than `other`.
    pub fn is_before(&self, other: &Timestamp) -> (earlier: bool)
        ensures
            earlier == self.before(*other),
    {
        self.secs < other.secs || (self.secs == other.secs && self.nanos < other.nanos)
    }
}

/// Reads the wall clock through `chrono::Utc::now` and splits the instant into
/// `DateTime::timestamp` and `DateTime::timestamp_subsec_nanos`. Nothing is
/// claimed of the value: two readings may be equal, and the clock may step back.
#[verifier::external_body]
pub(crate) fn utc_now() -> (t: Timestamp) {
    let now = chrono::Utc::now();
    Timestamp { secs: now.timestamp(), nanos: now.timestamp_subsec_nanos() }
}

/// Chronological order is irreflexive, transitive and total.
pub proof fn law_before_is_a_strict_total_order(a: Timestamp, b: Timestamp, c: Timestamp)
    ensures
        !a.before(a),
        a.before(b) && b.before(c) ==> a.before(c),
        a.before(b) || b.before(a) || a == b,
{
}

} // verus!
