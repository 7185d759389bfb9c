//! The timestamp value type and its error taxonomy.

use vstd::prelude::*;

verus! {

/// A point in time held as a pair of seconds and nanoseconds since the Unix
/// epoch (1970-01-01T00:00:00Z).
///
/// The pair is stored verbatim: seconds may be negative (pre-epoch instants),
/// and nanoseconds are conventionally in `[0, 1_000_000_000)` but are neither
/// validated nor normalized here. Two values are equal exactly when both
/// fields are equal.
#[derive(Clone, Copy, Debug, PartialEq, Eq, Structural)]
pub struct Et {
    /// Whole seconds since the Unix epoch.
    pub sec: i64,
    /// Nanoseconds past the second.
    pub nsec: i32,
}

/// Everything that can go wrong while decoding or rendering a timestamp.
#[derive(Clone, Copy, Debug, PartialEq, Eq, Structural)]
pub enum EtError {
    /// A required key (`sec` or `nsec`) was absent from a key-value structure.
    MissingField,
    /// A key other than `sec` or `nsec` appeared in a key-value structure.
    UnknownField,
    /// The input ended early or carried a value outside the field's range.
    MalformedEncoding,
    /// The seconds value lies outside the range renderable as a calendar date.
    FormatRangeError,
}

impl Et {
    /// Wraps a seconds/nanoseconds pair without transformation or validation.
    pub fn new(sec: i64, nsec: i32) -> (t: Et)
        ensures
            t.sec == sec,
            t.nsec == nsec,
    {
        Et { sec, nsec }
    }

    /// Read-only access to the seconds field.
    pub fn sec(&self) -> (s: i64)
        ensures
            s == self.sec,
    {
        self.sec
    }

    /// Read-only access to the nanoseconds field.
    pub fn nsec(&self) -> (n: i32)
        ensures
            n == self.nsec,
    {
        self.nsec
    }
}

/// Two timestamps are equal exactly when they were built from the same
/// seconds/nanoseconds pair; differing in either field makes them unequal.
pub proof fn lemma_equality(a: Et, b: Et)
    ensures
        (a == b) <==> (a.sec == b.sec && a.nsec == b.nsec),
{
}

} // verus!
