//! A position in a track.

use vstd::prelude::*;

verus! {

/// A position in a track, as minutes, seconds and milliseconds.
///
/// The fields are kept as given: a `s` of 60 or more, or an `ms` of 1000 or
/// more, is a valid value.
#[derive(Debug, Clone, Copy, PartialEq, Eq, Structural)]
pub struct Timestamp {
    /// Minutes.
    pub m: u32,
    /// Seconds.
    pub s: u8,
    /// Milliseconds.
    pub ms: u32,
}

impl DeepView for Timestamp {
    type V = Timestamp;

    open spec fn deep_view(&self) -> Timestamp {
        *self
    }
}

impl Timestamp {
    /// The position in whole seconds: the milliseconds count only by the
    /// full seconds they hold.
    pub open spec fn total_seconds(&self) -> nat {
        (self.m * 60 + self.s + self.ms / 1000) as nat
    }

    /// Creates a timestamp from its three fields, with no range check.
    pub fn new(m: u32, s: u8, ms: u32) -> (t: Self)
        ensures
            t == (Timestamp { m, s, ms }),
    {
        Timestamp { m, s, ms }
    }

    /// The position in whole seconds.
    pub fn seconds(&self) -> (total: u64)
        ensures
            total == self.total_seconds(),
    {
        self.m as u64 * 60 + self.s as u64 + (self.ms / 1000) as u64
    }
}

} // verus!
