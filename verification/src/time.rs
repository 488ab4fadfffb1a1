//! Lengths of time.

use vstd::prelude::*;

verus! {

/// A length of time: whole seconds, and the nanoseconds beyond them.
#[derive(Clone, Copy, Debug, PartialEq, Eq, Structural)]
pub struct Span {
    pub seconds: u64,
    pub nanoseconds: u32,
}

impl Span {
    /// A number of whole seconds.
    pub open spec fn spec_seconds(seconds: u64) -> Span {
        Span { seconds, nanoseconds: 0 }
    }

    /// A number of milliseconds.
    pub open spec fn spec_milliseconds(milliseconds: u64) -> Span {
        Span {
            seconds: milliseconds / 1000,
            nanoseconds: (milliseconds % 1000 * 1_000_000) as u32,
        }
    }

    /// The nanoseconds are less than a second.
    pub open spec fn normal(self) -> bool {
        self.nanoseconds < 1_000_000_000
    }

    /// The whole length in nanoseconds.
    pub open spec fn total(self) -> int {
        self.seconds * 1_000_000_000 + self.nanoseconds
    }

    pub fn from_seconds(seconds: u64) -> (span: Span)
        ensures
            span == Span::spec_seconds(seconds),
            span.normal(),
    {
        Span { seconds, nanoseconds: 0 }
    }

    pub fn from_milliseconds(milliseconds: u64) -> (span: Span)
        ensures
            span == Span::spec_milliseconds(milliseconds),
            span.normal(),
            span.total() == milliseconds * 1_000_000,
    {
        Span {
            seconds: milliseconds / 1000,
            nanoseconds: (milliseconds % 1000 * 1_000_000) as u32,
        }
    }

    /// The whole length in nanoseconds.
    pub fn nanoseconds_in_all(&self) -> (total: u128)
        ensures
            total == self.total(),
    {
        self.seconds as u128 * 1_000_000_000 + self.nanoseconds as u128
    }

    /// Half of a length, without what is left of a nanosecond.
    pub fn half(&self) -> (half: Span)
        requires
            self.normal(),
        ensures
            half.normal(),
            half.total() == self.total() / 2,
    {
        let rest: u32 = if self.seconds % 2 == 1 {
            500_000_000
        } else {
            0
        };
        Span { seconds: self.seconds / 2, nanoseconds: rest + self.nanoseconds / 2 }
    }

    pub fn is_zero(&self) -> (zero: bool)
        ensures
            zero == (self.seconds == 0 && self.nanoseconds == 0),
    {
        self.seconds == 0 && self.nanoseconds == 0
    }

    /// Tells whether one length is shorter than another.
    pub fn shorter_than(&self, other: &Span) -> (shorter: bool)
        requires
            self.normal(),
            other.normal(),
        ensures
            shorter == (self.total() < other.total()),
    {
        self.seconds < other.seconds || (self.seconds == other.seconds && self.nanoseconds
            < other.nanoseconds)
    }
}

} // verus!
