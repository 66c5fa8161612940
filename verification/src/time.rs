//! Spans and points of time, counted in nanoseconds.
use crate::number;
use crate::number::{decimal, padded3};
use crate::text::{cat2, cat4};
use vstd::prelude::*;

verus! {

pub const NANOS_PER_MILLI: u128 = 1_000_000;

pub const NANOS_PER_SEC: u128 = 1_000_000_000;

/// A span of time.
#[derive(Debug, Clone, Copy, PartialEq, Eq, Structural)]
pub struct Duration {
    pub nanos: u128,
}

/// A point of time, counted from when the run began to keep time.
#[derive(Debug, Clone, Copy, PartialEq, Eq, Structural)]
pub struct Instant {
    pub nanos: u128,
}

impl View for Duration {
    type V = nat;

    open spec fn view(&self) -> nat {
        self.nanos as nat
    }
}

impl View for Instant {
    type V = nat;

    open spec fn view(&self) -> nat {
        self.nanos as nat
    }
}

/// The nanoseconds in `count` milliseconds.
pub open spec fn millis(count: nat) -> nat {
    count * 1_000_000
}

/// The nanoseconds in `count` seconds.
pub open spec fn seconds(count: nat) -> nat {
    count * 1_000_000_000
}

/// The smaller of two numbers.
pub open spec fn smaller(a: nat, b: nat) -> nat {
    if a <= b {
        a
    } else {
        b
    }
}

/// How much time there is from `from` until `to`; none where `to` comes first.
pub open spec fn time_between(from: nat, to: nat) -> nat {
    if from <= to {
        (to - from) as nat
    } else {
        0
    }
}

impl Duration {
    pub fn from_millis(count: u64) -> (out: Self)
        ensures
            out@ == millis(count as nat),
    {
        Duration { nanos: count as u128 * NANOS_PER_MILLI }
    }

    pub fn from_secs(count: u64) -> (out: Self)
        ensures
            out@ == seconds(count as nat),
    {
        Duration { nanos: count as u128 * NANOS_PER_SEC }
    }

    /// The whole milliseconds of the span.
    pub fn as_millis(&self) -> (out: u128)
        ensures
            out == self@ / 1_000_000,
    {
        self.nanos / NANOS_PER_MILLI
    }

    /// The whole seconds of the span.
    pub fn as_secs(&self) -> (out: u128)
        ensures
            out == self@ / 1_000_000_000,
    {
        self.nanos / NANOS_PER_SEC
    }

    pub fn is_zero(&self) -> (yes: bool)
        ensures
            yes == (self@ == 0),
    {
        self.nanos == 0
    }

    /// The shorter of two spans.
    pub fn shorter(self, other: Self) -> (out: Self)
        ensures
            out@ == smaller(self@, other@),
    {
        if self.nanos <= other.nanos {
            self
        } else {
            other
        }
    }
}

impl Instant {
    /// The point `span` later, if it can be counted.
    pub fn checked_add(self, span: Duration) -> (out: Option<Self>)
        ensures
            match out {
                Some(point) => point@ == self@ + span@,
                None => self@ + span@ > u128::MAX,
            },
    {
        match self.nanos.checked_add(span.nanos) {
            Some(nanos) => Some(Instant { nanos }),
            None => None,
        }
    }

    /// The time since `earlier`; none where `earlier` comes later.
    pub fn duration_since(self, earlier: Self) -> (out: Duration)
        ensures
            out@ == time_between(earlier@, self@),
    {
        Duration { nanos: self.nanos.saturating_sub(earlier.nanos) }
    }

    /// The earlier of two points.
    pub fn earlier(self, other: Self) -> (out: Self)
        ensures
            out@ == smaller(self@, other@),
    {
        if self.nanos <= other.nanos {
            self
        } else {
            other
        }
    }
}

/// How a span is written: in milliseconds below one second, else in seconds, with three decimals
/// where it is no whole number of seconds.
pub open spec fn duration_text(nanos: nat) -> Seq<char> {
    let count = nanos / 1_000_000;
    if count < 1000 {
        number::decimal_seq(count) + "ms"@
    } else if count % 1000 == 0 {
        number::decimal_seq(count / 1000) + "s"@
    } else {
        number::decimal_seq(count / 1000) + "."@ + number::padded_seq(count % 1000, 3) + "s"@
    }
}

/// The span in words for a log line or an error.
pub fn format_duration(duration: Duration) -> (out: String)
    ensures
        out@ == duration_text(duration@),
{
    let count: u128 = duration.as_millis();
    if count < 1000 {
        cat2(decimal(count).as_str(), "ms")
    } else if count % 1000 == 0 {
        cat2(decimal(count / 1000).as_str(), "s")
    } else {
        cat4(decimal(count / 1000).as_str(), ".", padded3(count % 1000).as_str(), "s")
    }
}

/// When work that may take `requested` has to end, with `overall` as the latest time.
pub open spec fn bounded_deadline(now: nat, overall: nat, requested: nat) -> nat {
    smaller(now + requested, overall)
}

/// When work that begins `now` and may take `requested` has to end, with `overall` as the latest
/// time.
pub fn bounded(now: Instant, overall: Instant, requested: Duration) -> (deadline: Instant)
    ensures
        deadline@ == bounded_deadline(now@, overall@, requested@),
{
    match now.checked_add(requested) {
        Some(until) => until.earlier(overall),
        None => overall,
    }
}

} // verus!
