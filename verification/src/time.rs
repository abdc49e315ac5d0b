//! Time spans and clock readings.
//!
//! A [`Duration`] is a span of time held as a count of nanoseconds, so that
//! configuration limits and measured times can be compared in contracts.

use vstd::prelude::*;

verus! {

/// Largest span a [`Duration`] holds: `u64::MAX` seconds and 999_999_999 nanoseconds.
pub const MAX_NANOS: u128 = 18_446_744_073_709_551_615_999_999_999u128;

/// Nanoseconds in a second.
pub const NANOS_PER_SEC: u128 = 1_000_000_000u128;

/// A span of time, in nanoseconds.
#[derive(Clone, Copy, Debug, PartialEq, Eq, Structural)]
pub struct Duration {
    nanos: u128,
}

impl View for Duration {
    type V = nat;

    open spec fn view(&self) -> nat {
        self.spec_nanos() as nat
    }
}

impl Duration {
    /// The nanosecond count.
    pub closed spec fn spec_nanos(&self) -> u128 {
        self.nanos
    }

    #[verifier::type_invariant]
    spec fn in_range(&self) -> bool {
        self.nanos <= MAX_NANOS
    }

    /// The empty span.
    pub fn zero() -> (r: Duration)
        ensures
            r@ == 0,
    {
        Duration { nanos: 0 }
    }

    /// The span of whole seconds.
    pub closed spec fn spec_from_secs(secs: u64) -> Duration {
        Duration { nanos: (secs as u128 * NANOS_PER_SEC) as u128 }
    }

    /// The span of whole seconds is that many seconds long.
    pub broadcast proof fn lemma_spec_from_secs(secs: u64)
        ensures
            #[trigger] Duration::spec_from_secs(secs)@ == secs * 1_000_000_000,
    {
    }

    /// A span of whole seconds.
    pub fn from_secs(secs: u64) -> (r: Duration)
        ensures
            r@ == secs * 1_000_000_000,
            r == Duration::spec_from_secs(secs),
    {
        Duration { nanos: (secs as u128) * NANOS_PER_SEC }
    }

    /// A span of whole milliseconds.
    pub fn from_millis(millis: u64) -> (r: Duration)
        ensures
            r@ == millis * 1_000_000,
    {
        Duration { nanos: (millis as u128) * 1_000_000u128 }
    }

    /// A span of whole nanoseconds.
    pub fn from_nanos(nanos: u64) -> (r: Duration)
        ensures
            r@ == nanos,
    {
        Duration { nanos: nanos as u128 }
    }

    /// A span of nanoseconds, capped at the largest span held.
    pub fn from_nanos_saturating(nanos: u128) -> (r: Duration)
        ensures
            r@ == if nanos <= MAX_NANOS { nanos as nat } else { MAX_NANOS as nat },
    {
        if nanos <= MAX_NANOS {
            Duration { nanos }
        } else {
            Duration { nanos: MAX_NANOS }
        }
    }

    /// Whether the span is empty.
    pub fn is_zero(&self) -> (r: bool)
        ensures
            r == (self@ == 0),
    {
        self.nanos == 0
    }

    /// The span in nanoseconds, which is at most `MAX_NANOS`.
    pub fn as_nanos(&self) -> (r: u128)
        ensures
            r == self@,
            r <= MAX_NANOS,
    {
        proof {
            use_type_invariant(self);
        }
        self.nanos
    }

    /// The span in whole milliseconds, rounded down.
    pub fn as_millis(&self) -> (r: u128)
        ensures
            r == self@ / 1_000_000,
    {
        self.nanos / 1_000_000u128
    }

    /// The whole seconds of the span.
    pub fn as_secs(&self) -> (r: u64)
        ensures
            r == self@ / 1_000_000_000,
    {
        proof {
            use_type_invariant(self);
        }
        (self.nanos / NANOS_PER_SEC) as u64
    }

    /// The nanoseconds beyond the whole seconds.
    pub fn subsec_nanos(&self) -> (r: u32)
        ensures
            r == self@ % 1_000_000_000,
    {
        (self.nanos % NANOS_PER_SEC) as u32
    }

    /// Whether this span is at least as long as `other`.
    pub fn at_least(&self, other: &Duration) -> (r: bool)
        ensures
            r == (self@ >= other@),
    {
        self.nanos >= other.nanos
    }

    /// The sum of two spans, capped at the largest span held.
    pub fn saturating_add(&self, other: &Duration) -> (r: Duration)
        ensures
            r@ == if self@ + other@ <= MAX_NANOS { self@ + other@ } else { MAX_NANOS as nat },
    {
        proof {
            use_type_invariant(self);
            use_type_invariant(other);
        }
        Duration::from_nanos_saturating(self.nanos + other.nanos)
    }

    /// Debug notation of the span, as `std::time::Duration` writes it (such as `100ms`).
    pub fn debug_text(&self) -> (r: String)
        ensures
            r@ == duration_text(self@),
    {
        std_duration_debug(self.as_secs(), self.subsec_nanos())
    }
}

/// The `Debug` text of a `std::time::Duration` of `secs` seconds and `nanos` nanoseconds.
pub uninterp spec fn std_duration_text(secs: u64, nanos: u32) -> Seq<char>;

/// The `Debug` text of a span of `nanos` nanoseconds.
pub open spec fn duration_text(nanos: nat) -> Seq<char> {
    std_duration_text((nanos / 1_000_000_000) as u64, (nanos % 1_000_000_000) as u32)
}

/// Writes a `std::time::Duration` of `secs` seconds and `nanos` nanoseconds with its
/// `Debug` impl (`Duration::new`, then `{:?}`). The text is a function of the two
/// numbers, named `std_duration_text`; what it looks like is not stated.
#[verifier::external_body]
fn std_duration_debug(secs: u64, nanos: u32) -> (r: String)
    requires
        nanos < 1_000_000_000,
    ensures
        r@ == std_duration_text(secs, nanos),
{
    format!("{:?}", std::time::Duration::new(secs, nanos))
}

#[verifier::external_type_specification]
#[verifier::external_body]
pub struct ExInstant(std::time::Instant);

/// Reads the monotonic clock (`std::time::Instant::now`).
#[verifier::external_body]
pub(crate) fn now() -> std::time::Instant {
    std::time::Instant::now()
}

/// Nanoseconds elapsed since `start` (`Instant::elapsed`); the reading depends on the
/// clock, so nothing about it is stated.
#[verifier::external_body]
fn elapsed_nanos(start: &std::time::Instant) -> u128 {
    start.elapsed().as_nanos()
}

/// Time elapsed since `start`, capped at the largest span held.
pub fn elapsed(start: &std::time::Instant) -> Duration {
    Duration::from_nanos_saturating(elapsed_nanos(start))
}

} // verus!
