//! Spans of media time with nanosecond precision.
use core::cmp::Ordering;
use vstd::prelude::*;

verus! {

/// Nanoseconds in one second.
pub const NANOS_PER_SEC: u128 = 1_000_000_000;

/// Nanoseconds in one millisecond.
pub const NANOS_PER_MILLI: u128 = 1_000_000;

/// Nanoseconds in one microsecond.
pub const NANOS_PER_MICRO: u128 = 1_000;

/// The longest span, in nanoseconds: `u64::MAX` seconds and 999 999 999
/// nanoseconds.
pub const MAX_NANOS: u128 = 18_446_744_073_709_551_615_999_999_999;

/// A non-negative span of time.
///
/// The view of a span is its length in nanoseconds. It covers the same range
/// as `std::time::Duration`, so the two convert into each other without loss.
#[derive(Clone, Copy, Debug, PartialEq, Eq, Hash, Structural)]
pub struct Duration {
    nanos: u128,
}

impl View for Duration {
    type V = nat;

    closed spec fn view(&self) -> nat {
        self.nanos as nat
    }
}

/// The lengths of an optional span.
pub open spec fn span_view(span: Option<Duration>) -> Option<nat> {
    match span {
        Some(value) => Some(value@),
        None => None,
    }
}

/// The sum of two lengths, held at the longest span.
pub open spec fn sat_add(a: nat, b: nat) -> nat {
    if a + b > MAX_NANOS {
        MAX_NANOS as nat
    } else {
        a + b
    }
}

/// The difference of two lengths, held at zero.
pub open spec fn sat_sub(a: nat, b: nat) -> nat {
    if a < b {
        0
    } else {
        (a - b) as nat
    }
}

/// The larger of two lengths.
pub open spec fn nat_max(a: nat, b: nat) -> nat {
    if a < b {
        b
    } else {
        a
    }
}

/// The smaller of two lengths.
pub open spec fn nat_min(a: nat, b: nat) -> nat {
    if b < a {
        b
    } else {
        a
    }
}

impl Duration {
    /// Whether the span is no longer than the longest. It always is.
    #[verifier::type_invariant]
    pub closed spec fn in_range(self) -> bool {
        self.nanos <= MAX_NANOS
    }

    /// The empty span.
    pub fn zero() -> (result: Self)
        ensures
            result@ == 0,
    {
        Duration { nanos: 0 }
    }

    /// The longest span.
    pub fn max_value() -> (result: Self)
        ensures
            result@ == MAX_NANOS,
    {
        Duration { nanos: MAX_NANOS }
    }

    /// A span of whole seconds.
    pub fn from_secs(secs: u64) -> (result: Self)
        ensures
            result@ == secs * NANOS_PER_SEC,
    {
        Duration { nanos: secs as u128 * NANOS_PER_SEC }
    }

    /// A span of whole milliseconds.
    pub fn from_millis(millis: u64) -> (result: Self)
        ensures
            result@ == millis * NANOS_PER_MILLI,
    {
        Duration { nanos: millis as u128 * NANOS_PER_MILLI }
    }

    /// A span of whole microseconds.
    pub fn from_micros(micros: u64) -> (result: Self)
        ensures
            result@ == micros * NANOS_PER_MICRO,
    {
        Duration { nanos: micros as u128 * NANOS_PER_MICRO }
    }

    /// A span of nanoseconds.
    pub fn from_nanos(nanos: u64) -> (result: Self)
        ensures
            result@ == nanos,
    {
        Duration { nanos: nanos as u128 }
    }

    /// A span of nanoseconds, if it is in range.
    pub fn try_from_nanos(nanos: u128) -> (result: Option<Self>)
        ensures
            result is Some <==> nanos <= MAX_NANOS,
            result matches Some(span) ==> span@ == nanos,
    {
        if nanos <= MAX_NANOS {
            Some(Duration { nanos })
        } else {
            None
        }
    }

    /// A span of nanoseconds, held at the longest span.
    pub fn saturating_from_nanos(nanos: u128) -> (result: Self)
        ensures
            result@ == nat_min(nanos as nat, MAX_NANOS as nat),
    {
        if nanos <= MAX_NANOS {
            Duration { nanos }
        } else {
            Duration { nanos: MAX_NANOS }
        }
    }

    /// The length in nanoseconds.
    pub fn as_nanos(&self) -> (result: u128)
        ensures
            result == self@,
            result <= MAX_NANOS,
    {
        proof {
            use_type_invariant(self);
        }
        self.nanos
    }

    /// The length in whole microseconds.
    pub fn as_micros(&self) -> (result: u128)
        ensures
            result == self@ / 1_000,
    {
        self.nanos / NANOS_PER_MICRO
    }

    /// The length in whole milliseconds.
    pub fn as_millis(&self) -> (result: u128)
        ensures
            result == self@ / 1_000_000,
            result <= MAX_NANOS / 1_000_000,
    {
        proof {
            use_type_invariant(self);
        }
        self.nanos / NANOS_PER_MILLI
    }

    /// The length in whole seconds.
    pub fn as_secs(&self) -> (result: u64)
        ensures
            result == self@ / 1_000_000_000,
    {
        proof {
            use_type_invariant(self);
        }
        (self.nanos / NANOS_PER_SEC) as u64
    }

    /// The nanoseconds beyond the whole seconds.
    pub fn subsec_nanos(&self) -> (result: u32)
        ensures
            result == self@ % 1_000_000_000,
    {
        (self.nanos % NANOS_PER_SEC) as u32
    }

    /// Whether the span is empty.
    pub fn is_zero(&self) -> (result: bool)
        ensures
            result <==> self@ == 0,
    {
        self.nanos == 0
    }

    /// The sum, if it is in range.
    pub fn checked_add(self, other: Duration) -> (result: Option<Self>)
        ensures
            result is Some <==> self@ + other@ <= MAX_NANOS,
            result matches Some(span) ==> span@ == self@ + other@,
    {
        proof {
            use_type_invariant(&self);
            use_type_invariant(&other);
        }
        Duration::try_from_nanos(self.nanos + other.nanos)
    }

    /// The difference, if it is not negative.
    pub fn checked_sub(self, other: Duration) -> (result: Option<Self>)
        ensures
            result is Some <==> self@ >= other@,
            result matches Some(span) ==> span@ == self@ - other@,
    {
        proof {
            use_type_invariant(&self);
        }
        if self.nanos < other.nanos {
            None
        } else {
            Some(Duration { nanos: self.nanos - other.nanos })
        }
    }

    /// The sum, held at the longest span.
    pub fn saturating_add(self, other: Duration) -> (result: Self)
        ensures
            result@ == sat_add(self@, other@),
    {
        proof {
            use_type_invariant(&self);
            use_type_invariant(&other);
        }
        Duration::saturating_from_nanos(self.nanos + other.nanos)
    }

    /// The difference, held at zero.
    pub fn saturating_sub(self, other: Duration) -> (result: Self)
        ensures
            result@ == sat_sub(self@, other@),
    {
        match self.checked_sub(other) {
            Some(span) => span,
            None => Duration::zero(),
        }
    }

    /// The longer of two spans.
    pub fn longer(self, other: Duration) -> (result: Self)
        ensures
            result@ == nat_max(self@, other@),
    {
        if self.nanos < other.nanos {
            other
        } else {
            self
        }
    }

    /// The shorter of two spans.
    pub fn shorter(self, other: Duration) -> (result: Self)
        ensures
            result@ == nat_min(self@, other@),
    {
        if other.nanos < self.nanos {
            other
        } else {
            self
        }
    }

    /// Whether this span is shorter than another.
    pub fn is_before(self, other: Duration) -> (result: bool)
        ensures
            result <==> self@ < other@,
    {
        self.nanos < other.nanos
    }

    /// Whether two spans have the same length.
    pub fn same_as(self, other: Duration) -> (result: bool)
        ensures
            result <==> self@ == other@,
    {
        self.nanos == other.nanos
    }
}

impl PartialOrd for Duration {
    fn partial_cmp(&self, other: &Self) -> (result: Option<Ordering>) {
        if self.nanos < other.nanos {
            Some(Ordering::Less)
        } else if self.nanos == other.nanos {
            Some(Ordering::Equal)
        } else {
            Some(Ordering::Greater)
        }
    }
}

impl vstd::std_specs::cmp::PartialOrdSpecImpl for Duration {
    open spec fn obeys_partial_cmp_spec() -> bool {
        true
    }

    open spec fn partial_cmp_spec(&self, other: &Self) -> Option<Ordering> {
        if self@ < other@ {
            Some(Ordering::Less)
        } else if self@ == other@ {
            Some(Ordering::Equal)
        } else {
            Some(Ordering::Greater)
        }
    }
}

/// No span is longer than the longest.
pub proof fn law_span_is_in_range(span: Duration)
    requires
        span.in_range(),
    ensures
        span@ <= MAX_NANOS,
{
}

} // verus!
