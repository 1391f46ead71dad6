use vstd::prelude::*;

verus! {

/// The largest span a `Duration` holds, in nanoseconds: `u64::MAX` whole
/// seconds plus 999_999_999 nanoseconds.
pub open spec fn max_nanos() -> nat {
    18_446_744_073_709_551_615_999_999_999nat
}

/// A span of time, counted in whole nanoseconds.
///
/// It covers exactly the range of `std::time::Duration` (up to `u64::MAX`
/// seconds and 999_999_999 nanoseconds), so converting between the two is
/// lossless in both directions.
#[derive(Debug, Clone, Copy, PartialEq, Eq, Structural)]
pub struct Duration {
    nanos: u128,
}

impl View for Duration {
    type V = nat;

    /// The span in nanoseconds.
    closed spec fn view(&self) -> nat {
        self.nanos as nat
    }
}

impl Duration {
    /// The span is no longer than the largest one `Duration` holds.
    pub closed spec fn well_formed(self) -> bool {
        self.nanos <= max_nanos()
    }

    #[verifier::type_invariant]
    closed spec fn in_range(self) -> bool {
        self.well_formed()
    }

    /// The empty span.
    pub fn zero() -> (d: Duration)
        ensures
            d@ == 0,
    {
        Duration { nanos: 0 }
    }

    /// The largest span a `Duration` holds.
    pub fn max_value() -> (d: Duration)
        ensures
            d@ == max_nanos(),
    {
        Duration { nanos: 18_446_744_073_709_551_615_999_999_999u128 }
    }

    /// A span of `nanos` nanoseconds.
    pub fn from_nanos(nanos: u128) -> (d: Duration)
        requires
            nanos <= max_nanos(),
        ensures
            d@ == nanos,
    {
        Duration { nanos }
    }

    /// A span of `millis` milliseconds.
    pub fn from_millis(millis: u64) -> (d: Duration)
        ensures
            d@ == millis * 1_000_000,
    {
        assert(millis * 1_000_000 <= max_nanos()) by (nonlinear_arith)
            requires
                millis <= u64::MAX,
        ;
        Duration { nanos: (millis as u128) * 1_000_000 }
    }

    /// A span of `secs` whole seconds.
    pub fn from_secs(secs: u64) -> (d: Duration)
        ensures
            d@ == secs * 1_000_000_000,
    {
        assert(secs * 1_000_000_000 <= max_nanos()) by (nonlinear_arith)
            requires
                secs <= u64::MAX,
        ;
        Duration { nanos: (secs as u128) * 1_000_000_000 }
    }

    /// The span in whole nanoseconds.
    pub fn as_nanos(&self) -> (n: u128)
        ensures
            n == self@,
            n <= max_nanos(),
    {
        proof {
            use_type_invariant(self);
        }
        self.nanos
    }

    /// The span in whole milliseconds, rounded down.
    pub fn as_millis(&self) -> (n: u128)
        ensures
            n == self@ / 1_000_000,
    {
        self.nanos / 1_000_000
    }

    /// Whether the span is empty.
    pub fn is_zero(&self) -> (b: bool)
        ensures
            b == (self@ == 0),
    {
        self.nanos == 0
    }

    /// The longer of two spans.
    pub fn max(self, other: Duration) -> (d: Duration)
        ensures
            d@ == if self@ >= other@ { self@ } else { other@ },
    {
        if self.nanos >= other.nanos {
            self
        } else {
            other
        }
    }

    /// The shorter of two spans.
    pub fn min(self, other: Duration) -> (d: Duration)
        ensures
            d@ == if self@ <= other@ { self@ } else { other@ },
    {
        if self.nanos <= other.nanos {
            self
        } else {
            other
        }
    }

    /// `self * factor`, or `None` when that exceeds the largest span.
    pub fn checked_mul(self, factor: u32) -> (r: Option<Duration>)
        ensures
            r is Some <==> self@ * factor <= max_nanos(),
            r matches Some(d) ==> d@ == self@ * factor,
    {
        proof {
            use_type_invariant(self);
        }
        let limit: u128 = 18_446_744_073_709_551_615_999_999_999u128;
        if factor == 0 {
            return Some(Duration { nanos: 0 });
        }
        let bound = limit / (factor as u128);
        proof {
            lemma_div_bound(self.nanos as int, factor as int, limit as int, bound as int);
        }
        if self.nanos <= bound {
            Some(Duration { nanos: self.nanos * (factor as u128) })
        } else {
            None
        }
    }

    /// `self + other`, or the largest span when that exceeds it.
    pub fn saturating_add(self, other: Duration) -> (d: Duration)
        ensures
            d@ == if self@ + other@ <= max_nanos() { self@ + other@ } else { max_nanos() },
    {
        proof {
            use_type_invariant(self);
            use_type_invariant(other);
        }
        let limit: u128 = 18_446_744_073_709_551_615_999_999_999u128;
        let sum = self.nanos + other.nanos;
        if sum <= limit {
            Duration { nanos: sum }
        } else {
            Duration { nanos: limit }
        }
    }

    /// `self / divisor`, rounded down, or `None` when `divisor` is zero.
    pub fn checked_div(self, divisor: u32) -> (r: Option<Duration>)
        ensures
            r is Some <==> divisor != 0,
            r matches Some(d) ==> d@ == self@ / (divisor as nat),
    {
        proof {
            use_type_invariant(self);
        }
        if divisor == 0 {
            None
        } else {
            let q = self.nanos / (divisor as u128);
            assert(q <= self.nanos) by (nonlinear_arith)
                requires
                    divisor >= 1,
                    q == self.nanos / (divisor as u128),
            ;
            Some(Duration { nanos: q })
        }
    }
}

/// For a positive `factor`, `x * factor <= limit` exactly when `x` is at most
/// `limit / factor`.
proof fn lemma_div_bound(x: int, factor: int, limit: int, bound: int)
    requires
        x >= 0,
        factor >= 1,
        limit >= 0,
        bound == limit / factor,
    ensures
        (x * factor <= limit) <==> (x <= bound),
        x <= bound ==> x * factor <= limit,
{
    assert((x * factor <= limit) <==> (x <= bound)) by (nonlinear_arith)
        requires
            x >= 0,
            factor >= 1,
            limit >= 0,
            bound == limit / factor,
    ;
}

} // verus!
