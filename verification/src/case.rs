//! Case metadata every eval case carries, independent of what it measures.
//!
//! Pass rates are fractions held as the bit patterns of IEEE-754 doubles,
//! exactly as the report records them; the arithmetic on them happens where
//! the report is rendered.

use vstd::prelude::*;

use crate::text::owned;

verus! {

/// The bit pattern of the pass rate a case must reach when it sets none of
/// its own: the double nearest to 2/3.
pub const DEFAULT_MIN_PASS_RATE_BITS: u64 = 0x3FE5_5555_5555_5555u64;

/// The bit pattern of a pass rate of 1.0, a canary's threshold.
pub const FULL_PASS_RATE_BITS: u64 = 0x3FF0_0000_0000_0000u64;

/// Repeats to run for a case when neither the case nor the caller overrides
/// it.
pub const DEFAULT_REPEATS: u32 = 3;

/// The fields every eval case carries, regardless of what it measures.
#[derive(Debug, PartialEq, Eq)]
pub struct CaseMeta {
    /// The case's name, unique within whatever corpus holds it.
    pub name: String,
    /// Repeats this case runs, overriding the run's default when set.
    pub repeats: Option<u32>,
    /// The bit pattern of the pass rate this case must reach, overriding
    /// the default when set. Ignored on a canary, whose threshold is always
    /// 1.0.
    pub min_pass_rate_bits: Option<u64>,
    /// A canary case's threshold is pinned at 1.0 regardless of its own
    /// pass rate: any miss fails it.
    pub canary: bool,
}

impl Clone for CaseMeta {
    fn clone(&self) -> (r: Self)
        ensures
            r.name@ == self.name@,
            r.repeats == self.repeats,
            r.min_pass_rate_bits == self.min_pass_rate_bits,
            r.canary == self.canary,
    {
        CaseMeta {
            name: self.name.clone(),
            repeats: self.repeats,
            min_pass_rate_bits: self.min_pass_rate_bits,
            canary: self.canary,
        }
    }
}

/// The bit pattern of the pass rate a case must reach.
pub open spec fn threshold_of(canary: bool, min_pass_rate_bits: Option<u64>) -> u64 {
    if canary {
        FULL_PASS_RATE_BITS
    } else {
        match min_pass_rate_bits {
            Some(bits) => bits,
            None => DEFAULT_MIN_PASS_RATE_BITS,
        }
    }
}

/// A canary must pass every repeat: its threshold is 1.0 (the bit pattern
/// `0x3FF0_0000_0000_0000`) whatever pass rate it names, none included.
/// Any other case keeps the pass rate it names, or the default of two in
/// three when it names none.
pub proof fn law_canary_threshold_is_full(min_pass_rate_bits: Option<u64>)
    ensures
        threshold_of(true, min_pass_rate_bits) == 0x3FF0_0000_0000_0000u64,
        threshold_of(true, min_pass_rate_bits) == threshold_of(true, None),
        min_pass_rate_bits matches Some(b) ==> threshold_of(false, min_pass_rate_bits) == b,
        threshold_of(false, None) == 0x3FE5_5555_5555_5555u64,
{
}

impl CaseMeta {
    /// Metadata for a case built at runtime, with no repeats or pass-rate
    /// override and not a canary.
    pub fn new(name: &str) -> (m: Self)
        ensures
            m.name@ == name@,
            m.repeats is None,
            m.min_pass_rate_bits is None,
            !m.canary,
    {
        CaseMeta { name: owned(name), repeats: None, min_pass_rate_bits: None, canary: false }
    }

    /// Repeats to run: this case's own count wins over `suite_default`.
    pub fn effective_repeats(&self, suite_default: u32) -> (n: u32)
        ensures
            n == match self.repeats {
                Some(own) => own,
                None => suite_default,
            },
    {
        match self.repeats {
            Some(own) => own,
            None => suite_default,
        }
    }

    /// The bit pattern of the pass rate this case must reach. A canary's
    /// threshold is always 1.0, whatever its own pass rate.
    pub fn threshold_bits(&self) -> (bits: u64)
        ensures
            bits == threshold_of(self.canary, self.min_pass_rate_bits),
            self.canary ==> bits == FULL_PASS_RATE_BITS,
            !self.canary ==> bits == match self.min_pass_rate_bits {
                Some(b) => b,
                None => DEFAULT_MIN_PASS_RATE_BITS,
            },
    {
        if self.canary {
            return FULL_PASS_RATE_BITS;
        }
        match self.min_pass_rate_bits {
            Some(bits) => bits,
            None => DEFAULT_MIN_PASS_RATE_BITS,
        }
    }
}

} // verus!
