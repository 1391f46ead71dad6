//! What one repeat of an eval case produced: whether it passed, and why.

use vstd::prelude::*;

use crate::completion::Usage;
use crate::duration::Duration;
use crate::text::owned;

verus! {

/// Why a repeat landed where it did.
///
/// [`VerdictCategory::Unparseable`] and [`VerdictCategory::Unavailable`] are
/// never merged: a readable answer the parser could not read is a finding
/// about the model, and no answer at all — a timeout, a transport failure, a
/// rejected request — is a finding about the endpoint.
#[derive(Debug, Clone, Copy, PartialEq, Eq, Structural)]
pub enum VerdictCategory {
    /// Every expectation held.
    Pass,
    /// A parseable answer that was not the expected one.
    Wrong,
    /// The model answered and the parser could not read it.
    Unparseable,
    /// No answer came back at all: a timeout, a transport failure, or a
    /// rejected request.
    Unavailable,
    /// Harness or infrastructure trouble: nothing was measured at all.
    Failed,
}

/// The verdict on one repeat, saying whether it passed, why, and how long and how many tokens it took.
#[derive(Debug, PartialEq, Eq)]
pub struct Verdict {
    /// This verdict's category.
    pub category: VerdictCategory,
    /// A human-readable explanation of the category.
    pub reason: String,
    /// How long the repeat took, when known.
    pub latency: Option<Duration>,
    /// Token usage the repeat reported, when known.
    pub usage: Option<Usage>,
}

impl Clone for Verdict {
    fn clone(&self) -> (r: Self)
        ensures
            r.category == self.category,
            r.reason@ == self.reason@,
            r.latency == self.latency,
            r.usage == self.usage,
    {
        Verdict {
            category: self.category,
            reason: self.reason.clone(),
            latency: self.latency,
            usage: self.usage,
        }
    }
}

/// `v` is a fresh verdict of `category` for `reason`, with no latency or usage known.
pub open spec fn fresh_verdict(v: Verdict, category: VerdictCategory, reason: Seq<char>) -> bool {
    &&& v.category == category
    &&& v.reason@ == reason
    &&& v.latency is None
    &&& v.usage is None
}

impl Verdict {
    /// A passing verdict.
    pub fn pass(reason: &str) -> (v: Self)
        ensures
            fresh_verdict(v, VerdictCategory::Pass, reason@),
    {
        Self::new(VerdictCategory::Pass, reason)
    }

    /// A verdict for a readable answer that was not the expected one.
    pub fn wrong(reason: &str) -> (v: Self)
        ensures
            fresh_verdict(v, VerdictCategory::Wrong, reason@),
    {
        Self::new(VerdictCategory::Wrong, reason)
    }

    /// A verdict for a reply the parser could not read.
    pub fn unparseable(reason: &str) -> (v: Self)
        ensures
            fresh_verdict(v, VerdictCategory::Unparseable, reason@),
    {
        Self::new(VerdictCategory::Unparseable, reason)
    }

    /// A verdict for no reply at all.
    pub fn unavailable(reason: &str) -> (v: Self)
        ensures
            fresh_verdict(v, VerdictCategory::Unavailable, reason@),
    {
        Self::new(VerdictCategory::Unavailable, reason)
    }

    /// A verdict for harness or infrastructure trouble that measured
    /// nothing.
    pub fn failed(reason: &str) -> (v: Self)
        ensures
            fresh_verdict(v, VerdictCategory::Failed, reason@),
    {
        Self::new(VerdictCategory::Failed, reason)
    }

    /// A verdict of `category` for `reason`.
    pub fn new(category: VerdictCategory, reason: &str) -> (v: Self)
        ensures
            fresh_verdict(v, category, reason@),
    {
        Verdict { category, reason: owned(reason), latency: None, usage: None }
    }

    /// This verdict, carrying `latency`.
    pub fn with_latency(self, latency: Duration) -> (v: Self)
        ensures
            v.category == self.category,
            v.reason == self.reason,
            v.latency == Some(latency),
            v.usage == self.usage,
    {
        Verdict { latency: Some(latency), ..self }
    }

    /// This verdict, carrying `usage`.
    pub fn with_usage(self, usage: Usage) -> (v: Self)
        ensures
            v.category == self.category,
            v.reason == self.reason,
            v.latency == self.latency,
            v.usage == Some(usage),
    {
        Verdict { usage: Some(usage), ..self }
    }

    /// Whether this verdict counts as a pass.
    pub fn passed(&self) -> (b: bool)
        ensures
            b == (self.category == VerdictCategory::Pass),
    {
        self.category == VerdictCategory::Pass
    }
}

} // verus!
