//! Single-call eval cases: how a case's timeout is resolved, what of a
//! reply is read as its text, and how a reply becomes a verdict.
//!
//! A call that failed outright, or ran past its timeout, classifies a repeat
//! as [`VerdictCategory::Unavailable`]; a reply the case could not parse
//! classifies it as [`VerdictCategory::Unparseable`]. Every other repeat is
//! handed to the case's own scorer.

use vstd::prelude::*;

use crate::case::CaseMeta;
use crate::completion::{Completion, Usage};
use crate::duration::Duration;
use crate::message::{content_text, rendered_text};
use crate::request::CompletionRequest;
use crate::verdict::{Verdict, VerdictCategory};

verus! {

/// How a case's per-call timeout is resolved against the runner's default.
#[derive(Debug, Clone, Copy, PartialEq, Eq, Structural)]
pub enum CaseTimeout {
    /// Use the runner's default timeout, whatever it is set to (including
    /// none).
    Default,
    /// Use this duration regardless of the runner's default.
    Custom(Duration),
    /// Never time this case out, regardless of the runner's default.
    Never,
}

impl Default for CaseTimeout {
    /// A case defers to the runner.
    fn default() -> (t: Self)
        ensures
            t == CaseTimeout::Default,
    {
        CaseTimeout::Default
    }
}

impl CaseTimeout {
    /// The timeout a call runs under, given the runner's own default.
    pub fn resolve(self, runner_default: Option<Duration>) -> (r: Option<Duration>)
        ensures
            r == match self {
                CaseTimeout::Default => runner_default,
                CaseTimeout::Custom(d) => Some(d),
                CaseTimeout::Never => None,
            },
    {
        match self {
            CaseTimeout::Default => runner_default,
            CaseTimeout::Custom(d) => Some(d),
            CaseTimeout::Never => None,
        }
    }
}

/// One model call measured against a known-right answer.
///
/// The request builder and parser are meant to be the consumer's
/// production ones: the eval deliberately bypasses any production fallback
/// that would turn a dead endpoint into a plausible default answer, which is
/// why a call that failed outright is [`VerdictCategory::Unavailable`]
/// rather than an answer handed to [`ResponseEvalCase::score`].
pub trait ResponseEvalCase: Send + Sync {
    /// The type a successful call parses into.
    type Answer;

    /// This case's metadata: name, repeats, threshold, canary.
    fn meta(&self) -> &CaseMeta;

    /// Builds the request for this case's call.
    fn build_request(&self) -> CompletionRequest;

    /// Parses `completion` into this case's answer type, or gives a
    /// human-readable detail when the reply cannot be read.
    fn parse(&self, completion: &Completion) -> Result<Self::Answer, String>;

    /// Scores a parsed answer against this case's expectation.
    fn score(&self, answer: &Self::Answer) -> Verdict;

    /// This case's timeout, given the runner's own default: by default the
    /// case defers to the runner.
    fn timeout(&self) -> (t: CaseTimeout)
        default_ensures
            t == CaseTimeout::Default,
    {
        CaseTimeout::Default
    }
}

/// The reply's visible text: every text block joined by newlines,
/// excluding reasoning and tool blocks.
pub fn reply_text(completion: &Completion) -> (r: String)
    ensures
        r@ == rendered_text(completion.content@),
{
    content_text(&completion.content)
}

/// The verdict for a reply that took `latency` and reported `usage`: a
/// parse failure's detail makes it [`VerdictCategory::Unparseable`];
/// otherwise it is the case's own score. Either way it carries the latency
/// and the usage. Also says whether the repeat's report keeps the raw
/// reply: for every miss.
pub fn reply_verdict(outcome: Result<Verdict, String>, latency: Duration, usage: Usage) -> (r: (
    Verdict,
    bool,
))
    ensures
        match outcome {
            Ok(scored) => {
                &&& r.0.category == scored.category
                &&& r.0.reason == scored.reason
                &&& r.1 == (scored.category != VerdictCategory::Pass)
            },
            Err(detail) => {
                &&& r.0.category == VerdictCategory::Unparseable
                &&& r.0.reason@ == detail@
                &&& r.1
            },
        },
        r.0.latency == Some(latency),
        r.0.usage == Some(usage),
{
    match outcome {
        Err(detail) => {
            let verdict = Verdict::unparseable(detail.as_str()).with_latency(latency).with_usage(
                usage,
            );
            (verdict, true)
        },
        Ok(scored) => {
            let verdict = scored.with_latency(latency).with_usage(usage);
            let keep = !verdict.passed();
            (verdict, keep)
        },
    }
}

} // verus!
