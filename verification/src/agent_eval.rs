//! Driving agent-harness eval cases: how many repeats each case runs, how
//! the repeats' outcomes are grouped back by case, and how a repeat's
//! outcome becomes a verdict.
//!
//! A provider failure classifies a repeat as
//! [`VerdictCategory::Unavailable`] — the endpoint broke, not the harness.
//! An invalid conversation, or an error from set up or check, classifies it
//! as [`VerdictCategory::Failed`] — the case itself is broken. Every other
//! repeat is handed to the case's own scorer.

use vstd::prelude::*;

use crate::case::{CaseMeta, DEFAULT_REPEATS};
use crate::duration::Duration;
use crate::failure::{RunFailure, provider_failure_text};
use crate::trace::RunRecord;
use crate::verdict::{Verdict, VerdictCategory};

verus! {

/// The repeats a case runs: its own count, else the runner's default.
pub open spec fn repeats_of(meta: CaseMeta, default_repeats: u32) -> u32 {
    match meta.repeats {
        Some(own) => own,
        None => default_repeats,
    }
}

/// One entry per repeat, naming its case by position: every case in order,
/// each repeated as many times as `counts` says.
pub open spec fn repeat_plan(counts: Seq<u32>) -> Seq<usize>
    decreases counts.len(),
{
    if counts.len() == 0 {
        Seq::empty()
    } else {
        repeat_plan(counts.drop_last()) + Seq::new(
            counts.last() as nat,
            |_k: int| (counts.len() - 1) as usize,
        )
    }
}

/// How many times `x` occurs in `s`.
pub open spec fn occurrences(s: Seq<usize>, x: usize) -> nat
    decreases s.len(),
{
    if s.len() == 0 {
        0
    } else {
        occurrences(s.drop_last(), x) + if s.last() == x {
            1nat
        } else {
            0nat
        }
    }
}

proof fn lemma_occurrences_concat(a: Seq<usize>, b: Seq<usize>, x: usize)
    ensures
        occurrences(a + b, x) == occurrences(a, x) + occurrences(b, x),
    decreases b.len(),
{
    if b.len() == 0 {
        assert(a + b =~= a);
    } else {
        lemma_occurrences_concat(a, b.drop_last(), x);
        assert((a + b).drop_last() =~= a + b.drop_last());
        assert((a + b).last() == b.last());
    }
}

proof fn lemma_occurrences_constant(n: nat, k: usize, x: usize)
    ensures
        occurrences(Seq::new(n, |_j: int| k), x) == if k == x {
            n
        } else {
            0
        },
    decreases n,
{
    if n > 0 {
        lemma_occurrences_constant((n - 1) as nat, k, x);
        assert(Seq::new(n, |_j: int| k).drop_last() =~= Seq::new((n - 1) as nat, |_j: int| k));
    }
}

/// A plan runs every case exactly as many times as its count, and names
/// no case beyond the last.
pub proof fn law_plan_runs_each_case_its_repeats(counts: Seq<u32>, i: usize)
    requires
        counts.len() <= usize::MAX,
    ensures
        occurrences(repeat_plan(counts), i) == if i < counts.len() {
            counts[i as int] as nat
        } else {
            0
        },
    decreases counts.len(),
{
    if counts.len() > 0 {
        let pre = counts.drop_last();
        let k = (counts.len() - 1) as usize;
        law_plan_runs_each_case_its_repeats(pre, i);
        lemma_occurrences_concat(
            repeat_plan(pre),
            Seq::new(counts.last() as nat, |_j: int| k),
            i,
        );
        lemma_occurrences_constant(counts.last() as nat, k, i);
        assert(Seq::new(counts.last() as nat, |_j: int| k) =~= Seq::new(
            counts.last() as nat,
            |_j: int| (counts.len() - 1) as usize,
        ));
        if i < pre.len() {
            assert(pre[i as int] == counts[i as int]);
        }
    }
}

/// The items of `results` tagged with case `i`, in order.
pub open spec fn picked<T>(results: Seq<(usize, T)>, i: int) -> Seq<T>
    decreases results.len(),
{
    if results.len() == 0 {
        Seq::empty()
    } else {
        let rest = picked(results.drop_last(), i);
        if results.last().0 == i {
            rest.push(results.last().1)
        } else {
            rest
        }
    }
}

/// The case positions `results` are tagged with, in order.
pub open spec fn tags<T>(results: Seq<(usize, T)>) -> Seq<usize> {
    results.map_values(|r: (usize, T)| r.0)
}

/// A case's group holds one item per result tagged with it.
proof fn lemma_picked_counts<T>(results: Seq<(usize, T)>, i: usize)
    ensures
        picked(results, i as int).len() == occurrences(tags(results), i),
    decreases results.len(),
{
    if results.len() > 0 {
        lemma_picked_counts(results.drop_last(), i);
        assert(tags(results).drop_last() =~= tags(results.drop_last()));
        assert(tags(results).last() == results.last().0);
    }
}

/// When the repeats come back one result per planned entry, in any order,
/// grouping them by case gives every case exactly as many results as it
/// has repeats, and no result to a position beyond the last case.
pub proof fn law_grouping_gives_each_case_its_repeats<T>(
    counts: Seq<u32>,
    results: Seq<(usize, T)>,
    i: usize,
)
    requires
        counts.len() <= usize::MAX,
        forall|x: usize|
            #[trigger] occurrences(tags(results), x) == occurrences(repeat_plan(counts), x),
    ensures
        picked(results, i as int).len() == if i < counts.len() {
            counts[i as int] as nat
        } else {
            0
        },
{
    lemma_picked_counts(results, i);
    law_plan_runs_each_case_its_repeats(counts, i);
    assert(occurrences(tags(results), i) == occurrences(repeat_plan(counts), i));
}

/// Groups `results`, each tagged with its case's position, into one list
/// per case, keeping their order; a result naming no case is dropped.
pub fn group_by_case<T>(n_cases: usize, results: Vec<(usize, T)>) -> (r: Vec<Vec<T>>)
    ensures
        r@.len() == n_cases,
        forall|i: int| 0 <= i < n_cases ==> (#[trigger] r@[i])@ == picked(results@, i),
{
    let ghost all = results@;
    let total = results.len();
    let mut per_case: Vec<Vec<T>> = Vec::new();
    let mut c: usize = 0;
    while c < n_cases
        invariant
            c <= n_cases,
            per_case@.len() == c,
            forall|i: int| 0 <= i < c ==> (#[trigger] per_case@[i])@ == Seq::<T>::empty(),
        decreases n_cases - c,
    {
        per_case.push(Vec::new());
        c = c + 1;
    }
    let mut rest = results;
    let mut reversed: Vec<(usize, T)> = Vec::new();
    while rest.len() > 0
        invariant
            reversed@.len() + rest@.len() == all.len(),
            rest@ == all.take(rest@.len() as int),
            forall|k: int|
                0 <= k < reversed@.len() ==> #[trigger] reversed@[k] == all[all.len() - 1 - k],
        decreases rest.len(),
    {
        let ghost before = rest@;
        let item = rest.pop().unwrap();
        assert(rest@ =~= all.take(rest@.len() as int));
        reversed.push(item);
    }
    let mut done: usize = 0;
    while reversed.len() > 0
        invariant
            done + reversed@.len() == all.len(),
            all.len() == total,
            forall|k: int|
                0 <= k < reversed@.len() ==> #[trigger] reversed@[k] == all[all.len() - 1 - k],
            per_case@.len() == n_cases,
            forall|i: int|
                0 <= i < n_cases ==> (#[trigger] per_case@[i])@ == picked(all.take(done as int), i),
        decreases reversed.len(),
    {
        let (index, item) = reversed.pop().unwrap();
        assert(all.take(done + 1).drop_last() =~= all.take(done as int));
        assert(all.take(done + 1).last() == all[done as int]);
        let ghost old_groups = per_case@;
        if index < n_cases {
            let mut slot = per_case.remove(index);
            slot.push(item);
            per_case.insert(index, slot);
            assert forall|i: int| 0 <= i < n_cases implies (#[trigger] per_case@[i])@ == picked(
                all.take(done + 1),
                i,
            ) by {
                if i != index {
                    assert(per_case@[i] == old_groups[i]);
                }
            }
        }
        done = done + 1;
    }
    assert(all.take(all.len() as int) =~= all);
    per_case
}

/// Runs agent-harness eval cases, one repeat at a time unless raised.
pub struct AgentEvalRunner {
    concurrency: usize,
    default_repeats: u32,
}

/// Builds an [`AgentEvalRunner`]. Obtained from [`AgentEvalRunner::builder`].
pub struct AgentEvalRunnerBuilder {
    concurrency: usize,
    default_repeats: u32,
}

impl AgentEvalRunner {
    #[verifier::type_invariant]
    spec fn inv(self) -> bool {
        self.concurrency >= 1
    }

    /// How many repeats run at once, across every case.
    pub closed spec fn spec_concurrency(&self) -> usize {
        self.concurrency
    }

    /// The repeats a case runs when it sets none of its own.
    pub closed spec fn spec_default_repeats(&self) -> u32 {
        self.default_repeats
    }

    /// Starts building a runner, defaulting to one repeat at a time and
    /// [`DEFAULT_REPEATS`] repeats per case.
    pub fn builder() -> (b: AgentEvalRunnerBuilder)
        ensures
            b.spec_concurrency() == 1,
            b.spec_default_repeats() == DEFAULT_REPEATS,
    {
        AgentEvalRunnerBuilder { concurrency: 1, default_repeats: DEFAULT_REPEATS }
    }

    /// How many repeats run at once, across every case: never fewer than
    /// one.
    pub fn concurrency(&self) -> (n: usize)
        ensures
            n == self.spec_concurrency(),
            n >= 1,
    {
        proof {
            use_type_invariant(self);
        }
        self.concurrency
    }

    /// The repeats a case runs when it sets none of its own.
    pub fn default_repeats(&self) -> (n: u32)
        ensures
            n == self.spec_default_repeats(),
    {
        self.default_repeats
    }

    /// The work for `cases`: one entry per repeat, naming its case by
    /// position, every case in the order given, each repeated as its
    /// metadata says.
    pub fn plan(&self, cases: &Vec<&CaseMeta>) -> (work: Vec<usize>)
        ensures
            work@ == repeat_plan(
                cases@.map_values(|m: &CaseMeta| repeats_of(*m, self.spec_default_repeats())),
            ),
    {
        let ghost counts = cases@.map_values(
            |m: &CaseMeta| repeats_of(*m, self.spec_default_repeats()),
        );
        let mut work: Vec<usize> = Vec::new();
        let mut i: usize = 0;
        while i < cases.len()
            invariant
                i <= cases@.len(),
                counts == cases@.map_values(
                    |m: &CaseMeta| repeats_of(*m, self.spec_default_repeats()),
                ),
                work@ == repeat_plan(counts.take(i as int)),
            decreases cases.len() - i,
        {
            let n = cases[i].effective_repeats(self.default_repeats);
            assert(n == counts[i as int]);
            let ghost start = work@;
            let mut j: u32 = 0;
            while j < n
                invariant
                    j <= n,
                    work@ == start + Seq::new(j as nat, |_k: int| i),
                decreases n - j,
            {
                work.push(i);
                j = j + 1;
                assert(work@ =~= start + Seq::new(j as nat, |_k: int| i));
            }
            let ghost next = counts.take(i + 1);
            assert(next.drop_last() =~= counts.take(i as int));
            assert(next.last() == n);
            assert(Seq::new(n as nat, |_k: int| i) =~= Seq::new(
                next.last() as nat,
                |_k: int| (next.len() - 1) as usize,
            ));
            i = i + 1;
        }
        assert(counts.take(cases.len() as int) =~= counts);
        work
    }
}

impl AgentEvalRunnerBuilder {
    #[verifier::type_invariant]
    spec fn inv(self) -> bool {
        self.concurrency >= 1
    }

    /// How many repeats the runner will run at once.
    pub closed spec fn spec_concurrency(&self) -> usize {
        self.concurrency
    }

    /// The repeats a case will run when it sets none of its own.
    pub closed spec fn spec_default_repeats(&self) -> u32 {
        self.default_repeats
    }

    /// Bounds how many repeats run at once, across every case. Floored at
    /// one, whatever is passed.
    pub fn concurrency(self, concurrency: usize) -> (b: Self)
        ensures
            b.spec_concurrency() == if concurrency >= 1 {
                concurrency
            } else {
                1
            },
            b.spec_default_repeats() == self.spec_default_repeats(),
    {
        let floored = if concurrency >= 1 {
            concurrency
        } else {
            1
        };
        AgentEvalRunnerBuilder { concurrency: floored, default_repeats: self.default_repeats }
    }

    /// Repeats a case runs when it does not set its own count.
    pub fn default_repeats(self, repeats: u32) -> (b: Self)
        ensures
            b.spec_concurrency() == self.spec_concurrency(),
            b.spec_default_repeats() == repeats,
    {
        proof {
            use_type_invariant(&self);
        }
        AgentEvalRunnerBuilder { concurrency: self.concurrency, default_repeats: repeats }
    }

    /// Finishes building the runner.
    pub fn build(self) -> (r: AgentEvalRunner)
        ensures
            r.spec_concurrency() == self.spec_concurrency(),
            r.spec_default_repeats() == self.spec_default_repeats(),
    {
        proof {
            use_type_invariant(&self);
        }
        AgentEvalRunner { concurrency: self.concurrency, default_repeats: self.default_repeats }
    }
}

/// The verdict for a repeat whose run failed after `latency`: a provider
/// failure is [`VerdictCategory::Unavailable`], carrying the failure's
/// message; an invalid conversation is [`VerdictCategory::Failed`],
/// carrying the broken rule.
pub fn failure_verdict(failure: &RunFailure, latency: Duration) -> (v: Verdict)
    ensures
        match *failure {
            RunFailure::Provider { source, .. } => v.category == VerdictCategory::Unavailable
                && v.reason@ == provider_failure_text(source),
            RunFailure::InvalidConversation { reason } => v.category == VerdictCategory::Failed
                && v.reason@ == reason@,
        },
        v.latency == Some(latency),
        v.usage is None,
{
    match failure {
        RunFailure::Provider { source, .. } => {
            let text = source.describe();
            Verdict::unavailable(text.as_str()).with_latency(latency)
        },
        RunFailure::InvalidConversation { reason } => Verdict::failed(reason.as_str()).with_latency(
            latency,
        ),
    }
}

/// The verdict for a run the case scored as `scored`, which took
/// `latency`: it carries the latency and the run's total usage. Also says
/// whether the repeat's report keeps the full transcript: for every miss,
/// so a wrong or failed repeat is diagnosable without a rerun.
pub fn scored_verdict(scored: Verdict, latency: Duration, record: &RunRecord) -> (r: (Verdict, bool))
    ensures
        r.0.category == scored.category,
        r.0.reason == scored.reason,
        r.0.latency == Some(latency),
        r.0.usage == Some(record.trace.total_usage),
        r.1 == (scored.category != VerdictCategory::Pass),
{
    let verdict = scored.with_latency(latency).with_usage(record.trace.total_usage);
    let keep = !verdict.passed();
    (verdict, keep)
}

/// How one repeat of an agent-harness case went.
pub enum RepeatOutcome<'a> {
    /// Set up could not complete, for this reason; the agent never ran.
    SetUpFailed(&'a str),
    /// The run failed.
    RunFailed(&'a RunFailure),
    /// The run finished, but its checks could not be run, for this reason.
    CheckFailed(&'a str, &'a RunRecord),
    /// The run finished and the case scored it so.
    Scored(Verdict, &'a RunRecord),
}

/// What a repeat's report detail holds besides its verdict.
#[derive(Debug, Clone, Copy, PartialEq, Eq, Structural)]
pub enum DetailKind {
    /// No detail.
    Nothing,
    /// Every round the failed run completed, with its full transcript.
    FailedRun,
    /// The finished run's ending, usage, round count and checks, with the
    /// full transcript when `transcript` is set.
    FinishedRun {
        /// Whether the full transcript is kept.
        transcript: bool,
    },
}

/// The verdict for a repeat that went as `outcome` and took `latency`, and
/// what its report detail holds.
///
/// Set up or check trouble, and an invalid conversation, measured nothing:
/// [`VerdictCategory::Failed`], carrying the reason. A provider failure is
/// [`VerdictCategory::Unavailable`] and keeps the failed run's transcript.
/// A checked run gets the case's own score, carrying the run's total usage;
/// the transcript is kept for every miss and whenever the checks could not
/// run, so a miss is diagnosable without a rerun.
pub fn repeat_verdict(outcome: RepeatOutcome, latency: Duration) -> (r: (Verdict, DetailKind))
    ensures
        r.0.latency == Some(latency),
        match outcome {
            RepeatOutcome::SetUpFailed(reason) => {
                &&& r.0.category == VerdictCategory::Failed
                &&& r.0.reason@ == reason@
                &&& r.0.usage is None
                &&& r.1 == DetailKind::Nothing
            },
            RepeatOutcome::RunFailed(failure) => {
                &&& r.0.usage is None
                &&& match *failure {
                    RunFailure::Provider { source, .. } => {
                        &&& r.0.category == VerdictCategory::Unavailable
                        &&& r.0.reason@ == provider_failure_text(source)
                        &&& r.1 == DetailKind::FailedRun
                    },
                    RunFailure::InvalidConversation { reason } => {
                        &&& r.0.category == VerdictCategory::Failed
                        &&& r.0.reason@ == reason@
                        &&& r.1 == DetailKind::Nothing
                    },
                }
            },
            RepeatOutcome::CheckFailed(reason, _) => {
                &&& r.0.category == VerdictCategory::Failed
                &&& r.0.reason@ == reason@
                &&& r.0.usage is None
                &&& r.1 == DetailKind::FinishedRun { transcript: true }
            },
            RepeatOutcome::Scored(score, record) => {
                &&& r.0.category == score.category
                &&& r.0.reason == score.reason
                &&& r.0.usage == Some(record.trace.total_usage)
                &&& r.1 == DetailKind::FinishedRun {
                    transcript: score.category != VerdictCategory::Pass,
                }
            },
        },
{
    match outcome {
        RepeatOutcome::SetUpFailed(reason) => (
            Verdict::failed(reason).with_latency(latency),
            DetailKind::Nothing,
        ),
        RepeatOutcome::RunFailed(failure) => {
            let verdict = failure_verdict(failure, latency);
            let detail = match failure {
                RunFailure::Provider { .. } => DetailKind::FailedRun,
                RunFailure::InvalidConversation { .. } => DetailKind::Nothing,
            };
            (verdict, detail)
        },
        RepeatOutcome::CheckFailed(reason, _) => (
            Verdict::failed(reason).with_latency(latency),
            DetailKind::FinishedRun { transcript: true },
        ),
        RepeatOutcome::Scored(score, record) => {
            let (verdict, keep) = scored_verdict(score, latency, record);
            (verdict, DetailKind::FinishedRun { transcript: keep })
        },
    }
}

} // verus!
