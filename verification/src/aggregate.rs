//! Folding a case's repeats into the counts and averages an operator reads.
//!
//! Pass rates and the threshold decision are fractions, computed where the
//! report is rendered; everything they are computed from is here.

use vstd::prelude::*;

use crate::completion::Usage;
use crate::duration::{Duration, max_nanos};
use crate::verdict::{Verdict, VerdictCategory};

verus! {

/// How many of `verdicts` fall in `category`.
pub open spec fn count_of(verdicts: Seq<Verdict>, category: VerdictCategory) -> nat
    decreases verdicts.len(),
{
    if verdicts.len() == 0 {
        0
    } else {
        count_of(verdicts.drop_last(), category) + if verdicts.last().category == category {
            1nat
        } else {
            0nat
        }
    }
}

/// `n`, or `u32::MAX` when it does not fit.
pub open spec fn capped(n: nat) -> u32 {
    if n <= u32::MAX {
        n as u32
    } else {
        u32::MAX
    }
}

/// How many of `verdicts` fall in `category`, capped at `u32::MAX`.
pub fn count(verdicts: &Vec<Verdict>, category: VerdictCategory) -> (r: u32)
    ensures
        r == capped(count_of(verdicts@, category)),
{
    let mut matching: usize = 0;
    let mut i: usize = 0;
    while i < verdicts.len()
        invariant
            i <= verdicts@.len(),
            matching == count_of(verdicts@.take(i as int), category),
            matching <= i,
        decreases verdicts.len() - i,
    {
        assert(verdicts@.take(i + 1).drop_last() =~= verdicts@.take(i as int));
        if verdicts[i].category == category {
            matching = matching + 1;
        }
        i = i + 1;
    }
    assert(verdicts@.take(verdicts.len() as int) =~= verdicts@);
    if matching <= u32::MAX as usize {
        matching as u32
    } else {
        u32::MAX
    }
}

/// The sum of `values`, saturating at `u64::MAX` along the way.
pub open spec fn saturating_sum(values: Seq<u64>) -> nat
    decreases values.len(),
{
    if values.len() == 0 {
        0
    } else {
        let t: nat = saturating_sum(values.drop_last()) + values.last() as nat;
        if t <= u64::MAX {
            t
        } else {
            u64::MAX as nat
        }
    }
}

/// The integer mean of `values` (their saturating sum divided by their
/// number, rounded down), or `None` when there are none.
pub open spec fn mean_count(values: Seq<u64>) -> Option<u64> {
    if values.len() == 0 {
        None
    } else {
        Some((saturating_sum(values) / values.len()) as u64)
    }
}

/// The integer mean of `values`, or `None` when there are none — so no
/// reported average token count is a lossy fraction.
pub fn mean_u64(values: &Vec<u64>) -> (r: Option<u64>)
    ensures
        r == mean_count(values@),
{
    let mut total: u64 = 0;
    let mut seen: u64 = 0;
    let mut i: usize = 0;
    while i < values.len()
        invariant
            i <= values@.len(),
            total == saturating_sum(values@.take(i as int)),
            seen == i,
        decreases values.len() - i,
    {
        assert(values@.take(i + 1).drop_last() =~= values@.take(i as int));
        total = total.saturating_add(values[i]);
        seen = seen + 1;
        i = i + 1;
    }
    assert(values@.take(values.len() as int) =~= values@);
    total.checked_div(seen)
}

/// The total of `spans`, saturating at the largest span along the way.
pub open spec fn saturating_span(spans: Seq<Duration>) -> nat
    decreases spans.len(),
{
    if spans.len() == 0 {
        0
    } else {
        let t = saturating_span(spans.drop_last()) + spans.last()@;
        if t <= max_nanos() {
            t
        } else {
            max_nanos()
        }
    }
}

/// `r` is the mean of `spans`: their saturating total divided by their
/// number, rounded down to the nanosecond, or `None` when there are none.
pub open spec fn is_mean_span(r: Option<Duration>, spans: Seq<Duration>) -> bool {
    match r {
        Some(d) => spans.len() > 0 && d@ == saturating_span(spans) / spans.len(),
        None => spans.len() == 0,
    }
}

/// The mean of `spans`, or `None` when there are none.
pub fn mean_duration(spans: &Vec<Duration>) -> (r: Option<Duration>)
    requires
        spans@.len() <= u32::MAX,
    ensures
        is_mean_span(r, spans@),
{
    let mut total = Duration::zero();
    let mut seen: u32 = 0;
    let mut i: usize = 0;
    while i < spans.len()
        invariant
            i <= spans@.len(),
            spans@.len() <= u32::MAX,
            total@ == saturating_span(spans@.take(i as int)),
            seen == i,
        decreases spans.len() - i,
    {
        assert(spans@.take(i + 1).drop_last() =~= spans@.take(i as int));
        total = total.saturating_add(spans[i]);
        seen = seen + 1;
        i = i + 1;
    }
    assert(spans@.take(spans.len() as int) =~= spans@);
    total.checked_div(seen)
}

/// The sum of `values`.
pub open spec fn plain_sum(values: Seq<u64>) -> nat
    decreases values.len(),
{
    if values.len() == 0 {
        0
    } else {
        plain_sum(values.drop_last()) + values.last() as nat
    }
}

/// The total of `spans`, in nanoseconds.
pub open spec fn plain_span(spans: Seq<Duration>) -> nat
    decreases spans.len(),
{
    if spans.len() == 0 {
        0
    } else {
        plain_span(spans.drop_last()) + spans.last()@
    }
}

/// When the counts sum within a `u64`, their mean is exactly the sum
/// divided by their number, rounded down.
pub proof fn law_mean_count_without_overflow(values: Seq<u64>)
    requires
        plain_sum(values) <= u64::MAX,
    ensures
        saturating_sum(values) == plain_sum(values),
        mean_count(values) == if values.len() == 0 {
            None
        } else {
            Some((plain_sum(values) / values.len()) as u64)
        },
    decreases values.len(),
{
    if values.len() > 0 {
        law_mean_count_without_overflow(values.drop_last());
    }
}

/// When the spans total within the largest span, their mean is exactly the
/// total divided by their number, rounded down to the nanosecond.
pub proof fn law_mean_span_without_overflow(spans: Seq<Duration>)
    requires
        plain_span(spans) <= max_nanos(),
    ensures
        saturating_span(spans) == plain_span(spans),
        forall|r: Option<Duration>|
            is_mean_span(r, spans) <==> match r {
                Some(d) => spans.len() > 0 && d@ == plain_span(spans) / spans.len(),
                None => spans.len() == 0,
            },
    decreases spans.len(),
{
    if spans.len() > 0 {
        law_mean_span_without_overflow(spans.drop_last());
    }
}

/// The latencies `verdicts` reported, in order.
pub open spec fn reported_latencies(verdicts: Seq<Verdict>) -> Seq<Duration>
    decreases verdicts.len(),
{
    if verdicts.len() == 0 {
        Seq::empty()
    } else {
        let rest = reported_latencies(verdicts.drop_last());
        match verdicts.last().latency {
            Some(d) => rest.push(d),
            None => rest,
        }
    }
}

/// Every repeat that reported a latency counts toward the mean, in any
/// category: the mean is taken over the latencies of all verdicts whose
/// latency is known, in order.
pub proof fn law_every_reported_latency_counts(verdicts: Seq<Verdict>)
    ensures
        reported_latencies(verdicts) == verdicts.filter(|v: Verdict| v.latency is Some).map_values(
            |v: Verdict| v.latency->0,
        ),
    decreases verdicts.len(),
{
    reveal(Seq::filter);
    if verdicts.len() > 0 {
        law_every_reported_latency_counts(verdicts.drop_last());
        let known = |v: Verdict| v.latency is Some;
        let span = |v: Verdict| v.latency->0;
        let rest = verdicts.drop_last().filter(known);
        if verdicts.last().latency is Some {
            assert(rest.push(verdicts.last()).map_values(span) =~= rest.map_values(span).push(
                verdicts.last().latency->0,
            ));
        }
    }
}

/// Every repeat that reported a token count counts toward that count's
/// mean, in any category: the mean is taken over the counts of all
/// verdicts whose usage reports that count, in order.
pub proof fn law_every_reported_count_counts(verdicts: Seq<Verdict>, input: bool)
    ensures
        reported_counts(verdicts, input) == verdicts.filter(
            |v: Verdict|
                v.usage matches Some(u) && (if input {
                    u.input_tokens
                } else {
                    u.output_tokens
                }) is Some,
        ).map_values(
            |v: Verdict|
                if input {
                    v.usage->0.input_tokens->0
                } else {
                    v.usage->0.output_tokens->0
                },
        ),
    decreases verdicts.len(),
{
    reveal(Seq::filter);
    if verdicts.len() > 0 {
        law_every_reported_count_counts(verdicts.drop_last(), input);
        let known = |v: Verdict|
            v.usage matches Some(u) && (if input {
                u.input_tokens
            } else {
                u.output_tokens
            }) is Some;
        let count = |v: Verdict|
            if input {
                v.usage->0.input_tokens->0
            } else {
                v.usage->0.output_tokens->0
            };
        let rest = verdicts.drop_last().filter(known);
        if known(verdicts.last()) {
            assert(rest.push(verdicts.last()).map_values(count) =~= rest.map_values(count).push(
                count(verdicts.last()),
            ));
        }
    }
}

/// Which token count of a usage report.
pub open spec fn pick_count(usage: Usage, input: bool) -> Option<u64> {
    if input {
        usage.input_tokens
    } else {
        usage.output_tokens
    }
}

/// The input (or output) token counts `verdicts` reported, in order.
pub open spec fn reported_counts(verdicts: Seq<Verdict>, input: bool) -> Seq<u64>
    decreases verdicts.len(),
{
    if verdicts.len() == 0 {
        Seq::empty()
    } else {
        let rest = reported_counts(verdicts.drop_last(), input);
        match verdicts.last().usage {
            Some(u) => match pick_count(u, input) {
                Some(n) => rest.push(n),
                None => rest,
            },
            None => rest,
        }
    }
}

/// The latencies `verdicts` reported.
pub fn latencies(verdicts: &Vec<Verdict>) -> (r: Vec<Duration>)
    ensures
        r@ == reported_latencies(verdicts@),
        r@ == verdicts@.filter(|v: Verdict| v.latency is Some).map_values(
            |v: Verdict| v.latency->0,
        ),
{
    proof {
        law_every_reported_latency_counts(verdicts@);
    }
    let mut r: Vec<Duration> = Vec::new();
    let mut i: usize = 0;
    while i < verdicts.len()
        invariant
            i <= verdicts@.len(),
            r@ == reported_latencies(verdicts@.take(i as int)),
        decreases verdicts.len() - i,
    {
        assert(verdicts@.take(i + 1).drop_last() =~= verdicts@.take(i as int));
        match verdicts[i].latency {
            Some(d) => r.push(d),
            None => {},
        }
        i = i + 1;
    }
    assert(verdicts@.take(verdicts.len() as int) =~= verdicts@);
    r
}

/// The input (or output) token counts `verdicts` reported.
pub fn token_counts(verdicts: &Vec<Verdict>, input: bool) -> (r: Vec<u64>)
    ensures
        r@ == reported_counts(verdicts@, input),
{
    let mut r: Vec<u64> = Vec::new();
    let mut i: usize = 0;
    while i < verdicts.len()
        invariant
            i <= verdicts@.len(),
            r@ == reported_counts(verdicts@.take(i as int), input),
        decreases verdicts.len() - i,
    {
        assert(verdicts@.take(i + 1).drop_last() =~= verdicts@.take(i as int));
        match verdicts[i].usage {
            Some(u) => {
                let n = if input {
                    u.input_tokens
                } else {
                    u.output_tokens
                };
                match n {
                    Some(n) => r.push(n),
                    None => {},
                }
            },
            None => {},
        }
        i = i + 1;
    }
    assert(verdicts@.take(verdicts.len() as int) =~= verdicts@);
    r
}

/// The counts and averages of one case's repeats.
#[derive(Debug, Clone, Copy, PartialEq, Eq, Structural)]
pub struct CaseTally {
    /// Repeats actually run.
    pub repeats: u32,
    /// Repeats that passed.
    pub passes: u32,
    /// Repeats that answered but got it wrong.
    pub wrong: u32,
    /// Repeats the parser could not read.
    pub unparseable: u32,
    /// Repeats that got no answer at all.
    pub unavailable: u32,
    /// Repeats that measured nothing due to harness trouble.
    pub failed: u32,
    /// The mean latency across repeats that reported one.
    pub mean_latency: Option<Duration>,
    /// The mean input token count across repeats that reported one.
    pub mean_input_tokens: Option<u64>,
    /// The mean output token count across repeats that reported one.
    pub mean_output_tokens: Option<u64>,
}

/// `t` is the tally of `verdicts`.
pub open spec fn is_tally_of(t: CaseTally, verdicts: Seq<Verdict>) -> bool {
    &&& t.repeats == capped(verdicts.len())
    &&& t.passes == capped(count_of(verdicts, VerdictCategory::Pass))
    &&& t.wrong == capped(count_of(verdicts, VerdictCategory::Wrong))
    &&& t.unparseable == capped(count_of(verdicts, VerdictCategory::Unparseable))
    &&& t.unavailable == capped(count_of(verdicts, VerdictCategory::Unavailable))
    &&& t.failed == capped(count_of(verdicts, VerdictCategory::Failed))
    &&& is_mean_span(t.mean_latency, reported_latencies(verdicts))
    &&& t.mean_input_tokens == mean_count(reported_counts(verdicts, true))
    &&& t.mean_output_tokens == mean_count(reported_counts(verdicts, false))
}

/// Every verdict falls in exactly one category, so the categories' counts
/// add up to the number of verdicts.
pub proof fn law_categories_partition(verdicts: Seq<Verdict>)
    ensures
        count_of(verdicts, VerdictCategory::Pass) + count_of(verdicts, VerdictCategory::Wrong)
            + count_of(verdicts, VerdictCategory::Unparseable) + count_of(
            verdicts,
            VerdictCategory::Unavailable,
        ) + count_of(verdicts, VerdictCategory::Failed) == verdicts.len(),
    decreases verdicts.len(),
{
    if verdicts.len() > 0 {
        law_categories_partition(verdicts.drop_last());
    }
}

impl CaseTally {
    /// Folds `verdicts` — one case's repeats — into their counts and
    /// averages.
    pub fn of(verdicts: &Vec<Verdict>) -> (t: Self)
        requires
            reported_latencies(verdicts@).len() <= u32::MAX,
        ensures
            is_tally_of(t, verdicts@),
            is_mean_span(
                t.mean_latency,
                verdicts@.filter(|v: Verdict| v.latency is Some).map_values(
                    |v: Verdict| v.latency->0,
                ),
            ),
            verdicts@.len() <= u32::MAX ==> t.passes + t.wrong + t.unparseable + t.unavailable
                + t.failed == t.repeats,
    {
        proof {
            law_categories_partition(verdicts@);
            law_every_reported_latency_counts(verdicts@);
        }
        let n = verdicts.len();
        let repeats = if n <= u32::MAX as usize {
            n as u32
        } else {
            u32::MAX
        };
        let spans = latencies(verdicts);
        let inputs = token_counts(verdicts, true);
        let outputs = token_counts(verdicts, false);
        CaseTally {
            repeats,
            passes: count(verdicts, VerdictCategory::Pass),
            wrong: count(verdicts, VerdictCategory::Wrong),
            unparseable: count(verdicts, VerdictCategory::Unparseable),
            unavailable: count(verdicts, VerdictCategory::Unavailable),
            failed: count(verdicts, VerdictCategory::Failed),
            mean_latency: mean_duration(&spans),
            mean_input_tokens: mean_u64(&inputs),
            mean_output_tokens: mean_u64(&outputs),
        }
    }
}

} // verus!
