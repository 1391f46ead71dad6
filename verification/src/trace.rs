//! What a run produced: the messages it appended, what happened each round,
//! and how it finished.

use vstd::prelude::*;

use crate::completion::{StopReason, Usage};
use crate::duration::Duration;
use crate::message::{Message, MessageView, views_of};
use crate::tools::StopRequest;

verus! {

/// One tool call a round dispatched.
#[derive(Debug, PartialEq, Eq)]
pub struct ToolCallRecord {
    /// The tool's registered name.
    pub name: String,
    /// The arguments it was called with, as JSON text.
    pub arguments: String,
    /// Whether the call failed.
    pub failed: bool,
    /// How long the call took.
    pub latency: Duration,
}

impl Clone for ToolCallRecord {
    fn clone(&self) -> (r: Self)
        ensures
            r == *self,
    {
        ToolCallRecord {
            name: self.name.clone(),
            arguments: self.arguments.clone(),
            failed: self.failed,
            latency: self.latency,
        }
    }
}

/// What happened in one round of the loop: one model call, and every tool
/// call it triggered.
#[derive(Debug, PartialEq, Eq)]
pub struct RoundRecord {
    /// Usage the model reported for this round's completion.
    pub usage: Usage,
    /// The round's classified stop reason.
    pub stop_reason: StopReason,
    /// How long the model call took, from request to a finished completion.
    pub latency: Duration,
    /// Every tool call the round dispatched, in dispatch order.
    pub tool_calls: Vec<ToolCallRecord>,
}

/// A copy of every tool-call record, in order.
pub fn clone_calls(v: &Vec<ToolCallRecord>) -> (r: Vec<ToolCallRecord>)
    ensures
        r@ == v@,
{
    let mut r: Vec<ToolCallRecord> = Vec::new();
    let mut i: usize = 0;
    while i < v.len()
        invariant
            i <= v.len(),
            r@ == v@.take(i as int),
        decreases v.len() - i,
    {
        r.push(v[i].clone());
        i = i + 1;
        assert(r@ =~= v@.take(i as int));
    }
    assert(v@.take(v.len() as int) =~= v@);
    r
}

impl Clone for RoundRecord {
    fn clone(&self) -> (r: Self)
        ensures
            r@ == self@,
    {
        RoundRecord {
            usage: self.usage,
            stop_reason: self.stop_reason,
            latency: self.latency,
            tool_calls: clone_calls(&self.tool_calls),
        }
    }
}

/// A copy of every round record, in order.
pub fn clone_rounds(v: &Vec<RoundRecord>) -> (r: Vec<RoundRecord>)
    ensures
        round_views(r@) == round_views(v@),
{
    let mut r: Vec<RoundRecord> = Vec::new();
    let mut i: usize = 0;
    while i < v.len()
        invariant
            i <= v.len(),
            r@.len() == i,
            round_views(r@) == round_views(v@).take(i as int),
        decreases v.len() - i,
    {
        let ghost before = r@;
        let copy = v[i].clone();
        r.push(copy);
        assert(round_views(r@) =~= round_views(before).push(v@[i as int]@));
        i = i + 1;
        assert(round_views(r@) =~= round_views(v@).take(i as int));
    }
    assert(round_views(v@).take(v.len() as int) =~= round_views(v@));
    r
}

/// A round as a value.
pub struct RoundView {
    pub usage: Usage,
    pub stop_reason: StopReason,
    pub latency: Duration,
    pub tool_calls: Seq<ToolCallRecord>,
}

impl View for RoundRecord {
    type V = RoundView;

    open spec fn view(&self) -> RoundView {
        RoundView {
            usage: self.usage,
            stop_reason: self.stop_reason,
            latency: self.latency,
            tool_calls: self.tool_calls@,
        }
    }
}

/// Every round's value, in order.
pub open spec fn round_views(rounds: Seq<RoundRecord>) -> Seq<RoundView> {
    rounds.map_values(|r: RoundRecord| r@)
}

/// The sum of an optional count over rounds: `None` as soon as any round
/// left it unknown.
pub open spec fn sum_known(values: Seq<Option<u64>>) -> Option<int>
    decreases values.len(),
{
    if values.len() == 0 {
        Some(0)
    } else {
        match (sum_known(values.drop_last()), values.last()) {
            (Some(total), Some(v)) => Some(total + v),
            _ => None,
        }
    }
}

/// Every round's input-token count, in order.
pub open spec fn input_counts(rounds: Seq<RoundView>) -> Seq<Option<u64>> {
    rounds.map_values(|r: RoundView| r.usage.input_tokens)
}

/// Every round's output-token count, in order.
pub open spec fn output_counts(rounds: Seq<RoundView>) -> Seq<Option<u64>> {
    rounds.map_values(|r: RoundView| r.usage.output_tokens)
}

/// A `u64` count matches a mathematical total.
pub open spec fn count_matches(count: Option<u64>, total: Option<int>) -> bool {
    match (count, total) {
        (Some(c), Some(t)) => c == t,
        (None, None) => true,
        _ => false,
    }
}

/// `usage` is the sum of every round's usage, a field unknown when any
/// round left it unknown.
pub open spec fn is_total_usage(usage: Usage, rounds: Seq<RoundView>) -> bool {
    &&& count_matches(usage.input_tokens, sum_known(input_counts(rounds)))
    &&& count_matches(usage.output_tokens, sum_known(output_counts(rounds)))
}

/// The progress of a run: what happened, independent of how it ended.
#[derive(Debug, PartialEq, Eq)]
pub struct RunTrace {
    /// Messages appended during the run — assistant replies and tool
    /// results — in the order they were produced. Does not include the
    /// conversation the run was given.
    pub messages: Vec<Message>,
    /// Every round the run completed, in order.
    pub rounds: Vec<RoundRecord>,
    /// Usage summed across every completed round. A field is `None` if any
    /// round reported it unknown.
    pub total_usage: Usage,
}

/// A trace as a value.
pub struct TraceView {
    pub messages: Seq<MessageView>,
    pub rounds: Seq<RoundView>,
    pub total_usage: Usage,
}

impl View for RunTrace {
    type V = TraceView;

    open spec fn view(&self) -> TraceView {
        TraceView {
            messages: views_of(self.messages@),
            rounds: round_views(self.rounds@),
            total_usage: self.total_usage,
        }
    }
}

impl Clone for RunTrace {
    fn clone(&self) -> (r: Self)
        ensures
            r@ == self@,
    {
        RunTrace {
            messages: crate::message::clone_messages(&self.messages),
            rounds: clone_rounds(&self.rounds),
            total_usage: self.total_usage,
        }
    }
}

/// How a run ended.
#[derive(Debug, PartialEq, Eq)]
pub enum RunEnding {
    /// The model answered without requesting tools.
    Completed,
    /// The model hit its output-token limit before finishing.
    Truncated,
    /// A tool asked for the run to end after this round.
    StopRequested(StopRequest),
    /// The run reached its round limit without reaching another ending.
    RoundsExhausted,
    /// The same tool call repeated enough consecutive times to trip the
    /// stall threshold.
    Stalled {
        /// The tool that repeated.
        tool: String,
        /// How many consecutive times it repeated.
        count: u32,
    },
    /// The run's cancellation token was set before further work began.
    Cancelled,
}

/// A finished run: its ending, its final reply, and everything it did.
#[derive(Debug, PartialEq, Eq)]
pub struct RunRecord {
    /// How the run ended.
    pub ending: RunEnding,
    /// The final reply text, when the ending produced one.
    pub reply: Option<String>,
    /// Everything the run did.
    pub trace: RunTrace,
}

} // verus!
