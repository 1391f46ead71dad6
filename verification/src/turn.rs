//! The turn loop's decisions: from the state of a run and what just happened
//! to the next state and what to do next.
//!
//! A run moves through three states. Between rounds it is a [`TurnLoop`],
//! which decides whether to call the model again. While the model is called
//! it is a [`PendingRound`], which turns the reply into a finished run or a
//! [`ToolRound`]. A tool round hands out the requested tool calls one at a
//! time ([`ToolCall`]) until the round is over ([`RoundOver`]), which
//! decides whether the run stops, stalled, or goes on. Whoever drives the
//! run performs the model calls and tool calls and hands back what they
//! produced.

use vstd::prelude::*;

use crate::accumulator::free_of_results;
use crate::completion::{Completion, CompletionView, StopReason, Usage};
use crate::duration::Duration;
use crate::json::{json_equal, same_json};
use crate::failure::{ProviderFailure, RunFailure, ToolFailure, tool_failure_text};
use crate::message::{
    Content, Message, MessageView, Role, ToolResult, ToolUse, clone_messages, content_views,
    has_tool_use, rendered_text, tool_uses_in, views_of,
};
use crate::request::{
    CompletionRequest, first_violation, has_tool_result, known_ids, lemma_first_violation_extends,
    past_head, rule_text, text_only, tool_use_ids, user_violation, valid_conversation,
    validate_messages,
};
use crate::section::{
    SystemSection, is_prompt_for, render_system_prompt, rendered_as, renders, text_views,
};
use crate::text::owned;
use crate::tools::{ToolContext, ToolSpec};
use crate::trace::{
    RoundRecord, RoundView, RunEnding, RunRecord, RunTrace, ToolCallRecord, input_counts,
    is_total_usage, output_counts, round_views, sum_known,
};

verus! {

/// Backstops on a run's length: a last-resort round limit, and a stall
/// threshold for a tool call repeating without progress.
#[derive(Debug, Clone, Copy, PartialEq, Eq, Structural)]
pub struct Limits {
    /// The maximum number of model rounds a run will make before ending as
    /// [`RunEnding::RoundsExhausted`].
    pub round_limit: u32,
    /// How many consecutive, identical dispatched tool calls end a run as
    /// [`RunEnding::Stalled`].
    pub stall_threshold: u32,
}

impl Default for Limits {
    /// 16 rounds; a stall after 4 identical calls in a row.
    fn default() -> (l: Self)
        ensures
            l.round_limit == 16,
            l.stall_threshold == 4,
    {
        Limits { round_limit: 16, stall_threshold: 4 }
    }
}

/// Whether a call of `name` with `arguments` repeats `last`: the same tool,
/// and arguments that are the same JSON value (the same text, or texts
/// `serde_json` reads as equal values).
pub open spec fn repeats_call(
    last: Option<(Seq<char>, Seq<char>)>,
    name: Seq<char>,
    arguments: Seq<char>,
) -> bool {
    match last {
        Some((n, a)) => n == name && (a == arguments || json_equal(a, arguments)),
        None => false,
    }
}

/// Tracks consecutive, identical dispatched tool calls, in dispatch order
/// across rounds. Two calls are identical when they name the same tool with
/// structurally equal arguments: equal JSON values, whatever their key order
/// or number spelling.
#[derive(Debug)]
pub struct StallTracker {
    last: Option<(String, String)>,
    streak: u32,
}

impl StallTracker {
    /// The last call recorded, as (name, arguments).
    pub closed spec fn spec_last(&self) -> Option<(Seq<char>, Seq<char>)> {
        match self.last {
            Some((name, arguments)) => Some((name@, arguments@)),
            None => None,
        }
    }

    /// How many times in a row the last call repeated.
    pub closed spec fn spec_streak(&self) -> u32 {
        self.streak
    }

    /// A tracker that has seen no call.
    pub fn new() -> (t: Self)
        ensures
            t.spec_last() is None,
            t.spec_streak() == 0,
    {
        StallTracker { last: None, streak: 0 }
    }

    /// How many times in a row the last call repeated.
    pub fn streak(&self) -> (n: u32)
        ensures
            n == self.spec_streak(),
    {
        self.streak
    }

    /// Records one dispatched call: the streak grows by one if it repeats
    /// the previous call, and restarts at one otherwise.
    pub fn record(&mut self, name: &String, arguments: &String)
        requires
            old(self).spec_streak() < u32::MAX,
        ensures
            final(self).spec_last() == Some((name@, arguments@)),
            final(self).spec_streak() == if repeats_call(old(self).spec_last(), name@, arguments@) {
                old(self).spec_streak() + 1
            } else {
                1
            },
    {
        let repeats_last = match &self.last {
            Some((last_name, last_arguments)) => *last_name == *name && (*last_arguments
                == *arguments || same_json(last_arguments.as_str(), arguments.as_str())),
            None => false,
        };
        self.streak = if repeats_last { self.streak + 1 } else { 1 };
        self.last = Some((name.clone(), arguments.clone()));
    }

    /// The repeated tool's name and the streak's length, once the streak
    /// has reached `threshold`.
    pub fn tripped(&self, threshold: u32) -> (r: Option<(String, u32)>)
        ensures
            match r {
                Some((name, count)) => {
                    &&& self.spec_streak() >= threshold
                    &&& self.spec_last() matches Some((n, _)) && name@ == n
                    &&& count == self.spec_streak()
                },
                None => self.spec_streak() < threshold || self.spec_last() is None,
            },
    {
        if self.streak >= threshold {
            match &self.last {
                Some((name, _)) => Some((name.clone(), self.streak)),
                None => None,
            }
        } else {
            None
        }
    }
}

impl Default for StallTracker {
    /// A tracker that has seen no call.
    fn default() -> (t: Self)
        ensures
            t.spec_last() is None,
            t.spec_streak() == 0,
    {
        StallTracker::new()
    }
}

/// How a run ended, as a value.
pub enum EndingView {
    Completed,
    Truncated,
    /// The stop request's reply and reason.
    StopRequested(Seq<char>, Seq<char>),
    RoundsExhausted,
    /// The repeated tool and how many times in a row it was called.
    Stalled(Seq<char>, u32),
    Cancelled,
}

/// The value of a run ending.
pub open spec fn ending_view(e: RunEnding) -> EndingView {
    match e {
        RunEnding::Completed => EndingView::Completed,
        RunEnding::Truncated => EndingView::Truncated,
        RunEnding::StopRequested(s) => EndingView::StopRequested(s.reply@, s.reason@),
        RunEnding::RoundsExhausted => EndingView::RoundsExhausted,
        RunEnding::Stalled { tool, count } => EndingView::Stalled(tool@, count),
        RunEnding::Cancelled => EndingView::Cancelled,
    }
}

/// The value of an optional text.
pub open spec fn opt_text(s: Option<String>) -> Option<Seq<char>> {
    match s {
        Some(t) => Some(t@),
        None => None,
    }
}

/// A reply text, absent when empty.
pub open spec fn non_empty_reply(text: Seq<char>) -> Option<Seq<char>> {
    if text.len() == 0 {
        None
    } else {
        Some(text)
    }
}

/// Where a run stands, as a value.
pub struct RunView {
    /// The conversation the run was given.
    pub conversation: Seq<MessageView>,
    /// The messages the run has appended, in order.
    pub appended: Seq<MessageView>,
    /// Every round completed so far.
    pub rounds: Seq<RoundView>,
    /// The usage summed over those rounds.
    pub total: Usage,
    /// How many rounds have begun.
    pub started: u32,
    /// The run's limits.
    pub limits: Limits,
    /// The last tool call dispatched, as (name, arguments).
    pub stall_last: Option<(Seq<char>, Seq<char>)>,
    /// How many times in a row that call was dispatched.
    pub streak: u32,
}

/// No message in `msgs` is a system message.
pub open spec fn no_system(msgs: Seq<MessageView>) -> bool {
    forall|i: int| 0 <= i < msgs.len() ==> #[trigger] msgs[i].role != Role::System
}

/// No assistant message in `msgs` carries a tool-result block.
pub open spec fn assistants_clean(msgs: Seq<MessageView>) -> bool {
    forall|i: int|
        0 <= i < msgs.len() && #[trigger] msgs[i].role == Role::Assistant ==> !has_tool_result(
            msgs[i].content,
        )
}

/// The conversation followed by what a run appended keeps every request
/// rule, as long as no appended assistant message carries a tool result.
pub open spec fn resumable(conversation: Seq<MessageView>, appended: Seq<MessageView>) -> bool {
    assistants_clean(appended) ==> valid_conversation(conversation + appended)
}

/// What holds of a run at every point.
pub open spec fn sound_run(v: RunView) -> bool {
    &&& v.rounds.len() <= v.started <= v.limits.round_limit
    &&& is_total_usage(v.total, v.rounds)
    &&& no_system(v.conversation)
    &&& valid_conversation(v.conversation)
    &&& no_system(v.appended)
    &&& resumable(v.conversation, v.appended)
}

/// `rec` finished a run standing at `v`, with `ending` and `reply`.
pub open spec fn finished_with(
    rec: RunRecord,
    v: RunView,
    ending: EndingView,
    reply: Option<Seq<char>>,
) -> bool {
    &&& ending_view(rec.ending) == ending
    &&& opt_text(rec.reply) == reply
    &&& rec.trace@.messages == v.appended
    &&& rec.trace@.rounds == v.rounds
    &&& rec.trace@.total_usage == v.total
}

/// What holds of every finished run given `conversation` under `limits`:
/// it completed no more rounds than the limit, its total usage sums its
/// rounds, it appended no system message, and the conversation followed by
/// what it appended keeps every request rule whenever no appended assistant
/// message carries a tool result.
pub open spec fn sound_record(rec: RunRecord, conversation: Seq<MessageView>, limits: Limits) -> bool {
    &&& rec.trace@.rounds.len() <= limits.round_limit
    &&& is_total_usage(rec.trace@.total_usage, rec.trace@.rounds)
    &&& no_system(rec.trace@.messages)
    &&& resumable(conversation, rec.trace@.messages)
}

/// Adding `b` to `a` stays within a `u64` wherever both are known.
pub open spec fn count_fits(a: Option<u64>, b: Option<u64>) -> bool {
    match (a, b) {
        (Some(x), Some(y)) => x + y <= u64::MAX,
        _ => true,
    }
}

/// Adding a round's usage to the running total stays within a `u64`.
pub open spec fn usage_fits(total: Usage, usage: Usage) -> bool {
    count_fits(total.input_tokens, usage.input_tokens) && count_fits(
        total.output_tokens,
        usage.output_tokens,
    )
}

/// The sum of two optional counts: unknown when either is.
pub open spec fn count_sum(a: Option<u64>, b: Option<u64>) -> Option<u64> {
    match (a, b) {
        (Some(x), Some(y)) => Some((x + y) as u64),
        _ => None,
    }
}

/// The running total after a round with `usage`.
pub open spec fn usage_sum(total: Usage, usage: Usage) -> Usage {
    Usage {
        input_tokens: count_sum(total.input_tokens, usage.input_tokens),
        output_tokens: count_sum(total.output_tokens, usage.output_tokens),
    }
}

/// `v` after one more round: `message` appended and `round` recorded.
pub open spec fn after_round(v: RunView, message: MessageView, round: RoundView) -> RunView {
    RunView {
        appended: v.appended.push(message),
        rounds: v.rounds.push(round),
        total: usage_sum(v.total, round.usage),
        ..v
    }
}

fn sum_optional(total: Option<u64>, value: Option<u64>) -> (r: Option<u64>)
    requires
        count_fits(total, value),
    ensures
        r == count_sum(total, value),
{
    match (total, value) {
        (Some(t), Some(v)) => Some(t + v),
        _ => None,
    }
}

/// The running total stays the sum of every round.
proof fn lemma_total_extends(total: Usage, rounds: Seq<RoundView>, round: RoundView)
    requires
        is_total_usage(total, rounds),
        usage_fits(total, round.usage),
    ensures
        is_total_usage(usage_sum(total, round.usage), rounds.push(round)),
{
    let next = rounds.push(round);
    assert(input_counts(next).drop_last() =~= input_counts(rounds));
    assert(output_counts(next).drop_last() =~= output_counts(rounds));
    assert(input_counts(next).last() == round.usage.input_tokens);
    assert(output_counts(next).last() == round.usage.output_tokens);
}

/// Every running sum of `counts` fits in a `u64` wherever it is known.
pub open spec fn running_sums_fit(counts: Seq<Option<u64>>) -> bool {
    forall|n: int|
        0 <= n <= counts.len() ==> (#[trigger] sum_known(counts.take(n)) matches Some(t) ==> t
            <= u64::MAX)
}

/// The usage of a run whose rounds are `rounds`: each count summed over
/// every round, and unknown as soon as any round left it unknown.
pub fn total_usage(rounds: &Vec<RoundRecord>) -> (u: Usage)
    requires
        running_sums_fit(input_counts(round_views(rounds@))),
        running_sums_fit(output_counts(round_views(rounds@))),
    ensures
        is_total_usage(u, round_views(rounds@)),
{
    let ghost views = round_views(rounds@);
    let mut total = Usage { input_tokens: Some(0), output_tokens: Some(0) };
    let mut i: usize = 0;
    assert(views.take(0) =~= Seq::<RoundView>::empty());
    assert(input_counts(views.take(0)) =~= Seq::<Option<u64>>::empty());
    assert(output_counts(views.take(0)) =~= Seq::<Option<u64>>::empty());
    while i < rounds.len()
        invariant
            i <= rounds@.len(),
            views == round_views(rounds@),
            running_sums_fit(input_counts(views)),
            running_sums_fit(output_counts(views)),
            is_total_usage(total, views.take(i as int)),
        decreases rounds.len() - i,
    {
        let usage = rounds[i].usage;
        let ghost before = views.take(i as int);
        let ghost next = views.take(i + 1);
        proof {
            assert(next =~= before.push(rounds@[i as int]@));
            assert(input_counts(views).take(i + 1) =~= input_counts(next));
            assert(output_counts(views).take(i + 1) =~= output_counts(next));
            assert(input_counts(next).drop_last() =~= input_counts(before));
            assert(output_counts(next).drop_last() =~= output_counts(before));
            assert(sum_known(input_counts(views).take(i + 1)) matches Some(t) ==> t <= u64::MAX);
            assert(sum_known(output_counts(views).take(i + 1)) matches Some(t) ==> t
                <= u64::MAX);
            assert(usage_fits(total, usage));
            lemma_total_extends(total, before, rounds@[i as int]@);
        }
        total = Usage {
            input_tokens: sum_optional(total.input_tokens, usage.input_tokens),
            output_tokens: sum_optional(total.output_tokens, usage.output_tokens),
        };
        i = i + 1;
    }
    assert(views.take(rounds.len() as int) =~= views);
    total
}

/// A conversation with no system message.
fn has_system_message(messages: &Vec<Message>) -> (b: bool)
    ensures
        b == !no_system(views_of(messages@)),
{
    let mut i: usize = 0;
    while i < messages.len()
        invariant
            i <= messages@.len(),
            forall|k: int| 0 <= k < i ==> messages@[k].role != Role::System,
        decreases messages.len() - i,
    {
        if messages[i].role == Role::System {
            assert(views_of(messages@)[i as int].role == Role::System);
            return true;
        }
        i = i + 1;
    }
    assert forall|k: int| 0 <= k < views_of(messages@).len() implies #[trigger] views_of(
        messages@,
    )[k].role != Role::System by {
        assert(messages@[k].role != Role::System);
    }
    false
}

/// The reason a conversation holding a system message is refused.
pub open spec fn system_refusal() -> Seq<char> {
    "the conversation must not contain system messages — an Agent's sections are the only system prompt"@
}

/// The progress a run carries from state to state.
struct Progress {
    conversation: Vec<Message>,
    appended: Vec<Message>,
    rounds: Vec<RoundRecord>,
    total: Usage,
    started: u32,
    limits: Limits,
    stall: StallTracker,
}

impl Progress {
    spec fn run_view(&self) -> RunView {
        RunView {
            conversation: views_of(self.conversation@),
            appended: views_of(self.appended@),
            rounds: round_views(self.rounds@),
            total: self.total,
            started: self.started,
            limits: self.limits,
            stall_last: self.stall.spec_last(),
            streak: self.stall.spec_streak(),
        }
    }

    /// The record of a run that ends here.
    fn into_record(self, ending: RunEnding, reply: Option<String>) -> (rec: RunRecord)
        ensures
            ending_view(rec.ending) == ending_view(ending),
            opt_text(rec.reply) == opt_text(reply),
            rec.trace@.messages == self.run_view().appended,
            rec.trace@.rounds == self.run_view().rounds,
            rec.trace@.total_usage == self.total,
    {
        RunRecord {
            ending,
            reply,
            trace: RunTrace { messages: self.appended, rounds: self.rounds, total_usage: self.total },
        }
    }

    /// Records a finished round and appends its message.
    fn push_round(&mut self, round: RoundRecord, message: Message)
        requires
            usage_fits(old(self).total, round.usage),
        ensures
            final(self).run_view() == after_round(old(self).run_view(), message@, round@),
    {
        let ghost before = self.run_view();
        self.total = Usage {
            input_tokens: sum_optional(self.total.input_tokens, round.usage.input_tokens),
            output_tokens: sum_optional(self.total.output_tokens, round.usage.output_tokens),
        };
        let ghost r = round@;
        let ghost m = message@;
        let ghost old_rounds = self.rounds@;
        let ghost old_appended = self.appended@;
        self.rounds.push(round);
        self.appended.push(message);
        assert(round_views(self.rounds@) =~= round_views(old_rounds).push(r));
        assert(views_of(self.appended@) =~= views_of(old_appended).push(m));
    }
}

/// The run a valid conversation starts as.
pub open spec fn initial_run(conversation: Seq<MessageView>, limits: Limits) -> RunView {
    RunView {
        conversation,
        appended: Seq::empty(),
        rounds: Seq::empty(),
        total: Usage { input_tokens: Some(0), output_tokens: Some(0) },
        started: 0,
        limits,
        stall_last: None,
        streak: 0,
    }
}

/// The messages a system prompt contributes at the head of a request.
pub open spec fn prompt_views(system: Option<Message>) -> Seq<MessageView> {
    match system {
        Some(m) => seq![m@],
        None => Seq::empty(),
    }
}

/// `req` is the request a round of the run standing at `v` sends: the
/// system prompt rendered from `sections`, then the conversation, then what
/// the run appended, advertising `tools` and leaving every setting to the
/// model's defaults.
pub open spec fn request_for(
    req: CompletionRequest,
    v: RunView,
    sections: Seq<SystemSection>,
    tools: Seq<ToolSpec>,
) -> bool {
    &&& exists|system: Option<Message>|
        #[trigger] renders(system, sections) && views_of(req.messages@) == prompt_views(system)
            + v.conversation + v.appended
    &&& req.tools@ == tools
    &&& req.max_tokens is None
    &&& req.temperature_bits is None
    &&& req.response_format is None
}

/// Content whose blocks hold no tool result, as every completion an
/// accumulator finishes does, gives an assistant message that keeps a run
/// resumable.
pub proof fn law_streamed_content_is_clean(content: Seq<Content>)
    requires
        free_of_results(content_views(content)),
    ensures
        !has_tool_result(content),
{
    if has_tool_result(content) {
        let i = choose|i: int| 0 <= i < content.len() && content[i] is ToolResult;
        assert(content_views(content)[i] is ToolResult);
    }
}

/// Past a leading system message, a conversation asks for the same tool
/// uses.
proof fn lemma_known_ids_skip_system(s: MessageView, msgs: Seq<MessageView>)
    requires
        s.role == Role::System,
    ensures
        known_ids(seq![s] + msgs) == known_ids(msgs),
    decreases msgs.len(),
{
    let all = seq![s] + msgs;
    if msgs.len() == 0 {
        assert(all.drop_last() =~= Seq::<MessageView>::empty());
        assert(known_ids(all) == known_ids(all.drop_last()));
        assert(msgs =~= Seq::<MessageView>::empty());
    } else {
        let pre = msgs.drop_last();
        lemma_known_ids_skip_system(s, pre);
        assert(all.drop_last() =~= seq![s] + pre);
        assert(all.last() == msgs.last());
    }
}

/// A text-only system message at the head keeps a valid conversation
/// without system messages valid.
proof fn lemma_valid_under_system_head(s: MessageView, msgs: Seq<MessageView>)
    requires
        s.role == Role::System,
        text_only(s.content),
        no_system(msgs),
        valid_conversation(msgs),
    ensures
        valid_conversation(seq![s] + msgs),
    decreases msgs.len(),
{
    let all = seq![s] + msgs;
    if msgs.len() == 0 {
        assert(all.drop_last() =~= Seq::<MessageView>::empty());
        assert(first_violation(all.drop_last()) is None);
        assert(all.last() == s);
        assert(!past_head(Seq::<MessageView>::empty()));
    } else {
        let pre = msgs.drop_last();
        assert(msgs.take(msgs.len() - 1) =~= pre);
        if first_violation(pre) is Some {
            lemma_first_violation_extends(msgs, msgs.len() - 1);
        }
        assert(no_system(pre)) by {
            assert forall|i: int| 0 <= i < pre.len() implies #[trigger] pre[i].role
                != Role::System by {
                assert(pre[i] == msgs[i]);
            }
        }
        lemma_valid_under_system_head(s, pre);
        lemma_known_ids_skip_system(s, pre);
        assert((seq![s] + msgs).drop_last() =~= seq![s] + pre);
        assert((seq![s] + msgs).last() == msgs.last());
        assert(msgs.last().role != Role::System) by {
            assert(msgs[msgs.len() - 1].role != Role::System);
        }
    }
}

/// A run between rounds.
pub struct TurnLoop {
    progress: Progress,
}

impl View for TurnLoop {
    type V = RunView;

    closed spec fn view(&self) -> RunView {
        self.progress.run_view()
    }
}

/// What beginning a round leads to.
pub enum RoundStart {
    /// Call the model with this request; hand its reply to the pending
    /// round.
    Call(PendingRound, CompletionRequest),
    /// The run is over.
    Finished(RunRecord),
}

impl TurnLoop {
    #[verifier::type_invariant]
    spec fn inv(self) -> bool {
        sound_run(self.progress.run_view())
    }

    /// The round completed last, if any.
    pub fn last_round(&self) -> (r: Option<&RoundRecord>)
        ensures
            match r {
                Some(round) => self@.rounds.len() > 0 && round@ == self@.rounds.last(),
                None => self@.rounds.len() == 0,
            },
    {
        let n = self.progress.rounds.len();
        if n == 0 {
            None
        } else {
            Some(&self.progress.rounds[n - 1])
        }
    }

    /// Starts a run of `conversation` — the caller's history plus the new
    /// input — under `limits`.
    ///
    /// Before any work begins, the conversation must hold no system message
    /// (the agent's sections are the only system prompt) and must keep the
    /// request rules; otherwise the run fails with
    /// [`RunFailure::InvalidConversation`] naming what was broken.
    pub fn start(conversation: Vec<Message>, limits: Limits) -> (r: Result<TurnLoop, RunFailure>)
        ensures
            if !no_system(views_of(conversation@)) {
                &&& r matches Err(RunFailure::InvalidConversation { reason })
                &&& reason@ == system_refusal()
            } else {
                match first_violation(views_of(conversation@)) {
                    Some(rule) => {
                        &&& r matches Err(RunFailure::InvalidConversation { reason })
                        &&& reason@ == rule_text(rule)
                    },
                    None => {
                        &&& r matches Ok(t)
                        &&& t@ == initial_run(views_of(conversation@), limits)
                    },
                }
            },
    {
        if has_system_message(&conversation) {
            return Err(
                RunFailure::InvalidConversation {
                    reason: owned(
                        "the conversation must not contain system messages — an Agent's sections are the only system prompt",
                    ),
                },
            );
        }
        match validate_messages(&conversation) {
            Err(ProviderFailure::InvalidRequest(reason)) => {
                return Err(RunFailure::InvalidConversation { reason });
            },
            Err(other) => {
                return Err(RunFailure::InvalidConversation { reason: other.describe() });
            },
            Ok(()) => {},
        }
        let ghost conv = views_of(conversation@);
        let progress = Progress {
            conversation,
            appended: Vec::new(),
            rounds: Vec::new(),
            total: Usage { input_tokens: Some(0), output_tokens: Some(0) },
            started: 0,
            limits,
            stall: StallTracker::new(),
        };
        proof {
            let v = progress.run_view();
            assert(v.appended =~= Seq::<MessageView>::empty());
            assert(v.rounds =~= Seq::<RoundView>::empty());
            assert(input_counts(v.rounds) =~= Seq::<Option<u64>>::empty());
            assert(output_counts(v.rounds) =~= Seq::<Option<u64>>::empty());
            assert(v.conversation + v.appended =~= v.conversation);
            assert(v == initial_run(conv, limits));
        }
        Ok(TurnLoop { progress })
    }

    /// Begins the next round, or ends the run.
    ///
    /// A run that has begun as many rounds as its limit allows ends as
    /// [`RunEnding::RoundsExhausted`]; otherwise a run whose cancellation
    /// was requested ends as [`RunEnding::Cancelled`]. Otherwise the round
    /// begins: the system prompt is rendered from `sections`, and the model
    /// is to be called with it, the conversation and everything appended
    /// so far, advertising `tools`.
    pub fn begin_round(self, cancelled: bool, sections: &Vec<SystemSection>, tools: Vec<ToolSpec>) -> (r:
        RoundStart)
        ensures
            if self@.started >= self@.limits.round_limit {
                &&& r matches RoundStart::Finished(rec)
                &&& finished_with(rec, self@, EndingView::RoundsExhausted, None)
                &&& sound_record(rec, self@.conversation, self@.limits)
            } else if cancelled {
                &&& r matches RoundStart::Finished(rec)
                &&& finished_with(rec, self@, EndingView::Cancelled, None)
                &&& sound_record(rec, self@.conversation, self@.limits)
            } else {
                &&& r matches RoundStart::Call(p, req)
                &&& p@ == (RunView { started: (self@.started + 1) as u32, ..self@ })
                &&& request_for(req, self@, sections@, tools@)
                &&& assistants_clean(self@.appended) ==> valid_conversation(views_of(req.messages@))
            },
    {
        proof {
            use_type_invariant(&self);
        }
        let TurnLoop { progress } = self;
        if progress.started >= progress.limits.round_limit {
            return RoundStart::Finished(progress.into_record(RunEnding::RoundsExhausted, None));
        }
        if cancelled {
            return RoundStart::Finished(progress.into_record(RunEnding::Cancelled, None));
        }
        let system = render_system_prompt(sections);
        let ghost sys = system;
        let mut messages: Vec<Message> = Vec::new();
        match system {
            Some(m) => {
                messages.push(m);
            },
            None => {},
        }
        let mut from_conversation = clone_messages(&progress.conversation);
        let mut from_run = clone_messages(&progress.appended);
        let ghost head = views_of(messages@);
        let ghost conv = views_of(from_conversation@);
        let ghost app = views_of(from_run@);
        let ghost m0 = messages@;
        let ghost m1 = from_conversation@;
        let ghost m2 = from_run@;
        messages.append(&mut from_conversation);
        messages.append(&mut from_run);
        let mut progress = progress;
        progress.started = progress.started + 1;
        let request = CompletionRequest {
            messages,
            tools,
            max_tokens: None,
            temperature_bits: None,
            response_format: None,
        };
        proof {
            let v = progress.run_view();
            assert(request.messages@ == m0 + m1 + m2);
            assert(views_of(m0 + m1 + m2) =~= views_of(m0) + views_of(m1) + views_of(m2));
            assert(head =~= prompt_views(sys));
            assert(views_of(request.messages@) == prompt_views(sys) + v.conversation
                + v.appended);
            assert(renders(sys, sections@));
            if assistants_clean(v.appended) {
                assert(valid_conversation(v.conversation + v.appended));
                assert(no_system(v.conversation + v.appended)) by {
                    let all = v.conversation + v.appended;
                    assert forall|i: int| 0 <= i < all.len() implies #[trigger] all[i].role
                        != Role::System by {
                        if i < v.conversation.len() {
                            assert(v.conversation[i].role != Role::System);
                        } else {
                            assert(v.appended[i - v.conversation.len()].role != Role::System);
                        }
                    }
                }
                match sys {
                    Some(m) => {
                        let texts = choose|texts: Seq<String>|
                            {
                                &&& texts.len() == sections@.len()
                                &&& forall|i: int|
                                    0 <= i < sections@.len() ==> #[trigger] rendered_as(
                                        sections@[i],
                                        texts[i],
                                    )
                                &&& is_prompt_for(sys, text_views(texts))
                            };
                        assert(is_prompt_for(sys, text_views(texts)));
                        assert(text_only(m@.content)) by {
                            assert forall|i: int| 0 <= i < m@.content.len() implies m@.content[i] is Text by {
                                assert(i == 0);
                            }
                        }
                        lemma_valid_under_system_head(m@, v.conversation + v.appended);
                        assert(prompt_views(sys) + v.conversation + v.appended =~= seq![m@] + (
                        v.conversation + v.appended));
                    },
                    None => {
                        assert(prompt_views(sys) + v.conversation + v.appended =~= v.conversation
                            + v.appended);
                    },
                }
            }
        }
        RoundStart::Call(PendingRound { progress }, request)
    }
}

/// A run waiting for the model's reply to the round it began.
pub struct PendingRound {
    progress: Progress,
}

impl View for PendingRound {
    type V = RunView;

    closed spec fn view(&self) -> RunView {
        self.progress.run_view()
    }
}

impl PendingRound {
    #[verifier::type_invariant]
    spec fn inv(self) -> bool {
        &&& sound_run(self.progress.run_view())
        &&& self.progress.rounds@.len() < self.progress.started
    }

    /// The model call failed: the run fails, carrying every round it
    /// completed before.
    pub fn fail(self, failure: ProviderFailure) -> (f: RunFailure)
        ensures
            ({
                &&& f matches RunFailure::Provider { source, trace }
                &&& source == failure
                &&& trace@.messages == self@.appended
                &&& trace@.rounds == self@.rounds
                &&& trace@.total_usage == self@.total
            }),
            is_total_usage(self@.total, self@.rounds),
            resumable(self@.conversation, self@.appended),
    {
        proof {
            use_type_invariant(&self);
        }
        let PendingRound { progress } = self;
        RunFailure::Provider {
            source: failure,
            trace: Box::new(
                RunTrace {
                    messages: progress.appended,
                    rounds: progress.rounds,
                    total_usage: progress.total,
                },
            ),
        }
    }
}

/// `content` without its tool-use blocks, in order.
pub open spec fn without_tool_uses(content: Seq<Content>) -> Seq<Content>
    decreases content.len(),
{
    if content.len() == 0 {
        Seq::empty()
    } else {
        let rest = without_tool_uses(content.drop_last());
        match content.last() {
            Content::ToolUse(_) => rest,
            _ => rest.push(content.last()),
        }
    }
}

/// Dropping tool-use blocks adds no tool-result block.
proof fn lemma_without_tool_uses_keeps_clean(content: Seq<Content>)
    requires
        !has_tool_result(content),
    ensures
        !has_tool_result(without_tool_uses(content)),
    decreases content.len(),
{
    if content.len() > 0 {
        let pre = content.drop_last();
        assert(!has_tool_result(pre)) by {
            if has_tool_result(pre) {
                let i = choose|i: int| 0 <= i < pre.len() && pre[i] is ToolResult;
                assert(content[i] == pre[i]);
            }
        }
        lemma_without_tool_uses_keeps_clean(pre);
        assert(!(content.last() is ToolResult)) by {
            assert(content[content.len() - 1] == content.last());
        }
        let kept = without_tool_uses(content);
        let rest = without_tool_uses(pre);
        if has_tool_result(kept) {
            let i = choose|i: int| 0 <= i < kept.len() && kept[i] is ToolResult;
            if i < rest.len() {
                assert(kept[i] == rest[i]);
            }
        }
    }
}

/// A copy of `content` without its tool-use blocks.
fn drop_tool_uses(content: &Vec<Content>) -> (r: Vec<Content>)
    ensures
        r@ == without_tool_uses(content@),
{
    let mut r: Vec<Content> = Vec::new();
    let mut i: usize = 0;
    while i < content.len()
        invariant
            i <= content@.len(),
            r@ == without_tool_uses(content@.take(i as int)),
        decreases content.len() - i,
    {
        assert(content@.take(i + 1).drop_last() =~= content@.take(i as int));
        assert(content@.take(i + 1).last() == content@[i as int]);
        match &content[i] {
            Content::ToolUse(_) => {},
            other => {
                r.push(other.clone());
            },
        }
        i = i + 1;
    }
    assert(content@.take(content.len() as int) =~= content@);
    r
}

/// A reply text, absent when empty.
fn non_empty(text: String) -> (r: Option<String>)
    ensures
        opt_text(r) == non_empty_reply(text@),
{
    if text.as_str().unicode_len() == 0 {
        None
    } else {
        Some(text)
    }
}

/// An owned copy of every tool use.
fn own_tool_uses(uses: &Vec<&ToolUse>) -> (r: Vec<ToolUse>)
    ensures
        r@.len() == uses@.len(),
        forall|i: int| 0 <= i < uses@.len() ==> r@[i] == *#[trigger] uses@[i],
{
    let mut r: Vec<ToolUse> = Vec::new();
    let mut i: usize = 0;
    while i < uses.len()
        invariant
            i <= uses@.len(),
            r@.len() == i,
            forall|k: int| 0 <= k < i ==> r@[k] == *#[trigger] uses@[k],
        decreases uses.len() - i,
    {
        let u: &ToolUse = uses[i];
        r.push(u.clone());
        i = i + 1;
    }
    r
}

/// Appending an assistant message keeps a run free of system messages and
/// resumable.
proof fn lemma_push_assistant(conversation: Seq<MessageView>, appended: Seq<MessageView>, m: MessageView)
    requires
        m.role == Role::Assistant,
        no_system(appended),
        resumable(conversation, appended),
    ensures
        no_system(appended.push(m)),
        resumable(conversation, appended.push(m)),
{
    let next = appended.push(m);
    assert forall|i: int| 0 <= i < next.len() implies #[trigger] next[i].role != Role::System by {
        if i < appended.len() {
            assert(next[i] == appended[i]);
        }
    }
    if assistants_clean(next) {
        assert forall|i: int|
            0 <= i < appended.len() && #[trigger] appended[i].role == Role::Assistant implies !has_tool_result(
            appended[i].content,
        ) by {
            assert(next[i] == appended[i]);
            assert(next[i].role == Role::Assistant);
        }
        assert(next[appended.len() as int] == m);
        assert(!has_tool_result(m.content));
        let x = conversation + appended;
        assert(conversation + next =~= x.push(m));
        assert(x.push(m).drop_last() =~= x);
    }
}

/// `c` is a tool result answering one of `known`.
pub open spec fn answers_known(c: Content, known: Set<Seq<char>>) -> bool {
    match c {
        Content::ToolResult(r) => known.contains(r.tool_use_id@),
        _ => false,
    }
}

/// The result ids of an all-result user message, each asked for before,
/// break no rule.
proof fn lemma_results_known(content: Seq<Content>, known: Set<Seq<char>>)
    requires
        forall|i: int| 0 <= i < content.len() ==> answers_known(#[trigger] content[i], known),
    ensures
        user_violation(content, known) is None,
    decreases content.len(),
{
    if content.len() > 0 {
        let pre = content.drop_last();
        assert forall|i: int| 0 <= i < pre.len() implies answers_known(#[trigger] pre[i], known) by {
            assert(pre[i] == content[i]);
        }
        lemma_results_known(pre, known);
        assert(content.last() == content[content.len() - 1]);
    }
}

/// Every tool use's id is among the ids `content` asks for.
proof fn lemma_tool_use_ids_cover(content: Seq<Content>)
    ensures
        forall|k: int|
            0 <= k < tool_uses_in(content).len() ==> tool_use_ids(content).contains(
                #[trigger] tool_uses_in(content)[k].id@,
            ),
    decreases content.len(),
{
    if content.len() > 0 {
        let pre = content.drop_last();
        lemma_tool_use_ids_cover(pre);
        match content.last() {
            Content::ToolUse(u) => {
                assert forall|k: int| 0 <= k < tool_uses_in(content).len() implies tool_use_ids(
                    content,
                ).contains(#[trigger] tool_uses_in(content)[k].id@) by {
                    if k < tool_uses_in(pre).len() {
                        assert(tool_uses_in(content)[k] == tool_uses_in(pre)[k]);
                    }
                }
            },
            _ => {},
        }
    }
}

/// Every round keeps a run sound.
proof fn lemma_round_sound(v: RunView, m: MessageView, round: RoundView)
    requires
        sound_run(v),
        v.rounds.len() < v.started,
        usage_fits(v.total, round.usage),
        no_system(v.appended.push(m)),
        resumable(v.conversation, v.appended.push(m)),
    ensures
        sound_run(after_round(v, m, round)),
{
    lemma_total_extends(v.total, v.rounds, round);
}

/// The round a completion finishes, before any tool call.
pub open spec fn completed_round(c: CompletionView, latency: Duration) -> RoundView {
    RoundView {
        usage: c.usage,
        stop_reason: c.stop_reason,
        latency,
        tool_calls: Seq::empty(),
    }
}

/// A tool round as a value.
pub struct ToolRoundView {
    /// The run, with the assistant message that asked for the tools
    /// appended.
    pub run: RunView,
    /// The tool uses the model asked for, in order.
    pub tool_uses: Seq<ToolUse>,
    /// The results of the calls made so far, in order.
    pub results: Seq<ToolResult>,
    /// The records of the calls made so far, in order.
    pub calls: Seq<ToolCallRecord>,
    /// The round's usage.
    pub usage: Usage,
    /// The round's stop reason.
    pub stop_reason: StopReason,
    /// How long the round's model call took.
    pub latency: Duration,
}

/// What holds of a tool round at every point.
pub open spec fn sound_tool_round(t: ToolRoundView) -> bool {
    &&& sound_run(t.run)
    &&& t.run.rounds.len() < t.run.started
    &&& usage_fits(t.run.total, t.usage)
    &&& t.results.len() == t.calls.len()
    &&& t.results.len() <= t.tool_uses.len()
    &&& forall|k: int|
        0 <= k < t.results.len() ==> (#[trigger] t.results[k]).tool_use_id@ == t.tool_uses[k].id@
    &&& t.run.appended.len() > 0
    &&& t.run.appended.last().role == Role::Assistant
    &&& tool_uses_in(t.run.appended.last().content) == t.tool_uses
}

/// A run whose model reply asked for tools, dispatching them in order.
pub struct ToolRound {
    progress: Progress,
    tool_uses: Vec<ToolUse>,
    results: Vec<ToolResult>,
    calls: Vec<ToolCallRecord>,
    usage: Usage,
    stop_reason: StopReason,
    latency: Duration,
}

impl View for ToolRound {
    type V = ToolRoundView;

    closed spec fn view(&self) -> ToolRoundView {
        ToolRoundView {
            run: self.progress.run_view(),
            tool_uses: self.tool_uses@,
            results: self.results@,
            calls: self.calls@,
            usage: self.usage,
            stop_reason: self.stop_reason,
            latency: self.latency,
        }
    }
}

impl ToolRound {
    #[verifier::type_invariant]
    spec fn inv(self) -> bool {
        sound_tool_round(self@)
    }
}

/// What the model's reply leads to.
pub enum Reply {
    /// The reply asked for tools: dispatch them.
    Tools(ToolRound),
    /// The run is over.
    Finished(RunRecord),
}

impl PendingRound {
    /// Whether a round with `usage` keeps the run's usage totals within a
    /// `u64`.
    pub fn usage_fits(&self, usage: &Usage) -> (b: bool)
        ensures
            b == usage_fits(self@.total, *usage),
    {
        let fits_input = match (self.progress.total.input_tokens, usage.input_tokens) {
            (Some(t), Some(u)) => t <= u64::MAX - u,
            _ => true,
        };
        let fits_output = match (self.progress.total.output_tokens, usage.output_tokens) {
            (Some(t), Some(u)) => t <= u64::MAX - u,
            _ => true,
        };
        fits_input && fits_output
    }

    /// Hands the model's reply, which took `latency`, to the round.
    ///
    /// A reply cut off at the output-token limit ends the run as
    /// [`RunEnding::Truncated`], keeping the reply without its tool-use
    /// blocks. A reply that asks for no tool ends it as
    /// [`RunEnding::Completed`]. Either way the reply's text, when not
    /// empty, is the run's reply. A reply that asks for tools is appended
    /// and its tool calls are to be dispatched.
    pub fn complete(self, completion: Completion, latency: Duration) -> (r: Reply)
        requires
            usage_fits(self@.total, completion.usage),
        ensures
            if completion@.stop_reason == StopReason::MaxTokens {
                let kept = without_tool_uses(completion@.content);
                &&& r matches Reply::Finished(rec)
                &&& finished_with(
                    rec,
                    after_round(
                        self@,
                        MessageView { role: Role::Assistant, content: kept },
                        completed_round(completion@, latency),
                    ),
                    EndingView::Truncated,
                    non_empty_reply(rendered_text(kept)),
                )
                &&& sound_record(rec, self@.conversation, self@.limits)
                &&& !has_tool_result(completion@.content) ==> !has_tool_result(kept)
            } else if !has_tool_use(completion@.content) {
                &&& r matches Reply::Finished(rec)
                &&& finished_with(
                    rec,
                    after_round(
                        self@,
                        MessageView { role: Role::Assistant, content: completion@.content },
                        completed_round(completion@, latency),
                    ),
                    EndingView::Completed,
                    non_empty_reply(rendered_text(completion@.content)),
                )
                &&& sound_record(rec, self@.conversation, self@.limits)
            } else {
                &&& r matches Reply::Tools(t)
                &&& t@ == ToolRoundView {
                    run: RunView {
                        appended: self@.appended.push(
                            MessageView { role: Role::Assistant, content: completion@.content },
                        ),
                        ..self@
                    },
                    tool_uses: tool_uses_in(completion@.content),
                    results: Seq::empty(),
                    calls: Seq::empty(),
                    usage: completion@.usage,
                    stop_reason: completion@.stop_reason,
                    latency,
                }
            },
    {
        proof {
            use_type_invariant(&self);
        }
        let ghost c = completion@;
        let PendingRound { progress } = self;
        let mut progress = progress;
        let ghost v = progress.run_view();
        let Completion { content, usage, stop_reason, .. } = completion;
        if stop_reason == StopReason::MaxTokens {
            let kept = drop_tool_uses(&content);
            let message = Message { role: Role::Assistant, content: kept };
            let reply = non_empty(message.text_content());
            let round = RoundRecord { usage, stop_reason, latency, tool_calls: Vec::new() };
            let ghost m = message@;
            let ghost rv = round@;
            assert(rv == completed_round(c, latency));
            proof {
                lemma_push_assistant(v.conversation, v.appended, m);
                lemma_round_sound(v, m, rv);
                if !has_tool_result(c.content) {
                    lemma_without_tool_uses_keeps_clean(c.content);
                }
            }
            progress.push_round(round, message);
            return Reply::Finished(progress.into_record(RunEnding::Truncated, reply));
        }
        let message = Message { role: Role::Assistant, content };
        if !message.requests_tools() {
            let reply = non_empty(message.text_content());
            let round = RoundRecord { usage, stop_reason, latency, tool_calls: Vec::new() };
            let ghost m = message@;
            let ghost rv = round@;
            assert(rv == completed_round(c, latency));
            proof {
                lemma_push_assistant(v.conversation, v.appended, m);
                lemma_round_sound(v, m, rv);
            }
            progress.push_round(round, message);
            return Reply::Finished(progress.into_record(RunEnding::Completed, reply));
        }
        let uses = message.tool_uses();
        let tool_uses = own_tool_uses(&uses);
        assert forall|i: int| 0 <= i < tool_uses@.len() implies tool_uses@[i] == tool_uses_in(
            message.content@,
        )[i] by {
            assert(tool_uses@[i] == *uses@[i]);
        }
        assert(tool_uses@ =~= tool_uses_in(message.content@));
        let ghost m = message@;
        let ghost before = progress.appended@;
        progress.appended.push(message);
        proof {
            assert(views_of(progress.appended@) =~= views_of(before).push(m));
            lemma_push_assistant(v.conversation, v.appended, m);
        }
        let t = ToolRound {
            progress,
            tool_uses,
            results: Vec::new(),
            calls: Vec::new(),
            usage,
            stop_reason,
            latency,
        };
        Reply::Tools(t)
    }
}

/// A tool call handed out for dispatch; its outcome finishes it.
pub struct ToolCall {
    round: ToolRound,
}

impl View for ToolCall {
    type V = ToolRoundView;

    closed spec fn view(&self) -> ToolRoundView {
        self.round@
    }
}

/// A tool round whose calls are over: all made, or cut short by
/// cancellation.
pub struct RoundOver {
    round: ToolRound,
    cancelled: bool,
}

/// A finished tool round as a value.
pub struct RoundOverView {
    /// The round as it stood when its calls ended.
    pub round: ToolRoundView,
    /// Whether cancellation cut its calls short.
    pub cancelled: bool,
}

impl View for RoundOver {
    type V = RoundOverView;

    closed spec fn view(&self) -> RoundOverView {
        RoundOverView { round: self.round@, cancelled: self.cancelled }
    }
}

/// What a tool round does next.
pub enum ToolStep {
    /// Dispatch this tool use; hand its outcome to the call.
    Dispatch(ToolCall, ToolUse),
    /// The round's calls are over.
    Over(RoundOver),
}

impl ToolRound {
    /// Hands out the next tool call, or ends the round's calls: when every
    /// requested call was made, or, before the next one, when cancellation
    /// was requested.
    pub fn next_tool(self, cancelled: bool) -> (r: ToolStep)
        ensures
            if self@.results.len() == self@.tool_uses.len() {
                &&& r matches ToolStep::Over(o)
                &&& o@ == (RoundOverView { round: self@, cancelled: false })
            } else if cancelled {
                &&& r matches ToolStep::Over(o)
                &&& o@ == (RoundOverView { round: self@, cancelled: true })
            } else {
                &&& r matches ToolStep::Dispatch(call, u)
                &&& call@ == self@
                &&& u == self@.tool_uses[self@.results.len() as int]
            },
    {
        proof {
            use_type_invariant(&self);
        }
        if self.results.len() == self.tool_uses.len() {
            return ToolStep::Over(RoundOver { round: self, cancelled: false });
        }
        if cancelled {
            return ToolStep::Over(RoundOver { round: self, cancelled: true });
        }
        let u = self.tool_uses[self.results.len()].clone();
        ToolStep::Dispatch(ToolCall { round: self }, u)
    }
}

/// `result` is what a call of `u` that ended in `outcome` tells the model.
pub open spec fn result_of_call(
    result: ToolResult,
    u: ToolUse,
    outcome: Result<String, ToolFailure>,
) -> bool {
    &&& result.tool_use_id@ == u.id@
    &&& match outcome {
        Ok(content) => result.content@ == content@ && !result.is_error,
        Err(failure) => result.content@ == tool_failure_text(failure) && result.is_error,
    }
}

/// What a call of `tool_use` that ended in `outcome` tells the model, and
/// whether the call failed: its output as an ordinary result, or its
/// failure's message as a result flagged as an error — a failing tool is a
/// result the model reads, never the end of the run.
pub fn tool_outcome_to_result(tool_use: &ToolUse, outcome: Result<String, ToolFailure>) -> (r: (
    ToolResult,
    bool,
))
    ensures
        result_of_call(r.0, *tool_use, outcome),
        r.1 == outcome is Err,
{
    match outcome {
        Ok(content) => (
            ToolResult { tool_use_id: tool_use.id.clone(), content, is_error: false },
            false,
        ),
        Err(failure) => (failure.into_result(tool_use.id.as_str()), true),
    }
}

/// `record` is the record of a call of `u` that ended in `outcome` after
/// `latency`.
pub open spec fn record_of_call(
    record: ToolCallRecord,
    u: ToolUse,
    outcome: Result<String, ToolFailure>,
    latency: Duration,
) -> bool {
    &&& record.name@ == u.name@
    &&& record.arguments@ == u.input@
    &&& record.failed == outcome is Err
    &&& record.latency == latency
}

/// The streak after dispatching a call of `name` with `arguments`.
pub open spec fn next_streak(
    last: Option<(Seq<char>, Seq<char>)>,
    streak: u32,
    name: Seq<char>,
    arguments: Seq<char>,
) -> u32 {
    if repeats_call(last, name, arguments) {
        (streak + 1) as u32
    } else {
        1
    }
}

impl ToolCall {
    #[verifier::type_invariant]
    spec fn inv(self) -> bool {
        self.round@.results.len() < self.round@.tool_uses.len()
    }

    /// How many times in a row the last dispatched call repeated.
    pub fn streak(&self) -> (n: u32)
        ensures
            n == self@.run.streak,
    {
        self.round.progress.stall.streak()
    }

    /// Finishes the call with its outcome, which took `latency`.
    ///
    /// A failure becomes a result flagged as an error, carrying the
    /// failure's message for the model to read. Returns the round and the
    /// call's record.
    pub fn finish(self, outcome: Result<String, ToolFailure>, latency: Duration) -> (r: (
        ToolRound,
        ToolCallRecord,
    ))
        requires
            self@.run.streak < u32::MAX,
        ensures
            ({
                let t = self@;
                let n = t.results.len() as int;
                let u = t.tool_uses[n];
                &&& n < t.tool_uses.len()
                &&& record_of_call(r.1, u, outcome, latency)
                &&& r.0@.results.len() == n + 1
                &&& r.0@.results.take(n) == t.results
                &&& result_of_call(r.0@.results[n], u, outcome)
                &&& r.0@.calls == t.calls.push(r.1)
                &&& r.0@.run == RunView {
                    stall_last: Some((u.name@, u.input@)),
                    streak: next_streak(t.run.stall_last, t.run.streak, u.name@, u.input@),
                    ..t.run
                }
                &&& r.0@.tool_uses == t.tool_uses
                &&& r.0@.usage == t.usage
                &&& r.0@.stop_reason == t.stop_reason
                &&& r.0@.latency == t.latency
            }),
    {
        proof {
            use_type_invariant(&self);
            use_type_invariant(&self.round);
        }
        let ghost t = self@;
        let ToolCall { round } = self;
        let ToolRound { progress, tool_uses, results, calls, usage, stop_reason, latency: round_latency } =
            round;
        let mut progress = progress;
        let mut results = results;
        let mut calls = calls;
        let n = results.len();
        let name = tool_uses[n].name.clone();
        let input = tool_uses[n].input.clone();
        let (result, failed) = tool_outcome_to_result(&tool_uses[n], outcome);
        progress.stall.record(&name, &input);
        let record = ToolCallRecord { name, arguments: input, failed, latency };
        let copy = record.clone();
        let ghost before = results@;
        results.push(result);
        calls.push(record);
        assert(results@.take(n as int) =~= before);
        let next = ToolRound {
            progress,
            tool_uses,
            results,
            calls,
            usage,
            stop_reason,
            latency: round_latency,
        };
        (next, copy)
    }
}

/// The content of a user message carrying `results`, in order.
pub open spec fn results_content(results: Seq<ToolResult>) -> Seq<Content> {
    results.map_values(|r: ToolResult| Content::ToolResult(r))
}

/// The round a finished tool round records.
pub open spec fn tool_round_record(t: ToolRoundView) -> RoundView {
    RoundView { usage: t.usage, stop_reason: t.stop_reason, latency: t.latency, tool_calls: t.calls }
}

/// The run once a tool round's results are appended and its round
/// recorded.
pub open spec fn after_tool_round(t: ToolRoundView) -> RunView {
    after_round(
        t.run,
        MessageView { role: Role::User, content: results_content(t.results) },
        tool_round_record(t),
    )
}

/// The name of the last call dispatched.
pub open spec fn stalled_name(last: Option<(Seq<char>, Seq<char>)>) -> Seq<char> {
    match last {
        Some((name, _)) => name,
        None => Seq::empty(),
    }
}

/// What a finished tool round leads to.
pub enum RoundEnd {
    /// Begin the next round.
    Continue(TurnLoop),
    /// The run is over.
    Finished(RunRecord),
}

impl RoundOver {
    /// Appends the round's tool results and records the round, then decides
    /// whether the run goes on, checking in this order: a round cut short
    /// by cancellation ends the run as [`RunEnding::Cancelled`]; a stop
    /// request recorded in `context` is taken and ends it as
    /// [`RunEnding::StopRequested`], its reply the run's reply; a streak of
    /// identical calls that reached the stall threshold ends it as
    /// [`RunEnding::Stalled`].
    pub fn end(self, context: &mut ToolContext) -> (r: RoundEnd)
        ensures
            final(context).token() == old(context).token(),
            ({
                let t = self@.round;
                let v = t.run;
                let next = after_tool_round(t);
                if self@.cancelled {
                    &&& r matches RoundEnd::Finished(rec)
                    &&& finished_with(rec, next, EndingView::Cancelled, None)
                    &&& sound_record(rec, v.conversation, v.limits)
                    &&& final(context).pending_stop() == old(context).pending_stop()
                } else {
                    &&& final(context).pending_stop() is None
                    &&& match old(context).pending_stop() {
                        Some((reply, reason)) => {
                            &&& r matches RoundEnd::Finished(rec)
                            &&& finished_with(
                                rec,
                                next,
                                EndingView::StopRequested(reply, reason),
                                Some(reply),
                            )
                            &&& sound_record(rec, v.conversation, v.limits)
                        },
                        None => if v.streak >= v.limits.stall_threshold && v.stall_last is Some {
                            &&& r matches RoundEnd::Finished(rec)
                            &&& finished_with(
                                rec,
                                next,
                                EndingView::Stalled(stalled_name(v.stall_last), v.streak),
                                None,
                            )
                            &&& sound_record(rec, v.conversation, v.limits)
                        } else {
                            &&& r matches RoundEnd::Continue(l)
                            &&& l@ == next
                        },
                    }
                }
            }),
    {
        proof {
            use_type_invariant(&self.round);
        }
        let ghost t = self@.round;
        let RoundOver { round, cancelled } = self;
        let ToolRound { progress, tool_uses, results, calls, usage, stop_reason, latency } = round;
        let mut progress = progress;
        let ghost v = progress.run_view();
        let ghost rs = results@;
        let message = Message::tool_results(results);
        let record = RoundRecord { usage, stop_reason, latency, tool_calls: calls };
        let ghost m = message@;
        proof {
            assert(m.content =~= results_content(rs));
            assert(record@ == tool_round_record(t));
            let x = v.conversation + v.appended;
            let last = v.appended.last();
            assert(x.last() == last);
            lemma_tool_use_ids_cover(last.content);
            let known = known_ids(x);
            assert(x.drop_last() + seq![last] =~= x);
            assert(x.len() > 0);
            assert(tool_use_ids(last.content).subset_of(known));
            assert forall|i: int| 0 <= i < m.content.len() implies answers_known(
                #[trigger] m.content[i],
                known,
            ) by {
                assert(m.content[i] == Content::ToolResult(rs[i]));
                assert(rs[i].tool_use_id@ == tool_uses@[i].id@);
                assert(tool_uses_in(last.content)[i] == tool_uses@[i]);
            }
            lemma_results_known(m.content, known);
            let next = v.appended.push(m);
            assert forall|i: int| 0 <= i < next.len() implies #[trigger] next[i].role
                != Role::System by {
                if i < v.appended.len() {
                    assert(next[i] == v.appended[i]);
                }
            }
            if assistants_clean(next) {
                assert forall|i: int|
                    0 <= i < v.appended.len() && #[trigger] v.appended[i].role
                        == Role::Assistant implies !has_tool_result(v.appended[i].content) by {
                    assert(next[i] == v.appended[i]);
                }
                assert(v.conversation + next =~= x.push(m));
                assert(x.push(m).drop_last() =~= x);
            }
            lemma_round_sound(v, m, record@);
        }
        progress.push_round(record, message);
        if cancelled {
            return RoundEnd::Finished(progress.into_record(RunEnding::Cancelled, None));
        }
        match context.take_stop_request() {
            Some(stop) => {
                let reply = stop.reply.clone();
                return RoundEnd::Finished(
                    progress.into_record(RunEnding::StopRequested(stop), Some(reply)),
                );
            },
            None => {},
        }
        match progress.stall.tripped(progress.limits.stall_threshold) {
            Some((tool, count)) => RoundEnd::Finished(
                progress.into_record(RunEnding::Stalled { tool, count }, None),
            ),
            None => RoundEnd::Continue(TurnLoop { progress }),
        }
    }
}

} // verus!
