//! What a model call returns: streamed events, usage, stop reasons, and the
//! whole [`Completion`] they fold into.

use vstd::prelude::*;

use crate::message::Content;

verus! {

/// Token usage for a completion.
///
/// Every field is independently optional: a provider that never reports a
/// count leaves it `None` — unknown, never a silent zero.
#[derive(Debug, Clone, Copy, PartialEq, Eq, Structural)]
pub struct Usage {
    /// Tokens in the request the model read.
    pub input_tokens: Option<u64>,
    /// Tokens the model generated.
    pub output_tokens: Option<u64>,
}

/// `update`'s field when it reports one, else `earlier`'s.
pub open spec fn later_or(update: Option<u64>, earlier: Option<u64>) -> Option<u64> {
    match update {
        Some(v) => Some(v),
        None => earlier,
    }
}

/// The field-by-field merge of `update` over `base`.
pub open spec fn merged(base: Usage, update: Usage) -> Usage {
    Usage {
        input_tokens: later_or(update.input_tokens, base.input_tokens),
        output_tokens: later_or(update.output_tokens, base.output_tokens),
    }
}

impl Usage {
    /// Usage with every field unknown.
    pub open spec fn unknown() -> Usage {
        Usage { input_tokens: None, output_tokens: None }
    }

    /// Merge `update` over `self`, field by field: a field `update` reports
    /// (`Some`) replaces `self`'s; a field it leaves unset keeps `self`'s.
    pub fn merge(self, update: Self) -> (r: Self)
        ensures
            r == merged(self, update),
            update.input_tokens is Some ==> r.input_tokens == update.input_tokens,
            update.input_tokens is None ==> r.input_tokens == self.input_tokens,
            update.output_tokens is Some ==> r.output_tokens == update.output_tokens,
            update.output_tokens is None ==> r.output_tokens == self.output_tokens,
    {
        Usage {
            input_tokens: match update.input_tokens {
                Some(v) => Some(v),
                None => self.input_tokens,
            },
            output_tokens: match update.output_tokens {
                Some(v) => Some(v),
                None => self.output_tokens,
            },
        }
    }
}

impl Default for Usage {
    /// Usage with every field unknown.
    fn default() -> (r: Self)
        ensures
            r == Usage::unknown(),
    {
        Usage { input_tokens: None, output_tokens: None }
    }
}

/// A later report wins: every count `update` reports replaces `base`'s,
/// whatever `base` held, and every count it leaves unreported keeps
/// `base`'s.
pub proof fn law_merge_takes_reported_counts(base: Usage, update: Usage)
    ensures
        update.input_tokens is Some ==> merged(base, update).input_tokens == update.input_tokens,
        update.output_tokens is Some ==> merged(base, update).output_tokens
            == update.output_tokens,
        update.input_tokens is None ==> merged(base, update).input_tokens == base.input_tokens,
        update.output_tokens is None ==> merged(base, update).output_tokens == base.output_tokens,
{
}

/// Merging in "nothing known" changes nothing, from either side.
pub proof fn law_merge_unknown_is_identity(u: Usage)
    ensures
        merged(u, Usage::unknown()) == u,
        merged(Usage::unknown(), u) == u,
{
}

/// Usage events fold the same however they are grouped: merging `b` then
/// `c` over `a` equals merging `c`-over-`b` over `a`.
pub proof fn law_merge_associative(a: Usage, b: Usage, c: Usage)
    ensures
        merged(merged(a, b), c) == merged(a, merged(b, c)),
{
}

/// Why a completion stopped, classified into a small closed set.
#[derive(Debug, Clone, Copy, PartialEq, Eq, Structural)]
pub enum StopReason {
    /// The model finished its reply without requesting a tool.
    EndOfTurn,
    /// The model's reply requests at least one tool.
    ToolUse,
    /// The model hit its output-token limit before finishing.
    MaxTokens,
    /// A stop reason this crate does not classify further; the raw string
    /// carries the detail.
    Other,
}

/// One step of a streamed completion, in provider-neutral terms.
#[derive(Debug, PartialEq)]
pub enum CompletionEvent {
    /// A fragment of text, appended to the current text block.
    TextDelta(String),
    /// A fragment of reasoning, appended to the current reasoning block.
    ReasoningDelta(String),
    /// A fragment of the signature over the current reasoning block.
    ReasoningSignatureDelta(String),
    /// The start of a tool call: its id and the tool's name.
    ToolUseStart {
        /// The provider-assigned id, echoed on `ToolUseArgumentsDelta`.
        id: String,
        /// The tool's registered name.
        name: String,
    },
    /// A fragment of one tool call's JSON arguments.
    ToolUseArgumentsDelta {
        /// Which tool call this fragment belongs to.
        id: String,
        /// The next slice of the arguments' JSON text.
        fragment: String,
    },
    /// Usage the provider reported.
    Usage(Usage),
    /// The stream's terminal event.
    Finished {
        /// The stop reason, classified.
        stop_reason: StopReason,
        /// The provider's own stop-reason string, unclassified.
        raw_stop_reason: String,
        /// The model identifier the provider reports for this completion.
        model: String,
    },
}

impl Clone for CompletionEvent {
    fn clone(&self) -> (r: Self)
        ensures
            r == *self,
    {
        match self {
            CompletionEvent::TextDelta(t) => CompletionEvent::TextDelta(t.clone()),
            CompletionEvent::ReasoningDelta(t) => CompletionEvent::ReasoningDelta(t.clone()),
            CompletionEvent::ReasoningSignatureDelta(t) => CompletionEvent::ReasoningSignatureDelta(
                t.clone(),
            ),
            CompletionEvent::ToolUseStart { id, name } => CompletionEvent::ToolUseStart {
                id: id.clone(),
                name: name.clone(),
            },
            CompletionEvent::ToolUseArgumentsDelta { id, fragment } =>
                CompletionEvent::ToolUseArgumentsDelta { id: id.clone(), fragment: fragment.clone() },
            CompletionEvent::Usage(u) => CompletionEvent::Usage(*u),
            CompletionEvent::Finished { stop_reason, raw_stop_reason, model } =>
                CompletionEvent::Finished {
                stop_reason: *stop_reason,
                raw_stop_reason: raw_stop_reason.clone(),
                model: model.clone(),
            },
        }
    }
}

/// A whole completion, assembled from a stream by
/// [`crate::accumulator::CompletionAccumulator`].
#[derive(Debug, PartialEq)]
pub struct Completion {
    /// The assistant's reply, as content blocks in stream order.
    pub content: Vec<Content>,
    /// Usage reported for this completion.
    pub usage: Usage,
    /// The stop reason, classified.
    pub stop_reason: StopReason,
    /// The provider's own stop-reason string, unclassified.
    pub raw_stop_reason: String,
    /// The model identifier the provider reported.
    pub model: String,
}

/// A completion as a value.
pub struct CompletionView {
    pub content: Seq<Content>,
    pub usage: Usage,
    pub stop_reason: StopReason,
    pub raw_stop_reason: Seq<char>,
    pub model: Seq<char>,
}

impl View for Completion {
    type V = CompletionView;

    open spec fn view(&self) -> CompletionView {
        CompletionView {
            content: self.content@,
            usage: self.usage,
            stop_reason: self.stop_reason,
            raw_stop_reason: self.raw_stop_reason@,
            model: self.model@,
        }
    }
}

impl Clone for Completion {
    fn clone(&self) -> (r: Self)
        ensures
            r@ == self@,
    {
        Completion {
            content: crate::message::clone_contents(&self.content),
            usage: self.usage,
            stop_reason: self.stop_reason,
            raw_stop_reason: self.raw_stop_reason.clone(),
            model: self.model.clone(),
        }
    }
}

} // verus!
