//! Replaying a whole completion as the stream of events a provider would
//! have sent for it — what a scripted provider serves in place of a network.

use vstd::prelude::*;

use crate::completion::{Completion, CompletionEvent};
use crate::message::Content;

verus! {

/// The events one block replays as: a text or reasoning block as one delta
/// (a reasoning block's signature is not replayed), a tool call as its
/// start and its whole argument text, and a tool result as nothing.
pub open spec fn block_events(block: Content) -> Seq<CompletionEvent> {
    match block {
        Content::Text(text) => seq![CompletionEvent::TextDelta(text)],
        Content::Reasoning { text, .. } => seq![CompletionEvent::ReasoningDelta(text)],
        Content::ToolUse(u) => seq![
            CompletionEvent::ToolUseStart { id: u.id, name: u.name },
            CompletionEvent::ToolUseArgumentsDelta { id: u.id, fragment: u.input },
        ],
        Content::ToolResult(_) => Seq::empty(),
    }
}

/// The events every block of `content` replays as, in order.
pub open spec fn content_events(content: Seq<Content>) -> Seq<CompletionEvent>
    decreases content.len(),
{
    if content.len() == 0 {
        Seq::empty()
    } else {
        content_events(content.drop_last()) + block_events(content.last())
    }
}

/// The events one block replays as.
fn events_for_block(block: &Content) -> (r: Vec<CompletionEvent>)
    ensures
        r@ == block_events(*block),
{
    let mut r: Vec<CompletionEvent> = Vec::new();
    match block {
        Content::Text(text) => {
            r.push(CompletionEvent::TextDelta(text.clone()));
        },
        Content::Reasoning { text, .. } => {
            r.push(CompletionEvent::ReasoningDelta(text.clone()));
        },
        Content::ToolUse(u) => {
            r.push(CompletionEvent::ToolUseStart { id: u.id.clone(), name: u.name.clone() });
            r.push(
                CompletionEvent::ToolUseArgumentsDelta { id: u.id.clone(), fragment: u.input.clone() },
            );
        },
        Content::ToolResult(_) => {},
    }
    assert(r@ =~= block_events(*block));
    r
}

/// The events `completion` replays as: every block's, then its usage when
/// any count is known, then the finishing event carrying its stop reason
/// and model.
pub fn events_for(completion: Completion) -> (r: Vec<CompletionEvent>)
    ensures
        r@ == content_events(completion.content@) + (if completion.usage.input_tokens is Some
            || completion.usage.output_tokens is Some {
            seq![CompletionEvent::Usage(completion.usage)]
        } else {
            Seq::empty()
        }) + seq![
            CompletionEvent::Finished {
                stop_reason: completion.stop_reason,
                raw_stop_reason: completion.raw_stop_reason,
                model: completion.model,
            },
        ],
{
    let ghost content = completion.content@;
    let Completion { content: blocks, usage, stop_reason, raw_stop_reason, model } = completion;
    let mut events: Vec<CompletionEvent> = Vec::new();
    let mut i: usize = 0;
    while i < blocks.len()
        invariant
            i <= blocks@.len(),
            content == blocks@,
            events@ == content_events(content.take(i as int)),
        decreases blocks.len() - i,
    {
        assert(content.take(i + 1).drop_last() =~= content.take(i as int));
        let mut more = events_for_block(&blocks[i]);
        events.append(&mut more);
        i = i + 1;
    }
    assert(content.take(blocks.len() as int) =~= content);
    let ghost before_usage = events@;
    if usage.input_tokens.is_some() || usage.output_tokens.is_some() {
        events.push(CompletionEvent::Usage(usage));
    }
    events.push(CompletionEvent::Finished { stop_reason, raw_stop_reason, model });
    events
}

} // verus!
