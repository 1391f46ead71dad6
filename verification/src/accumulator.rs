//! Folding a [`CompletionEvent`] stream into a whole [`Completion`].

use vstd::prelude::*;

use crate::completion::{Completion, CompletionEvent, StopReason, Usage, merged};
use crate::failure::{ProviderFailure, transport_failure};
use crate::json::{json_parse, parse_json};
use crate::message::{Content, ContentView, ToolUse, content_view, content_views};
use crate::text::owned;

verus! {

/// An accumulator as a value: the blocks so far, each tool call's argument
/// text so far (by id, in first-seen order), the merged usage, and the
/// finishing event's stop reason, raw stop reason and model, once seen.
pub struct AccumulatorView {
    pub blocks: Seq<ContentView>,
    pub arguments: Seq<(Seq<char>, Seq<char>)>,
    pub usage: Usage,
    pub finished: Option<(StopReason, Seq<char>, Seq<char>)>,
}

/// The first position of `key` among the keys of `list`.
pub open spec fn key_index(list: Seq<(Seq<char>, Seq<char>)>, key: Seq<char>) -> Option<int>
    decreases list.len(),
{
    if list.len() == 0 {
        None
    } else if list[0].0 == key {
        Some(0)
    } else {
        match key_index(list.drop_first(), key) {
            Some(i) => Some(i + 1),
            None => None,
        }
    }
}

/// `list` with `fragment` appended to `key`'s text, adding the key if new.
pub open spec fn add_fragment(
    list: Seq<(Seq<char>, Seq<char>)>,
    key: Seq<char>,
    fragment: Seq<char>,
) -> Seq<(Seq<char>, Seq<char>)> {
    match key_index(list, key) {
        Some(i) => list.update(i, (key, list[i].1 + fragment)),
        None => list.push((key, fragment)),
    }
}

/// `list` with `key` present, holding empty text if it was new.
pub open spec fn ensure_key(list: Seq<(Seq<char>, Seq<char>)>, key: Seq<char>) -> Seq<
    (Seq<char>, Seq<char>),
> {
    match key_index(list, key) {
        Some(_) => list,
        None => list.push((key, Seq::empty())),
    }
}

/// The text held for `key` (empty if absent), and `list` without it.
pub open spec fn take_arguments(list: Seq<(Seq<char>, Seq<char>)>, key: Seq<char>) -> (
    Seq<char>,
    Seq<(Seq<char>, Seq<char>)>,
) {
    match key_index(list, key) {
        Some(i) => (list[i].1, list.remove(i)),
        None => (Seq::empty(), list),
    }
}

/// The placeholder a tool call's input holds until its arguments are read.
pub open spec fn pending_input() -> Seq<char> {
    "null"@
}

/// The blocks after a text fragment: it extends a trailing text block, or
/// starts a new one.
pub open spec fn with_text(blocks: Seq<ContentView>, t: Seq<char>) -> Seq<ContentView> {
    if blocks.len() > 0 && blocks.last() is Text {
        blocks.update(blocks.len() - 1, ContentView::Text(blocks.last()->Text_0 + t))
    } else {
        blocks.push(ContentView::Text(t))
    }
}

/// The blocks after a reasoning fragment: it extends a trailing reasoning
/// block, or starts a new unsigned one.
pub open spec fn with_reasoning(blocks: Seq<ContentView>, t: Seq<char>) -> Seq<ContentView> {
    if blocks.len() > 0 && blocks.last() is Reasoning {
        blocks.update(
            blocks.len() - 1,
            ContentView::Reasoning {
                text: blocks.last()->Reasoning_text + t,
                signature: blocks.last()->Reasoning_signature,
            },
        )
    } else {
        blocks.push(ContentView::Reasoning { text: t, signature: None })
    }
}

/// The blocks after a signature fragment: it extends the signature of a
/// trailing reasoning block; with none, it is dropped.
pub open spec fn with_signature(blocks: Seq<ContentView>, s: Seq<char>) -> Seq<ContentView> {
    if blocks.len() > 0 && blocks.last() is Reasoning {
        blocks.update(
            blocks.len() - 1,
            ContentView::Reasoning {
                text: blocks.last()->Reasoning_text,
                signature: Some(
                    match blocks.last()->Reasoning_signature {
                        Some(existing) => existing + s,
                        None => s,
                    },
                ),
            },
        )
    } else {
        blocks
    }
}

/// The accumulator after folding in `event`.
pub open spec fn after_event(a: AccumulatorView, event: CompletionEvent) -> AccumulatorView {
    match event {
        CompletionEvent::TextDelta(t) => AccumulatorView { blocks: with_text(a.blocks, t@), ..a },
        CompletionEvent::ReasoningDelta(t) => AccumulatorView {
            blocks: with_reasoning(a.blocks, t@),
            ..a
        },
        CompletionEvent::ReasoningSignatureDelta(s) => AccumulatorView {
            blocks: with_signature(a.blocks, s@),
            ..a
        },
        CompletionEvent::ToolUseStart { id, name } => AccumulatorView {
            blocks: a.blocks.push(
                ContentView::ToolUse { id: id@, name: name@, input: pending_input() },
            ),
            arguments: ensure_key(a.arguments, id@),
            ..a
        },
        CompletionEvent::ToolUseArgumentsDelta { id, fragment } => AccumulatorView {
            arguments: add_fragment(a.arguments, id@, fragment@),
            ..a
        },
        CompletionEvent::Usage(u) => AccumulatorView { usage: merged(a.usage, u), ..a },
        CompletionEvent::Finished { stop_reason, raw_stop_reason, model } => AccumulatorView {
            finished: Some((stop_reason, raw_stop_reason@, model@)),
            ..a
        },
    }
}

/// An accumulator with nothing folded in.
pub open spec fn empty_accumulator() -> AccumulatorView {
    AccumulatorView {
        blocks: Seq::empty(),
        arguments: Seq::empty(),
        usage: Usage::unknown(),
        finished: None,
    }
}

/// The accumulator after folding in every event of `events`, in order.
pub open spec fn fold_events(events: Seq<CompletionEvent>) -> AccumulatorView
    decreases events.len(),
{
    if events.len() == 0 {
        empty_accumulator()
    } else {
        after_event(fold_events(events.drop_last()), events.last())
    }
}

/// The provider named on a tool call whose arguments could not be read.
pub open spec fn undecodable_call(model: Seq<char>, name: Seq<char>) -> Seq<char> {
    model + "'s `"@ + name + "` tool call"@
}

/// Reads every tool call's argument text, front to back: a call's input
/// becomes the parsed JSON value's text. A call whose text does not parse
/// is dropped under [`StopReason::MaxTokens`], and is otherwise the error:
/// (the provider to name, the parser's message).
pub open spec fn resolve(
    blocks: Seq<ContentView>,
    arguments: Seq<(Seq<char>, Seq<char>)>,
    stop_reason: StopReason,
    model: Seq<char>,
) -> Result<Seq<ContentView>, (Seq<char>, Seq<char>)>
    decreases blocks.len(),
{
    if blocks.len() == 0 {
        Ok(Seq::empty())
    } else {
        let rest = blocks.drop_first();
        match blocks[0] {
            ContentView::ToolUse { id, name, input } => {
                let (raw, remaining) = take_arguments(arguments, id);
                match json_parse(raw) {
                    Ok(value) => match resolve(rest, remaining, stop_reason, model) {
                        Ok(tail) => Ok(
                            seq![ContentView::ToolUse { id, name, input: value }] + tail,
                        ),
                        Err(e) => Err(e),
                    },
                    Err(message) => if stop_reason == StopReason::MaxTokens {
                        resolve(rest, remaining, stop_reason, model)
                    } else {
                        Err((undecodable_call(model, name), message))
                    },
                }
            },
            other => match resolve(rest, arguments, stop_reason, model) {
                Ok(tail) => Ok(seq![other] + tail),
                Err(e) => Err(e),
            },
        }
    }
}

/// No block of `blocks` is a tool result.
pub open spec fn free_of_results(blocks: Seq<ContentView>) -> bool {
    forall|i: int| 0 <= i < blocks.len() ==> !(#[trigger] blocks[i] is ToolResult)
}

/// Folding in one event adds no tool-result block.
proof fn lemma_event_keeps_free(a: AccumulatorView, event: CompletionEvent)
    requires
        free_of_results(a.blocks),
    ensures
        free_of_results(after_event(a, event).blocks),
{
    let b = after_event(a, event).blocks;
    assert forall|i: int| 0 <= i < b.len() implies !(#[trigger] b[i] is ToolResult) by {
        if i < a.blocks.len() {
            assert(!(a.blocks[i] is ToolResult));
        }
    }
}

/// Reading the tool calls' arguments adds no tool-result block.
proof fn lemma_resolve_keeps_free(
    blocks: Seq<ContentView>,
    arguments: Seq<(Seq<char>, Seq<char>)>,
    stop_reason: StopReason,
    model: Seq<char>,
)
    requires
        free_of_results(blocks),
    ensures
        resolve(blocks, arguments, stop_reason, model) matches Ok(c) ==> free_of_results(c),
    decreases blocks.len(),
{
    if blocks.len() > 0 {
        let rest = blocks.drop_first();
        assert(free_of_results(rest)) by {
            assert forall|i: int| 0 <= i < rest.len() implies !(#[trigger] rest[i] is ToolResult) by {
                assert(rest[i] == blocks[i + 1]);
            }
        }
        assert(!(blocks[0] is ToolResult));
        match blocks[0] {
            ContentView::ToolUse { id, name, input } => {
                let (raw, remaining) = take_arguments(arguments, id);
                lemma_resolve_keeps_free(rest, remaining, stop_reason, model);
            },
            _ => {
                lemma_resolve_keeps_free(rest, arguments, stop_reason, model);
            },
        }
    }
}

/// A stream's usage is its latest report of each count: a usage event
/// sets every count it reports and keeps every count it leaves out, and
/// no other event touches usage.
pub proof fn law_stream_usage_is_latest_report(a: AccumulatorView, event: CompletionEvent)
    ensures
        event matches CompletionEvent::Usage(u) ==> after_event(a, event).usage.input_tokens == (
        if u.input_tokens is Some {
            u.input_tokens
        } else {
            a.usage.input_tokens
        }),
        event matches CompletionEvent::Usage(u) ==> after_event(a, event).usage.output_tokens == (
        if u.output_tokens is Some {
            u.output_tokens
        } else {
            a.usage.output_tokens
        }),
        !(event is Usage) ==> after_event(a, event).usage == a.usage,
{
}

/// A stream only ever builds text, reasoning and tool-use blocks: whatever
/// events an accumulator folds in, none of its blocks is a tool result, and
/// neither is any block of the completion it finishes with.
pub proof fn law_streamed_completion_holds_no_results(
    events: Seq<CompletionEvent>,
    stop_reason: StopReason,
    model: Seq<char>,
)
    ensures
        free_of_results(fold_events(events).blocks),
        resolve(fold_events(events).blocks, fold_events(events).arguments, stop_reason, model) matches Ok(
            c,
        ) ==> free_of_results(c),
    decreases events.len(),
{
    if events.len() > 0 {
        law_streamed_completion_holds_no_results(events.drop_last(), stop_reason, model);
        lemma_event_keeps_free(fold_events(events.drop_last()), events.last());
    }
    lemma_resolve_keeps_free(
        fold_events(events).blocks,
        fold_events(events).arguments,
        stop_reason,
        model,
    );
}

/// Finishes one tool call once its argument text was read as JSON:
/// `parsed` is the value's text, or the parser's message. A call whose
/// arguments do not parse is dropped under [`StopReason::MaxTokens`], where
/// a cut-off call is expected, and is otherwise a decode failure naming
/// `model`'s call of the tool.
pub fn resolve_tool_use(
    tool_use: &ToolUse,
    parsed: Result<String, String>,
    stop_reason: StopReason,
    model: &str,
) -> (r: Result<Option<ToolUse>, ProviderFailure>)
    ensures
        match parsed {
            Ok(value) => r matches Ok(Some(u)) && u.id@ == tool_use.id@ && u.name@ == tool_use.name@
                && u.input@ == value@,
            Err(message) => if stop_reason == StopReason::MaxTokens {
                r matches Ok(None)
            } else {
                r matches Err(ProviderFailure::Decode { provider, detail }) && provider@
                    == undecodable_call(model@, tool_use.name@) && detail@ == message@
            },
        },
{
    match parsed {
        Ok(value) => Ok(
            Some(ToolUse { id: tool_use.id.clone(), name: tool_use.name.clone(), input: value }),
        ),
        Err(message) => {
            if stop_reason == StopReason::MaxTokens {
                Ok(None)
            } else {
                let provider = owned(model).concat("'s `").concat(tool_use.name.as_str()).concat(
                    "` tool call",
                );
                Err(ProviderFailure::Decode { provider, detail: message })
            }
        },
    }
}

/// Reassembles a stream of [`CompletionEvent`]s into a [`Completion`].
///
/// Feed every event to [`Self::push`] as it arrives, then call
/// [`Self::finish`] once the stream ends.
pub struct CompletionAccumulator {
    blocks: Vec<Content>,
    tool_arguments: Vec<(String, String)>,
    usage: Usage,
    finished: Option<(StopReason, String, String)>,
}

/// Every `(key, text)` pair's value, in order.
pub open spec fn pair_views(v: Seq<(String, String)>) -> Seq<(Seq<char>, Seq<char>)> {
    v.map_values(|p: (String, String)| (p.0@, p.1@))
}

impl View for CompletionAccumulator {
    type V = AccumulatorView;

    closed spec fn view(&self) -> AccumulatorView {
        AccumulatorView {
            blocks: content_views(self.blocks@),
            arguments: pair_views(self.tool_arguments@),
            usage: self.usage,
            finished: match self.finished {
                Some((stop, raw, model)) => Some((stop, raw@, model@)),
                None => None,
            },
        }
    }
}

/// Finds `key` among the keys of `list`, from the front.
fn find_key(list: &Vec<(String, String)>, key: &String) -> (r: Option<usize>)
    ensures
        r matches Some(i) ==> key_index(pair_views(list@), key@) == Some(i as int) && i
            < list@.len(),
        r is None ==> key_index(pair_views(list@), key@) is None,
{
    let ghost all = pair_views(list@);
    assert(all.skip(0) =~= all);
    let mut i: usize = 0;
    while i < list.len()
        invariant
            i <= list@.len(),
            all == pair_views(list@),
            key_index(all, key@) == (match key_index(all.skip(i as int), key@) {
                Some(j) => Some(j + i),
                None => None,
            }),
        decreases list.len() - i,
    {
        assert(all.skip(i as int).drop_first() =~= all.skip(i + 1));
        assert(all.skip(i as int)[0] == all[i as int]);
        if list[i].0 == *key {
            return Some(i);
        }
        i = i + 1;
    }
    assert(all.skip(i as int).len() == 0);
    None
}

impl CompletionAccumulator {
    /// An accumulator with nothing folded in yet.
    pub fn new() -> (a: Self)
        ensures
            a@ == empty_accumulator(),
    {
        let a = CompletionAccumulator {
            blocks: Vec::new(),
            tool_arguments: Vec::new(),
            usage: Usage { input_tokens: None, output_tokens: None },
            finished: None,
        };
        assert(a@.blocks =~= Seq::<ContentView>::empty());
        assert(a@.arguments =~= Seq::<(Seq<char>, Seq<char>)>::empty());
        a
    }

    /// Fold one event in.
    ///
    /// A text or reasoning delta extends the current block of that kind, or
    /// starts a new one if the current block is a different kind — so block
    /// order in the reassembled message follows the stream.
    pub fn push(&mut self, event: CompletionEvent)
        ensures
            final(self)@ == after_event(old(self)@, event),
    {
        let ghost e = event;
        match event {
            CompletionEvent::TextDelta(text) => self.push_text(text),
            CompletionEvent::ReasoningDelta(text) => self.push_reasoning(text),
            CompletionEvent::ReasoningSignatureDelta(signature) => self.push_signature(signature),
            CompletionEvent::ToolUseStart { id, name } => self.push_tool_use_start(id, name),
            CompletionEvent::ToolUseArgumentsDelta { id, fragment } => self.push_arguments(
                id,
                fragment,
            ),
            CompletionEvent::Usage(usage) => {
                self.usage = self.usage.merge(usage);
            },
            CompletionEvent::Finished { stop_reason, raw_stop_reason, model } => {
                self.finished = Some((stop_reason, raw_stop_reason, model));
            },
        }
    }

    fn push_text(&mut self, text: String)
        ensures
            final(self)@ == (AccumulatorView { blocks: with_text(old(self)@.blocks, text@), ..old(self)@ }),
    {
        let ghost before = content_views(self.blocks@);
        match self.blocks.pop() {
            Some(Content::Text(existing)) => {
                let joined = existing.concat(text.as_str());
                self.blocks.push(Content::Text(joined));
                assert(content_views(self.blocks@) =~= with_text(before, text@));
            },
            Some(other) => {
                self.blocks.push(other);
                self.blocks.push(Content::Text(text));
                assert(content_views(self.blocks@) =~= with_text(before, text@));
            },
            None => {
                self.blocks.push(Content::Text(text));
                assert(content_views(self.blocks@) =~= with_text(before, text@));
            },
        }
    }

    fn push_reasoning(&mut self, text: String)
        ensures
            final(self)@ == (AccumulatorView {
                blocks: with_reasoning(old(self)@.blocks, text@),
                ..old(self)@
            }),
    {
        let ghost before = content_views(self.blocks@);
        match self.blocks.pop() {
            Some(Content::Reasoning { text: existing, signature }) => {
                let joined = existing.concat(text.as_str());
                self.blocks.push(Content::Reasoning { text: joined, signature });
                assert(content_views(self.blocks@) =~= with_reasoning(before, text@));
            },
            Some(other) => {
                self.blocks.push(other);
                self.blocks.push(Content::Reasoning { text, signature: None });
                assert(content_views(self.blocks@) =~= with_reasoning(before, text@));
            },
            None => {
                self.blocks.push(Content::Reasoning { text, signature: None });
                assert(content_views(self.blocks@) =~= with_reasoning(before, text@));
            },
        }
    }

    fn push_signature(&mut self, signature: String)
        ensures
            final(self)@ == (AccumulatorView {
                blocks: with_signature(old(self)@.blocks, signature@),
                ..old(self)@
            }),
    {
        let ghost before = content_views(self.blocks@);
        match self.blocks.pop() {
            Some(Content::Reasoning { text, signature: existing }) => {
                let extended = match existing {
                    Some(s) => s.concat(signature.as_str()),
                    None => signature,
                };
                self.blocks.push(Content::Reasoning { text, signature: Some(extended) });
                assert(content_views(self.blocks@) =~= with_signature(before, signature@));
            },
            Some(other) => {
                self.blocks.push(other);
                assert(content_views(self.blocks@) =~= with_signature(before, signature@));
            },
            None => {
                assert(content_views(self.blocks@) =~= with_signature(before, signature@));
            },
        }
    }

    fn push_tool_use_start(&mut self, id: String, name: String)
        ensures
            final(self)@ == (AccumulatorView {
                blocks: old(self)@.blocks.push(
                    ContentView::ToolUse { id: id@, name: name@, input: pending_input() },
                ),
                arguments: ensure_key(old(self)@.arguments, id@),
                ..old(self)@
            }),
    {
        let ghost before_blocks = content_views(self.blocks@);
        let ghost before_args = pair_views(self.tool_arguments@);
        match find_key(&self.tool_arguments, &id) {
            Some(_) => {},
            None => {
                self.tool_arguments.push((id.clone(), String::new()));
                assert(pair_views(self.tool_arguments@) =~= ensure_key(before_args, id@));
            },
        }
        self.blocks.push(Content::ToolUse(ToolUse { id, name, input: owned("null") }));
        assert(content_views(self.blocks@) =~= before_blocks.push(
            ContentView::ToolUse { id: id@, name: name@, input: pending_input() },
        ));
    }

    fn push_arguments(&mut self, id: String, fragment: String)
        ensures
            final(self)@ == (AccumulatorView {
                arguments: add_fragment(old(self)@.arguments, id@, fragment@),
                ..old(self)@
            }),
    {
        let ghost before = pair_views(self.tool_arguments@);
        match find_key(&self.tool_arguments, &id) {
            Some(i) => {
                let ghost old_list = self.tool_arguments@;
                let text = self.tool_arguments[i].1.clone();
                let extended = text.concat(fragment.as_str());
                self.tool_arguments.set(i, (id, extended));
                proof {
                    let expected = add_fragment(before, id@, fragment@);
                    assert(text@ == before[i as int].1);
                    assert(expected == before.update(i as int, (id@, before[i as int].1 + fragment@)));
                    assert forall|k: int| 0 <= k < before.len() implies #[trigger] pair_views(
                        self.tool_arguments@,
                    )[k] == expected[k] by {
                        if k != i {
                            assert(self.tool_arguments@[k] == old_list[k]);
                        }
                    }
                }
                assert(pair_views(self.tool_arguments@) =~= add_fragment(before, id@, fragment@));
            },
            None => {
                self.tool_arguments.push((id, fragment));
                assert(pair_views(self.tool_arguments@) =~= add_fragment(before, id@, fragment@));
            },
        }
    }

    /// Finalize the accumulated events into a [`Completion`], reading each
    /// tool call's concatenated arguments as JSON.
    ///
    /// Fails with a decode-class [`ProviderFailure`] when a tool call's
    /// arguments do not parse — except under [`StopReason::MaxTokens`],
    /// where a cut-off tool call is expected: that block is dropped and the
    /// rest of the completion is returned. Fails with a retryable
    /// transport-class failure if no finishing event was ever pushed, since
    /// a stream that ends without one has failed.
    pub fn finish(self) -> (r: Result<Completion, ProviderFailure>)
        ensures
            match self@.finished {
                None => r matches Err(ProviderFailure::Transport { provider, detail })
                    && provider@ == "model provider"@ && detail@
                    == "completion stream ended without a finished event"@,
                Some((stop, raw, model)) => match resolve(
                    self@.blocks,
                    self@.arguments,
                    stop,
                    model,
                ) {
                    Ok(content) => r matches Ok(c) && content_views(c.content@) == content
                        && c.usage == self@.usage && c.stop_reason == stop && c.raw_stop_reason@
                        == raw && c.model@ == model,
                    Err((provider, message)) => r matches Err(
                        ProviderFailure::Decode { provider: p, detail },
                    ) && p@ == provider && detail@ == message,
                },
            },
    {
        let ghost whole = self@;
        let CompletionAccumulator { blocks, tool_arguments, usage, finished } = self;
        let (stop_reason, raw_stop_reason, model) = match finished {
            Some(f) => f,
            None => {
                return Err(
                    transport_failure(
                        "model provider",
                        "completion stream ended without a finished event",
                    ),
                );
            },
        };
        let ghost all = content_views(blocks@);
        let ghost target = resolve(all, whole.arguments, stop_reason, model@);
        let mut arguments = tool_arguments;
        let mut content: Vec<Content> = Vec::new();
        proof {
            assert(all.skip(0) =~= all);
            assert(whole.arguments == pair_views(arguments@));
            match target {
                Ok(tail) => {
                    assert(content_views(content@) + tail =~= tail);
                },
                Err(_) => {},
            }
        }
        let mut i: usize = 0;
        while i < blocks.len()
            invariant
                i <= blocks@.len(),
                all == content_views(blocks@),
                whole.blocks == all,
                whole == self@,
                whole.finished == Some((stop_reason, raw_stop_reason@, model@)),
                target == resolve(all, whole.arguments, stop_reason, model@),
                match resolve(all.skip(i as int), pair_views(arguments@), stop_reason, model@) {
                    Ok(tail) => target == Ok::<Seq<ContentView>, (Seq<char>, Seq<char>)>(
                        content_views(content@) + tail,
                    ),
                    Err(e) => target == Err::<Seq<ContentView>, (Seq<char>, Seq<char>)>(e),
                },
            decreases blocks.len() - i,
        {
            let ghost rest = all.skip(i as int);
            assert(rest.drop_first() =~= all.skip(i + 1));
            assert(rest[0] == content_view(blocks@[i as int]));
            let ghost before_content = content_views(content@);
            let ghost before_args = pair_views(arguments@);
            match &blocks[i] {
                Content::ToolUse(tool_use) => {
                    let raw = match find_key(&arguments, &tool_use.id) {
                        Some(k) => {
                            let ghost old_list = arguments@;
                            let (_key, text) = arguments.remove(k);
                            proof {
                                assert(arguments@ == old_list.remove(k as int));
                                assert forall|j: int| 0 <= j < arguments@.len() implies #[trigger] pair_views(
                                    arguments@,
                                )[j] == before_args.remove(k as int)[j] by {
                                    if j < k {
                                        assert(arguments@[j] == old_list[j]);
                                    } else {
                                        assert(arguments@[j] == old_list[j + 1]);
                                    }
                                }
                                assert(text == old_list[k as int].1);
                            }
                            assert(pair_views(arguments@) =~= before_args.remove(k as int));
                            assert(take_arguments(before_args, tool_use.id@) == (
                                text@,
                                pair_views(arguments@),
                            ));
                            text
                        },
                        None => {
                            let text = String::new();
                            assert(take_arguments(before_args, tool_use.id@) == (
                                text@,
                                pair_views(arguments@),
                            ));
                            text
                        },
                    };
                    let parsed = parse_json(raw.as_str());
                    match resolve_tool_use(tool_use, parsed, stop_reason, model.as_str()) {
                        Ok(Some(resolved)) => {
                            let ghost added = ContentView::ToolUse {
                                id: tool_use.id@,
                                name: tool_use.name@,
                                input: json_parse(raw@)->Ok_0,
                            };
                            content.push(Content::ToolUse(resolved));
                            proof {
                                assert(content_views(content@) =~= before_content.push(added));
                                match resolve(
                                    all.skip(i + 1),
                                    pair_views(arguments@),
                                    stop_reason,
                                    model@,
                                ) {
                                    Ok(tail) => {
                                        assert(before_content + (seq![added] + tail)
                                            =~= before_content.push(added) + tail);
                                    },
                                    Err(_) => {},
                                }
                            }
                        },
                        Ok(None) => {},
                        Err(failure) => {
                            proof {
                                let message = json_parse(raw@)->Err_0;
                                assert(resolve(rest, before_args, stop_reason, model@) == Err::<
                                    Seq<ContentView>,
                                    (Seq<char>, Seq<char>),
                                >((undecodable_call(model@, tool_use.name@), message)));
                            }
                            return Err(failure);
                        },
                    }
                },
                other => {
                    content.push(other.clone());
                    proof {
                        assert(content_views(content@) =~= before_content.push(rest[0]));
                        match resolve(all.skip(i + 1), pair_views(arguments@), stop_reason, model@) {
                            Ok(tail) => {
                                assert(before_content + (seq![rest[0]] + tail)
                                    =~= before_content.push(rest[0]) + tail);
                            },
                            Err(_) => {},
                        }
                    }
                },
            }
            i = i + 1;
        }
        proof {
            assert(all.skip(blocks.len() as int) =~= Seq::<ContentView>::empty());
            assert(content_views(content@) + Seq::<ContentView>::empty() =~= content_views(
                content@,
            ));
        }
        Ok(Completion { content, usage, stop_reason, raw_stop_reason, model })
    }
}

} // verus!
