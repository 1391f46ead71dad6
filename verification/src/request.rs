//! What goes into a model call: the request shape and the invariants a
//! request must satisfy before any provider sees it.

use vstd::prelude::*;

use crate::failure::ProviderFailure;
use crate::message::{Content, Message, MessageView, Role, clone_messages, views_of};
use crate::text::owned;
use crate::tools::{ToolSpec, name_views};

verus! {

/// A request for schema-constrained JSON output.
#[derive(Debug, PartialEq, Eq)]
pub struct ResponseFormat {
    /// A name for the schema.
    pub name: String,
    /// The JSON Schema the reply must conform to, as JSON text.
    pub schema: String,
}

impl Clone for ResponseFormat {
    fn clone(&self) -> (r: Self)
        ensures
            r == *self,
    {
        ResponseFormat { name: self.name.clone(), schema: self.schema.clone() }
    }
}

/// A request to complete a conversation.
///
/// Unset `max_tokens` and temperature fall through to the model's configured
/// defaults, then to the provider's own. The sampling temperature is kept as
/// the bit pattern of its `f32` value (`f32::to_bits`).
#[derive(Debug)]
pub struct CompletionRequest {
    /// The conversation so far, oldest first.
    pub messages: Vec<Message>,
    /// The tools advertised to the model for this request.
    pub tools: Vec<ToolSpec>,
    /// The maximum number of output tokens, if bounded.
    pub max_tokens: Option<u32>,
    /// The sampling temperature's `f32` bit pattern, if set.
    pub temperature_bits: Option<u32>,
    /// A schema-constrained JSON output format, if requested.
    pub response_format: Option<ResponseFormat>,
}

/// A copy of every tool spec, in order.
pub fn clone_tool_specs(v: &Vec<ToolSpec>) -> (r: Vec<ToolSpec>)
    ensures
        r@ == v@,
{
    let mut r: Vec<ToolSpec> = Vec::new();
    let mut i: usize = 0;
    while i < v.len()
        invariant
            i <= v.len(),
            r@ == v@.take(i as int),
        decreases v.len() - i,
    {
        r.push(v[i].clone());
        i = i + 1;
        assert(r@ =~= v@.take(i as int));
    }
    assert(v@.take(v.len() as int) =~= v@);
    r
}

impl Clone for CompletionRequest {
    fn clone(&self) -> (r: Self)
        ensures
            views_of(r.messages@) == views_of(self.messages@),
            r.tools@ == self.tools@,
            r.max_tokens == self.max_tokens,
            r.temperature_bits == self.temperature_bits,
            r.response_format == self.response_format,
    {
        CompletionRequest {
            messages: clone_messages(&self.messages),
            tools: clone_tool_specs(&self.tools),
            max_tokens: self.max_tokens,
            temperature_bits: self.temperature_bits,
            response_format: match &self.response_format {
                Some(f) => Some(f.clone()),
                None => None,
            },
        }
    }
}

/// The rules a conversation must keep.
#[derive(Debug, Clone, Copy, PartialEq, Eq, Structural)]
pub enum RequestRule {
    /// System messages form a contiguous run at the head.
    SystemAtHead,
    /// System messages hold only text.
    SystemTextOnly,
    /// Tool-use and reasoning blocks appear only on assistant messages.
    AssistantOnlyBlocks,
    /// Tool-result blocks appear only on user messages.
    UserOnlyResults,
    /// Every tool result answers a tool use from an earlier assistant
    /// message.
    ResultAnswersToolUse,
}

/// The wording of a broken rule.
pub open spec fn rule_text(rule: RequestRule) -> Seq<char> {
    match rule {
        RequestRule::SystemAtHead =>
            "system messages must appear only as a contiguous run at the head of the conversation"@,
        RequestRule::SystemTextOnly => "system messages must contain only text blocks"@,
        RequestRule::AssistantOnlyBlocks =>
            "tool-use and reasoning blocks may appear only on assistant messages"@,
        RequestRule::UserOnlyResults => "tool-result blocks may appear only on user messages"@,
        RequestRule::ResultAnswersToolUse =>
            "every tool result must answer a tool use from an earlier assistant message"@,
    }
}

/// The wording of a broken rule.
pub fn rule_message(rule: RequestRule) -> (r: String)
    ensures
        r@ == rule_text(rule),
{
    match rule {
        RequestRule::SystemAtHead => owned(
            "system messages must appear only as a contiguous run at the head of the conversation",
        ),
        RequestRule::SystemTextOnly => owned("system messages must contain only text blocks"),
        RequestRule::AssistantOnlyBlocks => owned(
            "tool-use and reasoning blocks may appear only on assistant messages",
        ),
        RequestRule::UserOnlyResults => owned("tool-result blocks may appear only on user messages"),
        RequestRule::ResultAnswersToolUse => owned(
            "every tool result must answer a tool use from an earlier assistant message",
        ),
    }
}

/// The ids of the tool-use blocks in `content`.
pub open spec fn tool_use_ids(content: Seq<Content>) -> Set<Seq<char>>
    decreases content.len(),
{
    if content.len() == 0 {
        Set::empty()
    } else {
        let rest = tool_use_ids(content.drop_last());
        match content.last() {
            Content::ToolUse(u) => rest.insert(u.id@),
            _ => rest,
        }
    }
}

/// The ids of every tool use an assistant message in `msgs` asked for.
pub open spec fn known_ids(msgs: Seq<MessageView>) -> Set<Seq<char>>
    decreases msgs.len(),
{
    if msgs.len() == 0 {
        Set::empty()
    } else {
        let rest = known_ids(msgs.drop_last());
        if msgs.last().role == Role::Assistant {
            rest.union(tool_use_ids(msgs.last().content))
        } else {
            rest
        }
    }
}

/// Whether any message in `msgs` is not a system message.
pub open spec fn past_head(msgs: Seq<MessageView>) -> bool {
    exists|i: int| 0 <= i < msgs.len() && msgs[i].role != Role::System
}

/// The first rule a user message's blocks break, given the tool-use ids
/// asked for so far.
pub open spec fn user_violation(content: Seq<Content>, known: Set<Seq<char>>) -> Option<
    RequestRule,
>
    decreases content.len(),
{
    if content.len() == 0 {
        None
    } else {
        match user_violation(content.drop_last(), known) {
            Some(rule) => Some(rule),
            None => match content.last() {
                Content::Text(_) => None,
                Content::ToolUse(_) => Some(RequestRule::AssistantOnlyBlocks),
                Content::Reasoning { .. } => Some(RequestRule::AssistantOnlyBlocks),
                Content::ToolResult(r) => if known.contains(r.tool_use_id@) {
                    None
                } else {
                    Some(RequestRule::ResultAnswersToolUse)
                },
            },
        }
    }
}

/// Whether `content` holds a tool-result block.
pub open spec fn has_tool_result(content: Seq<Content>) -> bool {
    exists|i: int| 0 <= i < content.len() && content[i] is ToolResult
}

/// Whether every block in `content` is text.
pub open spec fn text_only(content: Seq<Content>) -> bool {
    forall|i: int| 0 <= i < content.len() ==> content[i] is Text
}

/// The first rule message `m` breaks, given what came before it.
pub open spec fn message_violation(m: MessageView, before: Seq<MessageView>) -> Option<RequestRule> {
    match m.role {
        Role::System => if past_head(before) {
            Some(RequestRule::SystemAtHead)
        } else if !text_only(m.content) {
            Some(RequestRule::SystemTextOnly)
        } else {
            None
        },
        Role::User => user_violation(m.content, known_ids(before)),
        Role::Assistant => if has_tool_result(m.content) {
            Some(RequestRule::UserOnlyResults)
        } else {
            None
        },
    }
}

/// The first rule the conversation `msgs` breaks, reading from the front.
pub open spec fn first_violation(msgs: Seq<MessageView>) -> Option<RequestRule>
    decreases msgs.len(),
{
    if msgs.len() == 0 {
        None
    } else {
        match first_violation(msgs.drop_last()) {
            Some(rule) => Some(rule),
            None => message_violation(msgs.last(), msgs.drop_last()),
        }
    }
}

/// The conversation keeps every request rule.
pub open spec fn valid_conversation(msgs: Seq<MessageView>) -> bool {
    first_violation(msgs) is None
}

/// Whether `id` is among `known`.
fn contains_id(known: &Vec<String>, id: &String) -> (r: bool)
    ensures
        r == name_views(known@).contains(id@),
{
    let mut i: usize = 0;
    while i < known.len()
        invariant
            i <= known@.len(),
            forall|k: int| 0 <= k < i ==> known@[k]@ != id@,
        decreases known.len() - i,
    {
        if known[i] == *id {
            assert(name_views(known@)[i as int] == id@);
            return true;
        }
        i = i + 1;
    }
    proof {
        if name_views(known@).contains(id@) {
            let k = choose|k: int| 0 <= k < known@.len() && name_views(known@)[k] == id@;
            assert(known@[k]@ == id@);
        }
    }
    false
}

/// Checks a system message.
fn check_system(message: &Message, past_system_head: bool) -> (r: Option<RequestRule>)
    ensures
        r == (if past_system_head {
            Some(RequestRule::SystemAtHead)
        } else if !text_only(message.content@) {
            Some(RequestRule::SystemTextOnly)
        } else {
            None
        }),
{
    if past_system_head {
        return Some(RequestRule::SystemAtHead);
    }
    let mut i: usize = 0;
    while i < message.content.len()
        invariant
            i <= message.content@.len(),
            forall|k: int| 0 <= k < i ==> message.content@[k] is Text,
            !past_system_head,
        decreases message.content.len() - i,
    {
        match &message.content[i] {
            Content::Text(_) => {},
            _ => {
                assert(!(message.content@[i as int] is Text));
                return Some(RequestRule::SystemTextOnly);
            },
        }
        i = i + 1;
    }
    None
}

/// Checks a user message against the ids asked for so far.
fn check_user(message: &Message, known: &Vec<String>) -> (r: Option<RequestRule>)
    ensures
        r == user_violation(message.content@, name_views(known@).to_set()),
{
    let ghost set = name_views(known@).to_set();
    let mut i: usize = 0;
    while i < message.content.len()
        invariant
            i <= message.content@.len(),
            set == name_views(known@).to_set(),
            user_violation(message.content@.take(i as int), set) is None,
        decreases message.content.len() - i,
    {
        assert(message.content@.take(i + 1).drop_last() =~= message.content@.take(i as int));
        let ghost prefix = message.content@.take(i + 1);
        match &message.content[i] {
            Content::Text(_) => {},
            Content::ToolUse(_) => {
                proof {
                    lemma_user_violation_extends(message.content@, set, i + 1);
                }
                return Some(RequestRule::AssistantOnlyBlocks);
            },
            Content::Reasoning { .. } => {
                proof {
                    lemma_user_violation_extends(message.content@, set, i + 1);
                }
                return Some(RequestRule::AssistantOnlyBlocks);
            },
            Content::ToolResult(result) => {
                let found = contains_id(known, &result.tool_use_id);
                proof {
                    assert(found == set.contains(result.tool_use_id@));
                }
                if !found {
                    proof {
                        lemma_user_violation_extends(message.content@, set, i + 1);
                    }
                    return Some(RequestRule::ResultAnswersToolUse);
                }
            },
        }
        i = i + 1;
    }
    assert(message.content@.take(message.content.len() as int) =~= message.content@);
    None
}

/// Once a prefix of the blocks breaks a rule, the whole does, with the same
/// rule.
proof fn lemma_user_violation_extends(content: Seq<Content>, known: Set<Seq<char>>, n: int)
    requires
        0 <= n <= content.len(),
        user_violation(content.take(n), known) is Some,
    ensures
        user_violation(content, known) == user_violation(content.take(n), known),
    decreases content.len() - n,
{
    if n == content.len() {
        assert(content.take(n) =~= content);
    } else {
        assert(content.take(n + 1).drop_last() =~= content.take(n));
        lemma_user_violation_extends(content, known, n + 1);
    }
}

/// Checks an assistant message and records the ids of the tools it asks
/// for.
fn check_assistant(message: &Message, known: &mut Vec<String>) -> (r: Option<RequestRule>)
    ensures
        r == (if has_tool_result(message.content@) {
            Some(RequestRule::UserOnlyResults)
        } else {
            None
        }),
        r is None ==> name_views(final(known)@).to_set() == name_views(old(known)@).to_set().union(
            tool_use_ids(message.content@),
        ),
{
    let ghost start = name_views(known@).to_set();
    let mut i: usize = 0;
    while i < message.content.len()
        invariant
            i <= message.content@.len(),
            forall|k: int| 0 <= k < i ==> !(message.content@[k] is ToolResult),
            name_views(known@).to_set() == start.union(
                tool_use_ids(message.content@.take(i as int)),
            ),
        decreases message.content.len() - i,
    {
        assert(message.content@.take(i + 1).drop_last() =~= message.content@.take(i as int));
        match &message.content[i] {
            Content::ToolUse(tool_use) => {
                let ghost before = known@;
                known.push(tool_use.id.clone());
                proof {
                    assert(name_views(known@) =~= name_views(before).push(tool_use.id@));
                    name_views(before).lemma_push_to_set_commute(tool_use.id@);
                    assert(name_views(known@).to_set() =~= name_views(before).to_set().insert(
                        tool_use.id@,
                    ));
                    assert(name_views(known@).to_set() =~= start.union(
                        tool_use_ids(message.content@.take(i + 1)),
                    ));
                }
            },
            Content::ToolResult(_) => {
                return Some(RequestRule::UserOnlyResults);
            },
            _ => {
                assert(tool_use_ids(message.content@.take(i + 1)) == tool_use_ids(
                    message.content@.take(i as int),
                ));
            },
        }
        i = i + 1;
    }
    assert(message.content@.take(message.content.len() as int) =~= message.content@);
    None
}

/// Checks the request rules on a conversation, naming the first rule it
/// breaks.
pub fn validate_messages(messages: &Vec<Message>) -> (r: Result<(), ProviderFailure>)
    ensures
        match first_violation(views_of(messages@)) {
            Some(rule) => r matches Err(ProviderFailure::InvalidRequest(t)) && t@ == rule_text(
                rule,
            ),
            None => r is Ok,
        },
{
    let ghost all = views_of(messages@);
    let mut past_system_head = false;
    let mut known: Vec<String> = Vec::new();
    let mut i: usize = 0;
    while i < messages.len()
        invariant
            i <= messages@.len(),
            all == views_of(messages@),
            first_violation(all.take(i as int)) is None,
            past_system_head == past_head(all.take(i as int)),
            name_views(known@).to_set() == known_ids(all.take(i as int)),
        decreases messages.len() - i,
    {
        let ghost before = all.take(i as int);
        assert(all.take(i + 1).drop_last() =~= before);
        assert(all.take(i + 1).last() == messages@[i as int]@);
        let message = &messages[i];
        let outcome = match message.role {
            Role::System => check_system(message, past_system_head),
            Role::User => {
                past_system_head = true;
                check_user(message, &known)
            },
            Role::Assistant => {
                past_system_head = true;
                check_assistant(message, &mut known)
            },
        };
        proof {
            assert(outcome == message_violation(message@, before));
            assert(past_head(all.take(i + 1)) == (past_head(before) || message.role
                != Role::System)) by {
                let next = all.take(i + 1);
                if message.role != Role::System {
                    assert(next[i as int].role != Role::System);
                }
                if past_head(before) {
                    let k = choose|k: int| 0 <= k < before.len() && before[k].role != Role::System;
                    assert(next[k] == before[k]);
                }
                if past_head(next) {
                    let k = choose|k: int| 0 <= k < next.len() && next[k].role != Role::System;
                    if k < i {
                        assert(before[k] == next[k]);
                    }
                }
            }
        }
        match outcome {
            Some(rule) => {
                proof {
                    lemma_first_violation_extends(all, i + 1);
                    assert(all.take(messages.len() as int) =~= all);
                }
                return Err(ProviderFailure::InvalidRequest(rule_message(rule)));
            },
            None => {},
        }
        i = i + 1;
    }
    assert(all.take(messages.len() as int) =~= all);
    Ok(())
}

/// Once a prefix of a conversation breaks a rule, the whole does, with the
/// same rule.
pub proof fn lemma_first_violation_extends(msgs: Seq<MessageView>, n: int)
    requires
        0 <= n <= msgs.len(),
        first_violation(msgs.take(n)) is Some,
    ensures
        first_violation(msgs) == first_violation(msgs.take(n)),
    decreases msgs.len() - n,
{
    if n == msgs.len() {
        assert(msgs.take(n) =~= msgs);
    } else {
        assert(msgs.take(n + 1).drop_last() =~= msgs.take(n));
        lemma_first_violation_extends(msgs, n + 1);
    }
}

/// Whether an assistant message in `before` asked for the tool use `id`.
pub open spec fn answered(before: Seq<MessageView>, id: Seq<char>) -> bool {
    exists|j: int|
        0 <= j < before.len() && before[j].role == Role::Assistant && #[trigger] tool_use_ids(
            before[j].content,
        ).contains(id)
}

/// A block that is a tool result answers a tool use asked for in `before`.
pub open spec fn block_answered(block: Content, before: Seq<MessageView>) -> bool {
    match block {
        Content::ToolResult(r) => answered(before, r.tool_use_id@),
        _ => true,
    }
}

/// Message `m`, coming after `before`, keeps every request rule: a system
/// message has no other message before it and holds only text; tool-use and
/// reasoning blocks are on assistant messages; tool-result blocks are on
/// user messages, each answering a tool use an earlier assistant message
/// asked for.
pub open spec fn message_ok(m: MessageView, before: Seq<MessageView>) -> bool {
    &&& m.role == Role::System ==> !past_head(before) && text_only(m.content)
    &&& forall|k: int|
        0 <= k < m.content.len() && (#[trigger] m.content[k] is ToolUse || m.content[k] is Reasoning)
            ==> m.role == Role::Assistant
    &&& forall|k: int|
        0 <= k < m.content.len() && #[trigger] m.content[k] is ToolResult ==> m.role == Role::User
    &&& forall|k: int| 0 <= k < m.content.len() ==> block_answered(#[trigger] m.content[k], before)
}

/// Every message of `msgs` keeps every request rule, given the messages
/// before it.
pub open spec fn keeps_rules(msgs: Seq<MessageView>) -> bool {
    forall|i: int| 0 <= i < msgs.len() ==> message_ok(#[trigger] msgs[i], msgs.take(i))
}

/// A tool result is known exactly when an earlier assistant message asked
/// for it.
proof fn lemma_known_ids_answered(msgs: Seq<MessageView>, id: Seq<char>)
    ensures
        known_ids(msgs).contains(id) <==> answered(msgs, id),
    decreases msgs.len(),
{
    if msgs.len() > 0 {
        let pre = msgs.drop_last();
        lemma_known_ids_answered(pre, id);
        if answered(pre, id) {
            let j = choose|j: int|
                0 <= j < pre.len() && pre[j].role == Role::Assistant && #[trigger] tool_use_ids(
                    pre[j].content,
                ).contains(id);
            assert(msgs[j] == pre[j]);
        }
        if answered(msgs, id) {
            let j = choose|j: int|
                0 <= j < msgs.len() && msgs[j].role == Role::Assistant && #[trigger] tool_use_ids(
                    msgs[j].content,
                ).contains(id);
            if j < pre.len() {
                assert(msgs[j] == pre[j]);
            }
        }
        if msgs.last().role == Role::Assistant && tool_use_ids(msgs.last().content).contains(id) {
            assert(tool_use_ids(msgs[msgs.len() - 1].content).contains(id));
        }
    }
}

/// A user message's blocks break no rule exactly when none is a tool use
/// or reasoning and every tool result is among `known`.
proof fn lemma_user_blocks(content: Seq<Content>, known: Set<Seq<char>>)
    ensures
        user_violation(content, known) is None <==> forall|k: int|
            0 <= k < content.len() ==> #[trigger] user_block_ok(content[k], known),
    decreases content.len(),
{
    if content.len() > 0 {
        let pre = content.drop_last();
        lemma_user_blocks(pre, known);
        assert forall|k: int| 0 <= k < pre.len() implies pre[k] == content[k] by {}
        if forall|k: int| 0 <= k < content.len() ==> #[trigger] user_block_ok(content[k], known) {
            assert forall|k: int| 0 <= k < pre.len() implies #[trigger] user_block_ok(pre[k], known) by {
                assert(user_block_ok(content[k], known));
            }
            assert(user_block_ok(content[content.len() - 1], known));
        }
        if user_violation(content, known) is None {
            assert forall|k: int| 0 <= k < content.len() implies #[trigger] user_block_ok(
                content[k],
                known,
            ) by {
                if k < pre.len() {
                    assert(user_block_ok(pre[k], known));
                }
            }
        }
    }
}

/// A block a user message may hold: text, or a tool result among `known`.
pub open spec fn user_block_ok(block: Content, known: Set<Seq<char>>) -> bool {
    match block {
        Content::Text(_) => true,
        Content::ToolResult(r) => known.contains(r.tool_use_id@),
        _ => false,
    }
}

/// One message breaks no rule exactly when it keeps every rule.
proof fn lemma_message_ok(m: MessageView, before: Seq<MessageView>)
    ensures
        message_violation(m, before) is None <==> message_ok(m, before),
{
    let known = known_ids(before);
    match m.role {
        Role::System => {
            if !past_head(before) && text_only(m.content) {
                assert forall|k: int| 0 <= k < m.content.len() implies #[trigger] block_answered(
                    m.content[k],
                    before,
                ) by {
                    assert(m.content[k] is Text);
                }
                assert forall|k: int|
                    0 <= k < m.content.len() && (#[trigger] m.content[k] is ToolUse
                        || m.content[k] is Reasoning) implies m.role == Role::Assistant by {
                    assert(m.content[k] is Text);
                }
                assert forall|k: int|
                    0 <= k < m.content.len() && #[trigger] m.content[k] is ToolResult implies m.role
                        == Role::User by {
                    assert(m.content[k] is Text);
                }
            }
            assert(message_ok(m, before) ==> (!past_head(before) && text_only(m.content)));
        },
        Role::Assistant => {
            if !has_tool_result(m.content) {
                assert forall|k: int| 0 <= k < m.content.len() implies #[trigger] block_answered(
                    m.content[k],
                    before,
                ) by {
                    assert(!(m.content[k] is ToolResult));
                }
            }
            if message_ok(m, before) {
                assert(!has_tool_result(m.content)) by {
                    if has_tool_result(m.content) {
                        let k = choose|k: int| 0 <= k < m.content.len() && m.content[k] is ToolResult;
                        assert(m.content[k] is ToolResult);
                    }
                }
            }
        },
        Role::User => {
            lemma_user_blocks(m.content, known);
            assert forall|k: int| 0 <= k < m.content.len() implies (#[trigger] user_block_ok(
                m.content[k],
                known,
            ) <==> (!(m.content[k] is ToolUse || m.content[k] is Reasoning) && block_answered(
                m.content[k],
                before,
            ))) by {
                match m.content[k] {
                    Content::ToolResult(r) => {
                        lemma_known_ids_answered(before, r.tool_use_id@);
                    },
                    _ => {},
                }
            }
            if message_violation(m, before) is None {
                assert forall|k: int|
                    0 <= k < m.content.len() && (#[trigger] m.content[k] is ToolUse
                        || m.content[k] is Reasoning) implies m.role == Role::Assistant by {
                    assert(user_block_ok(m.content[k], known));
                }
                assert forall|k: int| 0 <= k < m.content.len() implies #[trigger] block_answered(
                    m.content[k],
                    before,
                ) by {
                    assert(user_block_ok(m.content[k], known));
                }
            }
            if message_ok(m, before) {
                assert forall|k: int| 0 <= k < m.content.len() implies #[trigger] user_block_ok(
                    m.content[k],
                    known,
                ) by {
                    assert(block_answered(m.content[k], before));
                    if m.content[k] is ToolUse || m.content[k] is Reasoning {
                        assert(m.role == Role::Assistant);
                    }
                }
            }
        },
    }
}

/// A conversation is accepted exactly when every message keeps every
/// request rule: validation rejects precisely the conversations that break
/// one.
pub proof fn law_valid_exactly_when_rules_hold(msgs: Seq<MessageView>)
    ensures
        valid_conversation(msgs) <==> keeps_rules(msgs),
    decreases msgs.len(),
{
    if msgs.len() > 0 {
        let pre = msgs.drop_last();
        let n = msgs.len() - 1;
        law_valid_exactly_when_rules_hold(pre);
        lemma_message_ok(msgs.last(), pre);
        assert(msgs.take(n) =~= pre);
        assert forall|i: int| 0 <= i < pre.len() implies #[trigger] msgs.take(i) == pre.take(i)
            && msgs[i] == pre[i] by {
            assert(msgs.take(i) =~= pre.take(i));
        }
        if keeps_rules(msgs) {
            assert forall|i: int| 0 <= i < pre.len() implies message_ok(#[trigger] pre[i], pre.take(i)) by {
                assert(message_ok(msgs[i], msgs.take(i)));
                assert(msgs.take(i) == pre.take(i) && msgs[i] == pre[i]);
            }
            assert(message_ok(msgs[n], msgs.take(n)));
        }
        if keeps_rules(pre) && message_ok(msgs.last(), pre) {
            assert forall|i: int| 0 <= i < msgs.len() implies message_ok(#[trigger] msgs[i], msgs.take(i)) by {
                if i < n {
                    assert(message_ok(pre[i], pre.take(i)));
                    assert(msgs.take(i) == pre.take(i) && msgs[i] == pre[i]);
                }
            }
        }
    } else {
        assert(keeps_rules(msgs));
    }
}

impl CompletionRequest {
    /// A request with only its conversation set; every other field falls
    /// through to defaults.
    pub fn new(messages: Vec<Message>) -> (r: Self)
        ensures
            r.messages == messages,
            r.tools@.len() == 0,
            r.max_tokens is None,
            r.temperature_bits is None,
            r.response_format is None,
    {
        CompletionRequest {
            messages,
            tools: Vec::new(),
            max_tokens: None,
            temperature_bits: None,
            response_format: None,
        }
    }

    /// Checks the request invariants every provider is promised:
    ///
    /// - system messages form a contiguous, text-only run at the head;
    /// - tool-use and reasoning blocks appear only on assistant messages;
    /// - tool-result blocks appear only on user messages;
    /// - every tool result answers a tool use from an earlier assistant
    ///   message.
    ///
    /// Fails with [`ProviderFailure::InvalidRequest`] naming the rule the
    /// first violation breaks.
    pub fn validate(&self) -> (r: Result<(), ProviderFailure>)
        ensures
            match first_violation(views_of(self.messages@)) {
                Some(rule) => r matches Err(ProviderFailure::InvalidRequest(t)) && t@ == rule_text(
                    rule,
                ),
                None => r is Ok,
            },
    {
        validate_messages(&self.messages)
    }

    /// This request with a model's defaults filled in wherever it set none:
    /// the output-token limit, the temperature, and the response format.
    pub fn with_defaults(
        self,
        default_max_tokens: Option<u32>,
        default_temperature_bits: Option<u32>,
        default_response_format: &Option<ResponseFormat>,
    ) -> (r: Self)
        ensures
            r.messages == self.messages,
            r.tools == self.tools,
            r.max_tokens == (match self.max_tokens {
                Some(v) => Some(v),
                None => default_max_tokens,
            }),
            r.temperature_bits == (match self.temperature_bits {
                Some(v) => Some(v),
                None => default_temperature_bits,
            }),
            r.response_format == (match self.response_format {
                Some(f) => Some(f),
                None => *default_response_format,
            }),
    {
        let CompletionRequest { messages, tools, max_tokens, temperature_bits, response_format } =
            self;
        CompletionRequest {
            messages,
            tools,
            max_tokens: match max_tokens {
                Some(v) => Some(v),
                None => default_max_tokens,
            },
            temperature_bits: match temperature_bits {
                Some(v) => Some(v),
                None => default_temperature_bits,
            },
            response_format: match response_format {
                Some(f) => Some(f),
                None => match default_response_format {
                    Some(f) => Some(f.clone()),
                    None => None,
                },
            },
        }
    }
}

} // verus!
