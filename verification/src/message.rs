//! Conversation types shared by every provider.
//!
//! A message's content is a sequence of blocks, so a turn that interleaves
//! text and tool use is represented as it happened.

use vstd::prelude::*;

use crate::text::{join, join_strings, owned};

verus! {

/// Who produced a message.
///
/// There is no tool role: a tool's output is a [`Content::ToolResult`] block
/// on a [`Role::User`] message.
#[derive(Debug, Clone, Copy, PartialEq, Eq, Structural)]
pub enum Role {
    /// Instructions that frame the conversation.
    System,
    /// Input from the caller, including tool results.
    User,
    /// Output from the model.
    Assistant,
}

/// A model's request to invoke a tool.
#[derive(Debug, PartialEq, Eq)]
pub struct ToolUse {
    /// Provider-assigned id, echoed back on the matching [`ToolResult`].
    pub id: String,
    /// The tool's registered name.
    pub name: String,
    /// Arguments, as JSON text shaped by the tool's schema. Not yet
    /// validated.
    pub input: String,
}

impl Clone for ToolUse {
    fn clone(&self) -> (r: Self)
        ensures
            r == *self,
    {
        ToolUse { id: self.id.clone(), name: self.name.clone(), input: self.input.clone() }
    }
}

/// The outcome of running a tool, addressed back to the call that asked for
/// it.
#[derive(Debug, PartialEq, Eq)]
pub struct ToolResult {
    /// The [`ToolUse::id`] this answers.
    pub tool_use_id: String,
    /// What the model sees. A failure's message goes here, not into an
    /// error.
    pub content: String,
    /// Whether `content` describes a failure.
    pub is_error: bool,
}

impl Clone for ToolResult {
    fn clone(&self) -> (r: Self)
        ensures
            r == *self,
    {
        ToolResult {
            tool_use_id: self.tool_use_id.clone(),
            content: self.content.clone(),
            is_error: self.is_error,
        }
    }
}

/// One block within a message.
#[derive(Debug, PartialEq, Eq)]
pub enum Content {
    /// Plain text.
    Text(String),
    /// The model's reasoning, kept out of [`Content::Text`] on purpose.
    Reasoning {
        /// The reasoning text.
        text: String,
        /// An opaque, provider-issued signature over the reasoning, if any.
        signature: Option<String>,
    },
    /// The model asking for a tool to run.
    ToolUse(ToolUse),
    /// The result of running one.
    ToolResult(ToolResult),
}

impl Clone for Content {
    fn clone(&self) -> (r: Self)
        ensures
            r == *self,
    {
        match self {
            Content::Text(t) => Content::Text(t.clone()),
            Content::Reasoning { text, signature } => Content::Reasoning {
                text: text.clone(),
                signature: match signature {
                    Some(s) => Some(s.clone()),
                    None => None,
                },
            },
            Content::ToolUse(u) => Content::ToolUse(u.clone()),
            Content::ToolResult(r) => Content::ToolResult(r.clone()),
        }
    }
}

/// A block as a value.
pub enum ContentView {
    Text(Seq<char>),
    Reasoning { text: Seq<char>, signature: Option<Seq<char>> },
    ToolUse { id: Seq<char>, name: Seq<char>, input: Seq<char> },
    ToolResult { tool_use_id: Seq<char>, content: Seq<char>, is_error: bool },
}

/// The value of a block.
pub open spec fn content_view(c: Content) -> ContentView {
    match c {
        Content::Text(t) => ContentView::Text(t@),
        Content::Reasoning { text, signature } => ContentView::Reasoning {
            text: text@,
            signature: match signature {
                Some(s) => Some(s@),
                None => None,
            },
        },
        Content::ToolUse(u) => ContentView::ToolUse { id: u.id@, name: u.name@, input: u.input@ },
        Content::ToolResult(r) => ContentView::ToolResult {
            tool_use_id: r.tool_use_id@,
            content: r.content@,
            is_error: r.is_error,
        },
    }
}

/// The value of every block, in order.
pub open spec fn content_views(content: Seq<Content>) -> Seq<ContentView> {
    content.map_values(|c: Content| content_view(c))
}

/// A copy of every block, in order.
pub fn clone_contents(v: &Vec<Content>) -> (r: Vec<Content>)
    ensures
        r@ == v@,
{
    let mut r: Vec<Content> = Vec::new();
    let mut i: usize = 0;
    while i < v.len()
        invariant
            i <= v.len(),
            r@ == v@.take(i as int),
        decreases v.len() - i,
    {
        r.push(v[i].clone());
        i = i + 1;
        assert(r@ =~= v@.take(i as int));
    }
    assert(v@.take(v.len() as int) =~= v@);
    r
}

/// One turn in a conversation.
#[derive(Debug, PartialEq, Eq)]
pub struct Message {
    /// Who produced it.
    pub role: Role,
    /// Its blocks, in order.
    pub content: Vec<Content>,
}

/// A message as a value: its role and its blocks.
pub struct MessageView {
    pub role: Role,
    pub content: Seq<Content>,
}

impl View for Message {
    type V = MessageView;

    open spec fn view(&self) -> MessageView {
        MessageView { role: self.role, content: self.content@ }
    }
}

/// Every message's value, in order.
pub open spec fn views_of(msgs: Seq<Message>) -> Seq<MessageView> {
    msgs.map_values(|m: Message| m@)
}

impl Clone for Message {
    fn clone(&self) -> (r: Self)
        ensures
            r@ == self@,
    {
        Message { role: self.role, content: clone_contents(&self.content) }
    }
}

/// A copy of every message, in order.
pub fn clone_messages(v: &Vec<Message>) -> (r: Vec<Message>)
    ensures
        views_of(r@) == views_of(v@),
{
    let mut r: Vec<Message> = Vec::new();
    let mut i: usize = 0;
    while i < v.len()
        invariant
            i <= v.len(),
            r@.len() == i,
            views_of(r@) == views_of(v@).take(i as int),
        decreases v.len() - i,
    {
        let m = v[i].clone();
        let ghost before = r@;
        r.push(m);
        proof {
            assert(r@ == before.push(m));
            assert forall|k: int| 0 <= k < r@.len() implies #[trigger] views_of(r@)[k]
                == views_of(v@).take(i + 1)[k] by {
                if k < before.len() {
                    assert(views_of(before)[k] == views_of(v@).take(i as int)[k]);
                    assert(r@[k] == before[k]);
                } else {
                    assert(k == i);
                    assert(r@[k] == m);
                    assert(m@ == v@[k]@);
                    assert(views_of(v@)[k] == v@[k]@);
                    assert(views_of(r@)[k] == r@[k]@);
                }
            }
        }
        i = i + 1;
        assert(views_of(r@) =~= views_of(v@).take(i as int));
    }
    assert(views_of(v@).take(v.len() as int) =~= views_of(v@));
    r
}

/// The texts of the text blocks in `content`, in order.
pub open spec fn text_blocks(content: Seq<Content>) -> Seq<Seq<char>>
    decreases content.len(),
{
    if content.len() == 0 {
        Seq::empty()
    } else {
        let rest = text_blocks(content.drop_last());
        match content.last() {
            Content::Text(t) => rest.push(t@),
            _ => rest,
        }
    }
}

/// The tool uses in `content`, in order.
pub open spec fn tool_uses_in(content: Seq<Content>) -> Seq<ToolUse>
    decreases content.len(),
{
    if content.len() == 0 {
        Seq::empty()
    } else {
        let rest = tool_uses_in(content.drop_last());
        match content.last() {
            Content::ToolUse(u) => rest.push(u),
            _ => rest,
        }
    }
}

/// Whether `content` holds at least one tool-use block.
pub open spec fn has_tool_use(content: Seq<Content>) -> bool {
    exists|i: int| 0 <= i < content.len() && content[i] is ToolUse
}

/// The rendered text of `content`: its text blocks joined by newlines.
pub open spec fn rendered_text(content: Seq<Content>) -> Seq<char> {
    join(text_blocks(content), seq!['\n'])
}

/// A message with a single text block, as a value.
pub open spec fn text_message(role: Role, text: Seq<char>, m: Message) -> bool {
    &&& m.role == role
    &&& m.content@.len() == 1
    &&& m.content@[0] matches Content::Text(t) && t@ == text
}

/// The text blocks of `content` joined by newlines, excluding reasoning
/// and tool blocks.
pub fn content_text(content: &Vec<Content>) -> (r: String)
    ensures
        r@ == rendered_text(content@),
{
    let mut texts: Vec<String> = Vec::new();
    let mut i: usize = 0;
    while i < content.len()
        invariant
            i <= content@.len(),
            texts@.map_values(|p: String| p@) == text_blocks(content@.take(i as int)),
        decreases content.len() - i,
    {
        assert(content@.take(i + 1).drop_last() =~= content@.take(i as int));
        match &content[i] {
            Content::Text(t) => {
                let ghost before = texts@;
                texts.push(t.clone());
                assert(texts@.map_values(|p: String| p@) =~= before.map_values(
                    |p: String| p@,
                ).push(t@));
            },
            _ => {},
        }
        i = i + 1;
    }
    assert(content@.take(content.len() as int) =~= content@);
    proof {
        reveal_strlit("\n");
        assert("\n"@ =~= seq!['\n']);
    }
    join_strings(&texts, "\n")
}

impl Message {
    /// A message with a single text block.
    pub fn text(role: Role, text: &str) -> (m: Self)
        ensures
            text_message(role, text@, m),
    {
        let mut content: Vec<Content> = Vec::new();
        content.push(Content::Text(owned(text)));
        Message { role, content }
    }

    /// A system message.
    pub fn system(text: &str) -> (m: Self)
        ensures
            text_message(Role::System, text@, m),
    {
        Self::text(Role::System, text)
    }

    /// A user message.
    pub fn user(text: &str) -> (m: Self)
        ensures
            text_message(Role::User, text@, m),
    {
        Self::text(Role::User, text)
    }

    /// An assistant message.
    pub fn assistant(text: &str) -> (m: Self)
        ensures
            text_message(Role::Assistant, text@, m),
    {
        Self::text(Role::Assistant, text)
    }

    /// A user message carrying tool results, one block per result, in
    /// order.
    pub fn tool_results(results: Vec<ToolResult>) -> (m: Self)
        ensures
            m.role == Role::User,
            m.content@.len() == results@.len(),
            forall|i: int|
                0 <= i < results@.len() ==> m.content@[i] == Content::ToolResult(
                    #[trigger] results@[i],
                ),
    {
        let mut content: Vec<Content> = Vec::new();
        let mut rest = results;
        let ghost all = rest@;
        let mut taken: usize = 0;
        // Drain from the back, then restore order.
        let mut reversed: Vec<ToolResult> = Vec::new();
        while rest.len() > 0
            invariant
                reversed@.len() + rest@.len() == all.len(),
                rest@ == all.take(rest@.len() as int),
                forall|k: int|
                    0 <= k < reversed@.len() ==> #[trigger] reversed@[k] == all[all.len() - 1 - k],
            decreases rest.len(),
        {
            let r = rest.pop().unwrap();
            reversed.push(r);
        }
        while reversed.len() > 0
            invariant
                reversed@.len() + content@.len() == all.len(),
                forall|k: int|
                    0 <= k < reversed@.len() ==> #[trigger] reversed@[k] == all[all.len() - 1 - k],
                forall|k: int|
                    0 <= k < content@.len() ==> #[trigger] content@[k] == Content::ToolResult(all[k]),
            decreases reversed.len(),
        {
            let r = reversed.pop().unwrap();
            content.push(Content::ToolResult(r));
        }
        Message { role: Role::User, content }
    }

    /// Every tool the model asked for in this message, in order.
    pub fn tool_uses(&self) -> (r: Vec<&ToolUse>)
        ensures
            r@.len() == tool_uses_in(self.content@).len(),
            forall|i: int|
                0 <= i < r@.len() ==> *#[trigger] r@[i] == tool_uses_in(self.content@)[i],
    {
        let mut r: Vec<&ToolUse> = Vec::new();
        let mut i: usize = 0;
        while i < self.content.len()
            invariant
                i <= self.content@.len(),
                r@.len() == tool_uses_in(self.content@.take(i as int)).len(),
                forall|k: int|
                    0 <= k < r@.len() ==> *#[trigger] r@[k] == tool_uses_in(
                        self.content@.take(i as int),
                    )[k],
            decreases self.content.len() - i,
        {
            assert(self.content@.take(i + 1).drop_last() =~= self.content@.take(i as int));
            match &self.content[i] {
                Content::ToolUse(u) => {
                    r.push(u);
                },
                _ => {},
            }
            i = i + 1;
        }
        assert(self.content@.take(self.content.len() as int) =~= self.content@);
        r
    }

    /// The message's text blocks joined by newlines, excluding reasoning.
    ///
    /// Empty for a message that is only tool use — a real case, not a
    /// defect.
    pub fn text_content(&self) -> (r: String)
        ensures
            r@ == rendered_text(self.content@),
    {
        content_text(&self.content)
    }

    /// Whether this message asks for at least one tool — the turn loop's
    /// continue-or-stop signal.
    pub fn requests_tools(&self) -> (b: bool)
        ensures
            b == has_tool_use(self.content@),
    {
        let mut i: usize = 0;
        while i < self.content.len()
            invariant
                i <= self.content@.len(),
                forall|k: int| 0 <= k < i ==> !(self.content@[k] is ToolUse),
            decreases self.content.len() - i,
        {
            if let Content::ToolUse(_) = &self.content[i] {
                return true;
            }
            i = i + 1;
        }
        false
    }
}

} // verus!
