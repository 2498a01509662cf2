//! The chat-completion data model: messages, tool calls, responses, usage
//! and stream chunks.
use vstd::prelude::*;
use crate::json::Json;
use crate::types::TokenUsage;

verus! {

/// Role of a message's sender.
#[derive(Debug, Clone, Copy, PartialEq, Eq, Structural)]
pub enum Role {
    System,
    User,
    Assistant,
    Tool,
}

/// Details of a function the model calls; the arguments are JSON text.
#[derive(Debug)]
pub struct FunctionCall {
    /// Function name.
    pub name: String,
    /// Arguments, as JSON text.
    pub arguments: String,
}

/// A tool call requested by the model.
#[derive(Debug)]
pub struct ToolCall {
    /// Call id.
    pub id: String,
    /// Kind of tool (`function`).
    pub tool_type: String,
    /// The function called.
    pub function: FunctionCall,
}

/// Mathematical view of a tool call: id, kind, function name, arguments.
pub type ToolCallView = (Seq<char>, Seq<char>, Seq<char>, Seq<char>);

impl View for ToolCall {
    type V = ToolCallView;

    open spec fn view(&self) -> ToolCallView {
        (self.id@, self.tool_type@, self.function.name@, self.function.arguments@)
    }
}

impl Clone for ToolCall {
    fn clone(&self) -> (r: Self)
        ensures
            r@ == self@,
    {
        ToolCall {
            id: self.id.clone(),
            tool_type: self.tool_type.clone(),
            function: FunctionCall {
                name: self.function.name.clone(),
                arguments: self.function.arguments.clone(),
            },
        }
    }
}

/// Views of tool calls.
pub open spec fn tool_call_views(v: Seq<ToolCall>) -> Seq<ToolCallView> {
    v.map_values(|t: ToolCall| t@)
}

fn copy_tool_calls(v: &Vec<ToolCall>) -> (r: Vec<ToolCall>)
    ensures
        tool_call_views(r@) == tool_call_views(v@),
{
    let mut r: Vec<ToolCall> = Vec::new();
    let mut i: usize = 0;
    while i < v.len()
        invariant
            i <= v@.len(),
            tool_call_views(r@) == tool_call_views(v@).take(i as int),
        decreases v@.len() - i,
    {
        let ghost before = tool_call_views(r@);
        r.push(v[i].clone());
        assert(tool_call_views(r@) =~= before.push(v@[i as int]@));
        assert(tool_call_views(v@).take(i + 1) =~= tool_call_views(v@).take(i as int).push(
            v@[i as int]@,
        ));
        i = i + 1;
    }
    assert(tool_call_views(v@).take(v@.len() as int) =~= tool_call_views(v@));
    r
}

/// A message of a conversation.
#[derive(Debug)]
pub struct Message {
    /// Sender's role.
    pub role: Role,
    /// Text.
    pub content: String,
    /// Sender's name.
    pub name: Option<String>,
    /// Tool calls of an assistant message.
    pub tool_calls: Option<Vec<ToolCall>>,
    /// The call a tool message answers.
    pub tool_call_id: Option<String>,
}

/// Mathematical view of a message.
pub struct MessageView {
    pub role: Role,
    pub content: Seq<char>,
    pub name: Option<Seq<char>>,
    pub tool_calls: Option<Seq<ToolCallView>>,
    pub tool_call_id: Option<Seq<char>>,
}

impl View for Message {
    type V = MessageView;

    open spec fn view(&self) -> MessageView {
        MessageView {
            role: self.role,
            content: self.content@,
            name: match self.name {
                Some(n) => Some(n@),
                None => None,
            },
            tool_calls: match self.tool_calls {
                Some(v) => Some(tool_call_views(v@)),
                None => None,
            },
            tool_call_id: match self.tool_call_id {
                Some(n) => Some(n@),
                None => None,
            },
        }
    }
}

impl Clone for Message {
    fn clone(&self) -> (r: Self)
        ensures
            r@ == self@,
    {
        Message {
            role: self.role,
            content: self.content.clone(),
            name: match &self.name {
                Some(n) => Some(n.clone()),
                None => None,
            },
            tool_calls: match &self.tool_calls {
                Some(v) => Some(copy_tool_calls(v)),
                None => None,
            },
            tool_call_id: match &self.tool_call_id {
                Some(n) => Some(n.clone()),
                None => None,
            },
        }
    }
}

/// A plain message of `role` holding `content`.
pub open spec fn plain(role: Role, content: Seq<char>) -> MessageView {
    MessageView { role, content, name: None, tool_calls: None, tool_call_id: None }
}

impl Message {
    /// A system message.
    pub fn system(content: String) -> (m: Message)
        ensures
            m@ == plain(Role::System, content@),
    {
        Message { role: Role::System, content, name: None, tool_calls: None, tool_call_id: None }
    }

    /// A user message.
    pub fn user(content: String) -> (m: Message)
        ensures
            m@ == plain(Role::User, content@),
    {
        Message { role: Role::User, content, name: None, tool_calls: None, tool_call_id: None }
    }

    /// An assistant message.
    pub fn assistant(content: String) -> (m: Message)
        ensures
            m@ == plain(Role::Assistant, content@),
    {
        Message { role: Role::Assistant, content, name: None, tool_calls: None, tool_call_id: None }
    }

    /// A tool message answering call `tool_call_id`.
    pub fn tool(content: String, tool_call_id: String) -> (m: Message)
        ensures
            m@ == (MessageView { tool_call_id: Some(tool_call_id@), ..plain(Role::Tool, content@) }),
    {
        Message {
            role: Role::Tool,
            content,
            name: None,
            tool_calls: None,
            tool_call_id: Some(tool_call_id),
        }
    }
}

/// A function the model may call.
#[derive(Debug)]
pub struct FunctionDefinition {
    /// Function name.
    pub name: String,
    /// What it does.
    pub description: String,
    /// JSON Schema of its parameters.
    pub parameters: Json,
}

/// A tool offered to the model.
#[derive(Debug)]
pub struct ToolDefinition {
    /// Kind of tool (`function`).
    pub tool_type: String,
    /// The function.
    pub function: FunctionDefinition,
}

/// A specific function the model must call.
#[derive(Debug, Clone)]
pub struct FunctionChoice {
    /// Function name.
    pub name: String,
}

/// How the model may call tools.
#[derive(Debug, Clone)]
pub enum ToolChoice {
    /// The model decides.
    Auto,
    /// No tool calls (serialized as `none`).
    Disabled,
    /// A tool call is required.
    Required,
    /// This function must be called.
    Function { function: FunctionChoice },
}

/// Token usage reported by the API.
#[derive(Debug, Clone, Copy, PartialEq, Eq, Structural)]
pub struct Usage {
    /// Prompt tokens.
    pub prompt_tokens: u64,
    /// Completion tokens.
    pub completion_tokens: u64,
    /// Total tokens.
    pub total_tokens: u64,
}

/// One choice of a completion.
#[derive(Debug)]
pub struct Choice {
    /// Position of the choice.
    pub index: u32,
    /// The message.
    pub message: Message,
    /// Why generation stopped.
    pub finish_reason: Option<String>,
}

/// A completion.
#[derive(Debug)]
pub struct CompletionResponse {
    /// Completion id.
    pub id: String,
    /// Model used.
    pub model: String,
    /// Choices.
    pub choices: Vec<Choice>,
    /// Token usage.
    pub usage: Usage,
}

impl CompletionResponse {
    /// The text of the first choice, or empty text when there is none.
    pub fn first_content(&self) -> (s: String)
        ensures
            self.choices@.len() > 0 ==> s@ == self.choices@[0].message.content@,
            self.choices@.len() == 0 ==> s@ == Seq::<char>::empty(),
    {
        if self.choices.len() > 0 {
            self.choices[0].message.content.clone()
        } else {
            String::new()
        }
    }
}

impl From<Usage> for TokenUsage {
    /// The usage of one call: its prompt and completion tokens, the total
    /// recomputed (saturating).
    fn from(usage: Usage) -> (t: TokenUsage) {
        TokenUsage::new(usage.prompt_tokens, usage.completion_tokens)
    }
}

impl vstd::std_specs::convert::FromSpecImpl<Usage> for TokenUsage {
    open spec fn obeys_from_spec() -> bool {
        true
    }

    open spec fn from_spec(usage: Usage) -> TokenUsage {
        TokenUsage {
            prompt_tokens: usage.prompt_tokens,
            completion_tokens: usage.completion_tokens,
            total_tokens: if usage.prompt_tokens + usage.completion_tokens <= u64::MAX {
                (usage.prompt_tokens + usage.completion_tokens) as u64
            } else {
                u64::MAX
            },
        }
    }
}

/// Incremental content of a stream chunk.
#[derive(Debug)]
pub struct Delta {
    /// Role (first chunk only).
    pub role: Option<Role>,
    /// Text delta.
    pub content: Option<String>,
    /// Tool call delta.
    pub tool_calls: Option<Vec<ToolCall>>,
}

/// One choice of a stream chunk.
#[derive(Debug)]
pub struct StreamChoice {
    /// Position of the choice.
    pub index: u32,
    /// The delta.
    pub delta: Delta,
    /// Why generation stopped.
    pub finish_reason: Option<String>,
}

/// A chunk of a streamed completion.
#[derive(Debug)]
pub struct StreamChunk {
    /// Completion id.
    pub id: String,
    /// Model used.
    pub model: String,
    /// Choices.
    pub choices: Vec<StreamChoice>,
}

} // verus!
