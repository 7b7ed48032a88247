//! What a conversation is made of, whatever model it is held with.
use crate::json::{self, Json, Value};
use vstd::prelude::*;

verus! {

/// Who speaks.
#[derive(Debug, Clone, Copy, PartialEq, Eq, Structural)]
pub enum MessageRole {
    System,
    User,
    Assistant,
}

/// How a part of a prompt is to be cached.
#[derive(Debug, PartialEq, Eq)]
pub struct CacheControl {
    pub cache_type: String,
}

impl CacheControl {
    /// Caching for a short while.
    pub fn ephemeral() -> (r: Self)
        ensures
            r.cache_type@ == "ephemeral"@,
    {
        CacheControl { cache_type: String::from("ephemeral") }
    }
}

impl Clone for CacheControl {
    fn clone(&self) -> (r: Self)
        ensures
            r == *self,
    {
        CacheControl { cache_type: self.cache_type.clone() }
    }
}

/// An image, in base64.
#[derive(Debug, Clone, PartialEq, Eq)]
pub struct ImageContent {
    pub media_type: String,
    pub data: String,
}

impl ImageContent {
    /// An image of the given media type.
    pub fn new(media_type: &str, data: String) -> (r: Self)
        ensures
            r.media_type@ == media_type@,
            r.data == data,
    {
        ImageContent { media_type: String::from(media_type), data }
    }
}

/// A tool call that the assistant made.
#[derive(Debug, Clone, PartialEq, Eq)]
pub struct MessageToolCall {
    pub id: String,
    pub name: String,
    pub input: Json,
}

/// One message of a conversation.
#[derive(Debug, Clone, PartialEq, Eq)]
pub struct Message {
    pub role: MessageRole,
    pub content: String,
    /// Images that come with the message
    pub images: Vec<ImageContent>,
    /// Tool calls that the assistant made
    pub tool_calls: Vec<MessageToolCall>,
    /// The tool call that this message answers
    pub tool_result_id: Option<String>,
    pub cache_control: Option<CacheControl>,
}

impl Message {
    /// A message that holds nothing but text.
    pub fn new(role: MessageRole, content: String) -> (r: Self)
        ensures
            r.role == role,
            r.content == content,
            r.images@.len() == 0,
            r.tool_calls@.len() == 0,
            r.tool_result_id is None,
            r.cache_control is None,
    {
        Message {
            role,
            content,
            images: Vec::new(),
            tool_calls: Vec::new(),
            tool_result_id: None,
            cache_control: None,
        }
    }

    /// A message that holds nothing but text, which is to be cached.
    pub fn with_cache_control(
        role: MessageRole,
        content: String,
        cache_control: CacheControl,
    ) -> (r: Self)
        ensures
            r.role == role,
            r.content == content,
            r.images@.len() == 0,
            r.tool_calls@.len() == 0,
            r.tool_result_id is None,
            r.cache_control == Some(cache_control),
    {
        Message {
            role,
            content,
            images: Vec::new(),
            tool_calls: Vec::new(),
            tool_result_id: None,
            cache_control: Some(cache_control),
        }
    }
}

/// A tool that the model may call.
#[derive(Debug, Clone, PartialEq, Eq)]
pub struct Tool {
    pub name: String,
    pub description: String,
    /// The schema of the input
    pub input_schema: Json,
}

/// The arguments of a tool call.
#[derive(Debug, PartialEq, Eq)]
pub enum Arguments {
    /// A value that came as a whole
    Given(Json),
    /// Text that spells a value, put together from the pieces that it came in
    Spelled(String),
}

/// The arguments of a tool call, in terms of their text.
pub enum Args {
    Given(Value),
    Spelled(Seq<char>),
}

impl View for Arguments {
    type V = Args;

    open spec fn view(&self) -> Args {
        match *self {
            Arguments::Given(value) => Args::Given(value@),
            Arguments::Spelled(s) => Args::Spelled(s@),
        }
    }
}

impl Clone for Arguments {
    fn clone(&self) -> (r: Self)
        ensures
            r@ == self@,
    {
        match self {
            Arguments::Given(value) => Arguments::Given(value.clone()),
            Arguments::Spelled(s) => Arguments::Spelled(s.clone()),
        }
    }
}

/// Whether the arguments are a well-formed value, or text that spells one.
pub open spec fn args_well_formed(args: Args) -> bool {
    match args {
        Args::Given(value) => json::well_formed(value),
        Args::Spelled(s) => json::is_json(s),
    }
}

/// A tool call that came in.
#[derive(Debug, PartialEq, Eq)]
pub struct ToolCall {
    pub id: String,
    pub tool: String,
    pub args: Arguments,
}

impl Clone for ToolCall {
    fn clone(&self) -> (r: Self)
        ensures
            r@ == self@,
    {
        ToolCall { id: self.id.clone(), tool: self.tool.clone(), args: self.args.clone() }
    }
}

/// A tool call, in terms of its text.
pub struct Call {
    pub id: Seq<char>,
    pub tool: Seq<char>,
    pub args: Args,
}

impl View for ToolCall {
    type V = Call;

    open spec fn view(&self) -> Call {
        Call { id: self.id@, tool: self.tool@, args: self.args@ }
    }
}

/// What an exchange has cost, in tokens.
#[derive(Debug, Clone, Copy, PartialEq, Eq, Structural)]
pub struct Usage {
    pub prompt_tokens: u32,
    pub completion_tokens: u32,
    pub total_tokens: u32,
    /// Tokens written to the cache
    pub cache_creation_tokens: u32,
    /// Tokens read from the cache
    pub cache_read_tokens: u32,
}

/// What a model is asked.
#[derive(Debug, Clone)]
pub struct CompletionRequest {
    pub messages: Vec<Message>,
    pub max_tokens: Option<u32>,
    pub stream: bool,
    pub tools: Option<Vec<Tool>>,
    /// Answer without thinking first, though the model could
    pub disable_thinking: bool,
}

/// What a model has answered.
#[derive(Debug, Clone, PartialEq, Eq)]
pub struct CompletionResponse {
    pub content: String,
    pub usage: Usage,
    pub model: String,
}

// ---------------------------------------------------------------------------
// Laws
// ---------------------------------------------------------------------------

/// A tool call says all that it holds: its id, its tool, and its arguments in
/// the form in which they came.
pub proof fn law_call_tells_all(call: ToolCall)
    ensures
        call@.id == call.id@,
        call@.tool == call.tool@,
        call.args matches Arguments::Given(value) ==> call@.args == Args::Given(value@),
        call.args matches Arguments::Spelled(s) ==> call@.args == Args::Spelled(s@),
{
}

} // verus!
