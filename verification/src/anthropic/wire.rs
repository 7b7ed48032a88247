//! The requests and responses of the Messages API, and the events of its stream.
use crate::chat::CacheControl;
use crate::json::{Json, Value};
use crate::text;
use vstd::prelude::*;

verus! {

// ---------------------------------------------------------------------------
// Requests
// ---------------------------------------------------------------------------

/// How the model is to think before it answers.
#[derive(Debug, Clone, PartialEq, Eq)]
pub struct ThinkingConfig {
    pub thinking_type: String,
    pub budget_tokens: u32,
}

impl ThinkingConfig {
    /// Thinking within the given budget.
    pub fn enabled(budget_tokens: u32) -> (r: Self)
        ensures
            r.thinking_type@ == "enabled"@,
            r.budget_tokens == budget_tokens,
    {
        ThinkingConfig { thinking_type: "enabled".to_string(), budget_tokens }
    }
}

/// A request. There is no temperature in it: newer models reject the field.
#[derive(Debug)]
pub struct AnthropicRequest {
    pub model: String,
    pub max_tokens: u32,
    pub messages: Vec<AnthropicMessage>,
    pub system: Option<String>,
    pub tools: Option<Vec<AnthropicTool>>,
    pub stream: bool,
    pub thinking: Option<ThinkingConfig>,
}

/// A tool that the model may call.
#[derive(Debug)]
pub struct AnthropicTool {
    pub name: String,
    pub description: String,
    pub input_schema: AnthropicToolInputSchema,
}

/// The schema of the input of a tool.
#[derive(Debug)]
pub struct AnthropicToolInputSchema {
    pub schema_type: String,
    pub properties: Json,
    pub required: Option<Vec<String>>,
}

/// One message of the conversation.
#[derive(Debug)]
pub struct AnthropicMessage {
    pub role: String,
    pub content: Vec<AnthropicContent>,
}

/// A content block of a message.
#[derive(Debug)]
pub enum AnthropicContent {
    Text { text: String, cache_control: Option<CacheControl> },
    Thinking { thinking: String, signature: Option<String> },
    ToolUse { id: String, name: String, input: Json },
    Image { source: AnthropicImageSource },
    ToolResult {
        tool_use_id: String,
        content: ToolResultContent,
        cache_control: Option<CacheControl>,
    },
}

/// Content for a tool_result block. Can be either a simple string or an array
/// of content blocks (text + images). The array form is for when images are
/// present.
#[derive(Debug)]
pub enum ToolResultContent {
    /// Simple text content
    Text(String),
    /// Structured content blocks
    Blocks(Vec<ToolResultBlock>),
}

/// A content block inside a tool_result's content array.
#[derive(Debug)]
pub enum ToolResultBlock {
    Image { source: AnthropicImageSource },
    Text { text: String },
}

/// The source of an image.
#[derive(Debug)]
pub struct AnthropicImageSource {
    /// Always "base64"
    pub source_type: String,
    /// For example "image/png" or "image/jpeg"
    pub media_type: String,
    /// The image, in base64
    pub data: String,
}

// ---------------------------------------------------------------------------
// Responses
// ---------------------------------------------------------------------------

/// A response.
#[derive(Debug)]
pub struct AnthropicResponse {
    pub content: Vec<AnthropicContent>,
    pub model: String,
    pub usage: AnthropicUsage,
}

/// What an exchange has cost, as the API reports it.
#[derive(Debug, Clone, Copy, PartialEq, Eq, Structural)]
pub struct AnthropicUsage {
    pub input_tokens: u32,
    pub output_tokens: u32,
    /// Tokens written to cache when creating a new cache entry
    pub cache_creation_input_tokens: u32,
    /// Tokens retrieved from cache (cache hit)
    pub cache_read_input_tokens: u32,
}

/// One event of a stream.
#[derive(Debug)]
pub struct AnthropicStreamEvent {
    pub event_type: String,
    pub delta: Option<AnthropicDelta>,
    pub error: Option<AnthropicError>,
    pub content_block: Option<AnthropicContent>,
    pub message: Option<AnthropicStreamMessage>,
}

/// The message that a stream starts with.
#[derive(Debug)]
pub struct AnthropicStreamMessage {
    pub usage: Option<AnthropicUsage>,
}

/// What a stream adds to a content block or a message.
#[derive(Debug)]
pub struct AnthropicDelta {
    pub text: Option<String>,
    pub partial_json: Option<String>,
    pub stop_reason: Option<String>,
}

/// An error that the API reports.
#[derive(Debug, Clone, PartialEq, Eq)]
pub struct AnthropicError {
    pub error_type: String,
    pub message: String,
}

// ---------------------------------------------------------------------------
// What they say
// ---------------------------------------------------------------------------

/// The source of an image, in terms of its text.
pub struct Source {
    pub source_type: Seq<char>,
    pub media_type: Seq<char>,
    pub data: Seq<char>,
}

impl View for AnthropicImageSource {
    type V = Source;

    open spec fn view(&self) -> Source {
        Source {
            source_type: self.source_type@,
            media_type: self.media_type@,
            data: self.data@,
        }
    }
}

/// A block inside a tool result, in terms of its text.
pub enum ResultBlock {
    Image(Source),
    Text(Seq<char>),
}

impl View for ToolResultBlock {
    type V = ResultBlock;

    open spec fn view(&self) -> ResultBlock {
        match *self {
            ToolResultBlock::Image { source } => ResultBlock::Image(source@),
            ToolResultBlock::Text { text } => ResultBlock::Text(text@),
        }
    }
}

/// The content of a tool result, in terms of its text.
pub enum ResultContent {
    Text(Seq<char>),
    Blocks(Seq<ResultBlock>),
}

impl View for ToolResultContent {
    type V = ResultContent;

    open spec fn view(&self) -> ResultContent {
        match *self {
            ToolResultContent::Text(text) => ResultContent::Text(text@),
            ToolResultContent::Blocks(blocks) => ResultContent::Blocks(
                blocks@.map_values(|b: ToolResultBlock| b@),
            ),
        }
    }
}

/// A content block, in terms of its text.
pub enum Block {
    Text { text: Seq<char>, cache_control: Option<CacheControl> },
    Thinking { thinking: Seq<char>, signature: Option<Seq<char>> },
    ToolUse { id: Seq<char>, name: Seq<char>, input: Value },
    Image(Source),
    ToolResult {
        tool_use_id: Seq<char>,
        content: ResultContent,
        cache_control: Option<CacheControl>,
    },
}

impl View for AnthropicContent {
    type V = Block;

    open spec fn view(&self) -> Block {
        match *self {
            AnthropicContent::Text { text, cache_control } => Block::Text {
                text: text@,
                cache_control,
            },
            AnthropicContent::Thinking { thinking, signature } => Block::Thinking {
                thinking: thinking@,
                signature: text::optional_string(signature),
            },
            AnthropicContent::ToolUse { id, name, input } => Block::ToolUse {
                id: id@,
                name: name@,
                input: input@,
            },
            AnthropicContent::Image { source } => Block::Image(source@),
            AnthropicContent::ToolResult { tool_use_id, content, cache_control } =>
                Block::ToolResult { tool_use_id: tool_use_id@, content: content@, cache_control },
        }
    }
}

/// A message on the wire, in terms of its text.
pub struct Turn {
    pub role: Seq<char>,
    pub content: Seq<Block>,
}

/// The content blocks, in terms of their text.
pub open spec fn blocks(content: Seq<AnthropicContent>) -> Seq<Block> {
    content.map_values(|c: AnthropicContent| c@)
}

impl View for AnthropicMessage {
    type V = Turn;

    open spec fn view(&self) -> Turn {
        Turn { role: self.role@, content: blocks(self.content@) }
    }
}

/// The messages, in terms of their text.
pub open spec fn turns(messages: Seq<AnthropicMessage>) -> Seq<Turn> {
    messages.map_values(|m: AnthropicMessage| m@)
}

/// A tool, in terms of its text.
pub struct ToolText {
    pub name: Seq<char>,
    pub description: Seq<char>,
    pub schema_type: Seq<char>,
    pub properties: Value,
    pub required: Option<Seq<Seq<char>>>,
}

/// The texts that the strings hold, where there are any.
pub open spec fn optional_texts(strings: Option<Vec<String>>) -> Option<Seq<Seq<char>>> {
    match strings {
        Some(strings) => Some(text::texts(strings@)),
        None => None,
    }
}

impl View for AnthropicTool {
    type V = ToolText;

    open spec fn view(&self) -> ToolText {
        ToolText {
            name: self.name@,
            description: self.description@,
            schema_type: self.input_schema.schema_type@,
            properties: self.input_schema.properties@,
            required: optional_texts(self.input_schema.required),
        }
    }
}

/// The tools, in terms of their text.
pub open spec fn tool_texts(tools: Seq<AnthropicTool>) -> Seq<ToolText> {
    tools.map_values(|t: AnthropicTool| t@)
}

/// A request, in terms of its text.
pub struct RequestText {
    pub model: Seq<char>,
    pub max_tokens: u32,
    pub messages: Seq<Turn>,
    pub system: Option<Seq<char>>,
    pub tools: Option<Seq<ToolText>>,
    pub stream: bool,
    /// The kind of thinking and its budget
    pub thinking: Option<(Seq<char>, u32)>,
}

impl View for AnthropicRequest {
    type V = RequestText;

    open spec fn view(&self) -> RequestText {
        RequestText {
            model: self.model@,
            max_tokens: self.max_tokens,
            messages: turns(self.messages@),
            system: text::optional_string(self.system),
            tools: match self.tools {
                Some(tools) => Some(tool_texts(tools@)),
                None => None,
            },
            stream: self.stream,
            thinking: match self.thinking {
                Some(thinking) => Some((thinking.thinking_type@, thinking.budget_tokens)),
                None => None,
            },
        }
    }
}

// ---------------------------------------------------------------------------
// Laws
// ---------------------------------------------------------------------------

/// An image source says all that it holds.
pub proof fn law_source_tells_all(source: AnthropicImageSource)
    ensures
        source@.source_type == source.source_type@,
        source@.media_type == source.media_type@,
        source@.data == source.data@,
{
}

/// The content of a tool result says all that it holds, block by block.
pub proof fn law_result_content_tells_all(content: ToolResultContent, i: int)
    ensures
        content matches ToolResultContent::Text(text) ==> content@ == ResultContent::Text(text@),
        content matches ToolResultContent::Blocks(blocks) ==> (content@ matches
            ResultContent::Blocks(told) && told.len() == blocks@.len() && (0 <= i < told.len() ==> {
            &&& blocks@[i] matches ToolResultBlock::Image { source } ==> told[i]
                == ResultBlock::Image(source@)
            &&& blocks@[i] matches ToolResultBlock::Text { text } ==> told[i]
                == ResultBlock::Text(text@)
        })),
{
}

/// A content block says all that it holds.
pub proof fn law_block_tells_all(content: AnthropicContent)
    ensures
        content matches AnthropicContent::Text { text, cache_control } ==> content@
            == (Block::Text { text: text@, cache_control }),
        content matches AnthropicContent::Thinking { thinking, signature } ==> content@
            == (Block::Thinking {
            thinking: thinking@,
            signature: match signature {
                Some(s) => Some(s@),
                None => None,
            },
        }),
        content matches AnthropicContent::ToolUse { id, name, input } ==> content@
            == (Block::ToolUse { id: id@, name: name@, input: input@ }),
        content matches AnthropicContent::Image { source } ==> content@ == Block::Image(source@),
        content matches AnthropicContent::ToolResult { tool_use_id, content: inside, cache_control }
            ==> content@ == (Block::ToolResult {
            tool_use_id: tool_use_id@,
            content: inside@,
            cache_control,
        }),
{
}

/// A message says who speaks, and all of its blocks in their order.
pub proof fn law_turn_tells_all(message: AnthropicMessage, i: int)
    ensures
        message@.role == message.role@,
        message@.content.len() == message.content@.len(),
        0 <= i < message.content@.len() ==> message@.content[i] == message.content@[i]@,
{
}

/// Messages say what each of them says, in their order.
pub proof fn law_turns_one_by_one(messages: Seq<AnthropicMessage>, i: int)
    ensures
        turns(messages).len() == messages.len(),
        0 <= i < messages.len() ==> turns(messages)[i] == messages[i]@,
{
}

/// A tool says all that it holds.
pub proof fn law_tool_tells_all(tool: AnthropicTool, i: int)
    ensures
        tool@.name == tool.name@,
        tool@.description == tool.description@,
        tool@.schema_type == tool.input_schema.schema_type@,
        tool@.properties == tool.input_schema.properties@,
        tool.input_schema.required is None <==> tool@.required is None,
        tool.input_schema.required matches Some(names) ==> (tool@.required matches Some(told)
            && told.len() == names@.len() && (0 <= i < names@.len() ==> told[i] == names@[i]@)),
{
}

/// A request says all that it holds.
pub proof fn law_request_tells_all(request: AnthropicRequest, i: int)
    ensures
        request@.model == request.model@,
        request@.max_tokens == request.max_tokens,
        request@.messages == turns(request.messages@),
        request.system is None <==> request@.system is None,
        request.system matches Some(system) ==> request@.system == Some(system@),
        request.tools is None <==> request@.tools is None,
        request.tools matches Some(tools) ==> (request@.tools matches Some(told) && told.len()
            == tools@.len() && (0 <= i < tools@.len() ==> told[i] == tools@[i]@)),
        request@.stream == request.stream,
        request.thinking is None <==> request@.thinking is None,
        request.thinking matches Some(thinking) ==> request@.thinking == Some(
            (thinking.thinking_type@, thinking.budget_tokens),
        ),
{
}

} // verus!
