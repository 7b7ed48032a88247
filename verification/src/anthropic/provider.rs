//! The provider: its settings, the requests that it sends and the responses
//! that it reads.
use crate::anthropic::convert::{self, convert_all, convert_tool};
use crate::anthropic::wire::{
    self, AnthropicContent, AnthropicMessage, AnthropicRequest, AnthropicResponse, AnthropicTool,
    AnthropicUsage, Block, RequestText, ThinkingConfig,
};
use crate::chat::{
    CompletionRequest, CompletionResponse, Message, MessageRole, Tool, Usage,
};
use crate::text;
use vstd::prelude::*;
use vstd::string::StringExecFns;

verus! {

// ---------------------------------------------------------------------------
// Settings
// ---------------------------------------------------------------------------

/// A provider of the models behind the Messages API.
#[derive(Debug, Clone)]
pub struct AnthropicProvider {
    name: String,
    api_key: String,
    model: String,
    max_tokens: u32,
    cache_config: Option<String>,
    enable_1m_context: bool,
    thinking_budget_tokens: Option<u32>,
}

/// The settings of a provider, in terms of their text.
pub struct Settings {
    pub name: Seq<char>,
    pub api_key: Seq<char>,
    pub model: Seq<char>,
    pub max_tokens: u32,
    pub cache_config: Option<String>,
    pub enable_1m_context: bool,
    pub thinking_budget_tokens: Option<u32>,
}

impl View for AnthropicProvider {
    type V = Settings;

    closed spec fn view(&self) -> Settings {
        Settings {
            name: self.name@,
            api_key: self.api_key@,
            model: self.model@,
            max_tokens: self.max_tokens,
            cache_config: self.cache_config,
            enable_1m_context: self.enable_1m_context,
            thinking_budget_tokens: self.thinking_budget_tokens,
        }
    }
}

/// The settings of a provider with the given ones, and defaults for the rest.
/// The model to ask where none is named is one of the given ones.
pub open spec fn settings(
    name: Seq<char>,
    api_key: Seq<char>,
    model: Option<Seq<char>>,
    default_model: Seq<char>,
    max_tokens: Option<u32>,
    cache_config: Option<String>,
    enable_1m_context: Option<bool>,
    thinking_budget_tokens: Option<u32>,
) -> Settings {
    Settings {
        name,
        api_key,
        model: match model {
            Some(model) => model,
            None => default_model,
        },
        max_tokens: match max_tokens {
            Some(max_tokens) => max_tokens,
            None => 32768,
        },
        cache_config,
        enable_1m_context: enable_1m_context == Some(true),
        thinking_budget_tokens,
    }
}

// ---------------------------------------------------------------------------
// Requests
// ---------------------------------------------------------------------------

/// Why there is no request for a conversation.
#[derive(Debug, Clone, Copy, PartialEq, Eq, Structural)]
pub enum RequestError {
    /// Nobody has said anything
    NoMessages,
    /// The user did not speak first
    NotStartedByUser,
}

impl RequestError {
    /// The message of this error.
    pub open spec fn message(self) -> Seq<char> {
        match self {
            RequestError::NoMessages => "At least one user or assistant message is required"@,
            RequestError::NotStartedByUser => "Conversation must start with a user message"@,
        }
    }

    /// The message of this error.
    pub fn to_string(&self) -> (r: String)
        ensures
            r@ == self.message(),
    {
        match self {
            RequestError::NoMessages =>
                "At least one user or assistant message is required".to_string(),
            RequestError::NotStartedByUser =>
                "Conversation must start with a user message".to_string(),
        }
    }
}

/// The headers of a request, by name and value.
pub open spec fn headers(settings: Settings, streaming: bool) -> Seq<(Seq<char>, Seq<char>)> {
    seq![
        ("x-api-key"@, settings.api_key),
        ("anthropic-version"@, "2023-06-01"@),
        ("content-type"@, "application/json"@),
    ] + (if settings.enable_1m_context {
        seq![("anthropic-beta"@, "context-1m-2025-08-07"@)]
    } else {
        Seq::empty()
    }) + (if streaming {
        seq![("accept"@, "text/event-stream"@)]
    } else {
        Seq::empty()
    })
}

/// The budget that the model gets for thinking. It gets none where thinking
/// is switched off, and none where the answer would have too little room: at
/// most 1024 tokens beside the budget.
pub open spec fn thinking_budget(
    settings: Settings,
    max_tokens: u32,
    disable_thinking: bool,
) -> Option<u32> {
    match settings.thinking_budget_tokens {
        Some(budget) if !disable_thinking && max_tokens > budget + 1024 => Some(budget),
        _ => None,
    }
}

/// The request for a conversation, or why there is none.
pub open spec fn request_for(
    settings: Settings,
    messages: Seq<Message>,
    tools: Option<Seq<Tool>>,
    streaming: bool,
    max_tokens: u32,
    disable_thinking: bool,
) -> Result<RequestText, RequestError> {
    let turns = convert::stripped(convert::turns_of(messages));
    if turns.len() == 0 {
        Err(RequestError::NoMessages)
    } else if turns[0].role != "user"@ {
        Err(RequestError::NotStartedByUser)
    } else {
        Ok(
            RequestText {
                model: settings.model,
                max_tokens,
                messages: turns,
                system: convert::system_text(messages),
                tools: match tools {
                    Some(tools) => Some(tools.map_values(|t: Tool| convert::tool_text(t))),
                    None => None,
                },
                stream: streaming,
                thinking: match thinking_budget(settings, max_tokens, disable_thinking) {
                    Some(budget) => Some(("enabled"@, budget)),
                    None => None,
                },
            },
        )
    }
}

/// The tools that come with a request, where there are any.
pub open spec fn tools_of(request: CompletionRequest) -> Option<Seq<Tool>> {
    match request.tools {
        Some(tools) => Some(tools@),
        None => None,
    }
}

/// The most tokens that a request asks for.
pub open spec fn token_limit(settings: Settings, request: CompletionRequest) -> u32 {
    match request.max_tokens {
        Some(max_tokens) => max_tokens,
        None => settings.max_tokens,
    }
}

// ---------------------------------------------------------------------------
// Responses
// ---------------------------------------------------------------------------

/// The texts among the blocks, one after the other.
pub open spec fn joined_text(content: Seq<Block>) -> Seq<char>
    decreases content.len(),
{
    if content.len() == 0 {
        Seq::empty()
    } else {
        let front = joined_text(content.drop_last());
        match content.last() {
            Block::Text { text, .. } => front + text,
            _ => front,
        }
    }
}

/// Whether the total of the tokens can be counted in a machine integer.
pub open spec fn usage_fits(usage: AnthropicUsage) -> bool {
    usage.input_tokens + usage.output_tokens <= u32::MAX
}

/// What an exchange has cost.
pub open spec fn usage_of(usage: AnthropicUsage) -> Usage {
    Usage {
        prompt_tokens: usage.input_tokens,
        completion_tokens: usage.output_tokens,
        total_tokens: (usage.input_tokens + usage.output_tokens) as u32,
        cache_creation_tokens: usage.cache_creation_input_tokens,
        cache_read_tokens: usage.cache_read_input_tokens,
    }
}

/// What an exchange has cost.
pub fn convert_usage(usage: &AnthropicUsage) -> (r: Usage)
    requires
        usage_fits(*usage),
    ensures
        r == usage_of(*usage),
{
    Usage {
        prompt_tokens: usage.input_tokens,
        completion_tokens: usage.output_tokens,
        total_tokens: usage.input_tokens + usage.output_tokens,
        cache_creation_tokens: usage.cache_creation_input_tokens,
        cache_read_tokens: usage.cache_read_input_tokens,
    }
}

/// The completion that a response brings. Of its content, only the text counts.
pub fn completion_of(response: AnthropicResponse) -> (r: CompletionResponse)
    requires
        usage_fits(response.usage),
    ensures
        r.content@ == joined_text(wire::blocks(response.content@)),
        r.usage == usage_of(response.usage),
        r.model == response.model,
{
    // Extract text content from the response
    let ghost all = wire::blocks(response.content@);
    let mut content = String::new();
    let mut i: usize = 0;
    assert(all.take(0) =~= Seq::<Block>::empty());
    while i < response.content.len()
        invariant
            i <= response.content@.len(),
            all == wire::blocks(response.content@),
            content@ == joined_text(all.take(i as int)),
        decreases response.content@.len() - i,
    {
        assert(all.take(i + 1).drop_last() =~= all.take(i as int));
        assert(all.take(i + 1).last() == response.content@[i as int]@);
        if let AnthropicContent::Text { text, .. } = &response.content[i] {
            content.append(text.as_str());
        }
        i = i + 1;
    }
    assert(all.take(i as int) =~= all);
    let usage = convert_usage(&response.usage);
    CompletionResponse { content, usage, model: response.model }
}

/// The message where the API answers with an error: its status, and what the
/// body said, where it could be read.
pub fn api_error(status: &str, body: Option<&str>) -> (r: String)
    ensures
        r@ == "Anthropic API error "@ + status@ + ": "@ + match body {
            Some(body) => body@,
            None => "Unknown error"@,
        },
{
    let mut out = "Anthropic API error ".to_string();
    out.append(status);
    out.append(": ");
    match body {
        Some(body) => out.append(body),
        None => out.append("Unknown error"),
    }
    out
}

// ---------------------------------------------------------------------------
// The provider
// ---------------------------------------------------------------------------

impl AnthropicProvider {
    /// Create a new AnthropicProvider. It asks `default_model` where no model is
    /// named: the library holds no model name of its own.
    pub fn new(
        api_key: String,
        model: Option<String>,
        default_model: &str,
        max_tokens: Option<u32>,
        cache_config: Option<String>,
        enable_1m_context: Option<bool>,
        thinking_budget_tokens: Option<u32>,
    ) -> (r: Self)
        ensures
            r@ == settings(
                "anthropic"@,
                api_key@,
                text::optional_string(model),
                default_model@,
                max_tokens,
                cache_config,
                enable_1m_context,
                thinking_budget_tokens,
            ),
    {
        AnthropicProvider::new_with_name(
            String::from("anthropic"),
            api_key,
            model,
            default_model,
            max_tokens,
            cache_config,
            enable_1m_context,
            thinking_budget_tokens,
        )
    }

    /// Create a new AnthropicProvider with a custom name (e.g., "anthropic.default")
    pub fn new_with_name(
        name: String,
        api_key: String,
        model: Option<String>,
        default_model: &str,
        max_tokens: Option<u32>,
        cache_config: Option<String>,
        enable_1m_context: Option<bool>,
        thinking_budget_tokens: Option<u32>,
    ) -> (r: Self)
        ensures
            r@ == settings(
                name@,
                api_key@,
                text::optional_string(model),
                default_model@,
                max_tokens,
                cache_config,
                enable_1m_context,
                thinking_budget_tokens,
            ),
    {
        let model = match model {
            Some(model) => model,
            None => String::from(default_model),
        };
        AnthropicProvider {
            name,
            api_key,
            model,
            max_tokens: max_tokens.unwrap_or(32768),
            cache_config,
            enable_1m_context: enable_1m_context.unwrap_or(false),
            thinking_budget_tokens,
        }
    }

    /// Where requests go.
    pub fn api_url(&self) -> (r: &'static str)
        ensures
            r@ == "https://api.anthropic.com/v1/messages"@,
    {
        "https://api.anthropic.com/v1/messages"
    }

    /// The headers of a request, by name and value.
    pub fn request_headers(&self, streaming: bool) -> (r: Vec<(&str, &str)>)
        ensures
            r@.len() == headers(self@, streaming).len(),
            forall|i: int|
                0 <= i < r@.len() ==> ((#[trigger] r@[i]).0@, r@[i].1@) == headers(
                    self@,
                    streaming,
                )[i],
    {
        let mut headers: Vec<(&str, &str)> = Vec::new();
        headers.push(("x-api-key", self.api_key.as_str()));
        headers.push(("anthropic-version", "2023-06-01"));
        headers.push(("content-type", "application/json"));
        if self.enable_1m_context {
            headers.push(("anthropic-beta", "context-1m-2025-08-07"));
        }
        if streaming {
            headers.push(("accept", "text/event-stream"));
        }
        headers
    }

    /// The tools as the request names them.
    pub fn convert_tools(&self, tools: &[Tool]) -> (r: Vec<AnthropicTool>)
        ensures
            wire::tool_texts(r@) == tools@.map_values(|t: Tool| convert::tool_text(t)),
    {
        let mut converted: Vec<AnthropicTool> = Vec::new();
        let mut i: usize = 0;
        while i < tools.len()
            invariant
                i <= tools@.len(),
                converted@.len() == i,
                forall|j: int|
                    0 <= j < i ==> (#[trigger] converted@[j])@ == convert::tool_text(tools@[j]),
            decreases tools@.len() - i,
        {
            converted.push(convert_tool(&tools[i]));
            i = i + 1;
        }
        assert(wire::tool_texts(converted@) =~= tools@.map_values(
            |t: Tool| convert::tool_text(t),
        ));
        converted
    }

    /// The system text and the messages of a conversation, as the request has them.
    pub fn convert_messages(&self, messages: &[Message]) -> (r: Result<
        (Option<String>, Vec<AnthropicMessage>),
        RequestError,
    >)
        ensures
            r matches Ok((system, converted)) && text::optional_string(system)
                == convert::system_text(messages@) && wire::turns(converted@) == convert::stripped(
                convert::turns_of(messages@),
            ),
    {
        let (system, mut converted) = convert_all(messages);
        // Defense-in-depth: strip orphaned tool_use blocks that have no matching tool_result
        AnthropicProvider::strip_orphaned_tool_use(&mut converted);
        Ok((system, converted))
    }

    /// Strip orphaned tool_use blocks from assistant messages that have no matching
    /// tool_result in the immediately following user message.
    pub fn strip_orphaned_tool_use(messages: &mut Vec<AnthropicMessage>)
        ensures
            wire::turns(final(messages)@) == convert::stripped(wire::turns(old(messages)@)),
    {
        convert::strip_orphaned_tool_use(messages);
    }

    /// The request for a conversation.
    pub fn create_request_body(
        &self,
        messages: &[Message],
        tools: Option<&[Tool]>,
        streaming: bool,
        max_tokens: u32,
        disable_thinking: bool,
    ) -> (r: Result<AnthropicRequest, RequestError>)
        ensures
            match (
                request_for(
                    self@,
                    messages@,
                    match tools {
                        Some(tools) => Some(tools@),
                        None => None,
                    },
                    streaming,
                    max_tokens,
                    disable_thinking,
                ),
                r,
            ) {
                (Ok(text), Ok(request)) => request@ == text,
                (Err(expected), Err(e)) => e == expected,
                _ => false,
            },
    {
        let (system, converted) = self.convert_messages(messages)?;
        assert(wire::turns(converted@).len() == converted@.len());
        if converted.is_empty() {
            return Err(RequestError::NoMessages);
        }
        // Convert tools if provided

        let tools = match tools {
            Some(tools) => Some(self.convert_tools(tools)),
            None => None,
        };
        // Add thinking configuration if budget_tokens is set AND max_tokens is sufficient
        // AND not explicitly disabled. The API requires max_tokens > thinking.budget_tokens;
        // 1024 is added as minimum buffer for actual response content.
        let thinking = if disable_thinking {
            None
        } else {
            match self.thinking_budget_tokens {
                Some(budget) => {
                    let min_required = budget as u64 + 1024;
                    if max_tokens as u64 > min_required {
                        Some(ThinkingConfig::enabled(budget))
                    } else {
                        None
                    }
                },
                None => None,
            }
        };
        let request = AnthropicRequest {
            model: self.model.clone(),
            max_tokens,
            messages: converted,
            system,
            tools,
            stream: streaming,
            thinking,
        };
        // Ensure the conversation starts with a user message
        assert(wire::turns(request.messages@)[0].role == request.messages@[0].role@);
        if !text::same(request.messages[0].role.as_str(), "user") {
            return Err(RequestError::NotStartedByUser);
        }
        Ok(request)
    }

    /// The request that a completion request leads to.
    pub fn request_body(&self, request: &CompletionRequest, streaming: bool) -> (r: Result<
        AnthropicRequest,
        RequestError,
    >)
        ensures
            match (
                request_for(
                    self@,
                    request.messages@,
                    tools_of(*request),
                    streaming,
                    token_limit(self@, *request),
                    request.disable_thinking,
                ),
                r,
            ) {
                (Ok(text), Ok(body)) => body@ == text,
                (Err(expected), Err(e)) => e == expected,
                _ => false,
            },
    {
        let max_tokens = request.max_tokens.unwrap_or(self.max_tokens);
        let tools = match &request.tools {
            Some(tools) => Some(tools.as_slice()),
            None => None,
        };
        self.create_request_body(
            request.messages.as_slice(),
            tools,
            streaming,
            max_tokens,
            request.disable_thinking,
        )
    }

    /// The name of the provider.
    pub fn name(&self) -> (r: &str)
        ensures
            r@ == self@.name,
    {
        self.name.as_str()
    }

    /// The model that the provider asks.
    pub fn model(&self) -> (r: &str)
        ensures
            r@ == self@.model,
    {
        self.model.as_str()
    }

    /// Whether tools can be called natively.
    pub fn has_native_tool_calling(&self) -> (r: bool)
        ensures
            r,
    {
        // The models support native tool calling
        true
    }

    /// Whether parts of a prompt can be cached.
    pub fn supports_cache_control(&self) -> (r: bool)
        ensures
            r,
    {
        // Anthropic supports cache control
        true
    }

    /// The most tokens that an answer may have, where a request names no limit.
    pub fn max_tokens(&self) -> (r: u32)
        ensures
            r == self@.max_tokens,
    {
        self.max_tokens
    }
}

// ---------------------------------------------------------------------------
// Laws
// ---------------------------------------------------------------------------

/// A request that is sent starts with a message of the user.
pub proof fn law_request_starts_with_user(
    settings: Settings,
    messages: Seq<Message>,
    tools: Option<Seq<Tool>>,
    streaming: bool,
    max_tokens: u32,
    disable_thinking: bool,
)
    ensures
        request_for(settings, messages, tools, streaming, max_tokens, disable_thinking) matches Ok(
            request,
        ) ==> request.messages.len() > 0 && request.messages[0].role == "user"@,
{
}

/// Where the model gets a budget for thinking, it is the one of the settings,
/// and more than 1024 tokens are left beside it.
pub proof fn law_thinking_leaves_room(
    settings: Settings,
    messages: Seq<Message>,
    tools: Option<Seq<Tool>>,
    streaming: bool,
    max_tokens: u32,
    disable_thinking: bool,
)
    ensures
        request_for(settings, messages, tools, streaming, max_tokens, disable_thinking) matches Ok(
            request,
        ) ==> (request.thinking matches Some((kind, budget)) ==> {
            &&& !disable_thinking
            &&& settings.thinking_budget_tokens == Some(budget)
            &&& request.max_tokens > budget + 1024
            &&& kind == "enabled"@
        }),
{
}

/// Each tool call in a request has its result in the next message.
pub proof fn law_request_has_no_orphans(
    settings: Settings,
    messages: Seq<Message>,
    tools: Option<Seq<Tool>>,
    streaming: bool,
    max_tokens: u32,
    disable_thinking: bool,
    i: int,
    k: int,
)
    ensures
        request_for(settings, messages, tools, streaming, max_tokens, disable_thinking) matches Ok(
            request,
        ) ==> (0 <= i < request.messages.len() && request.messages[i].role == "assistant"@ && 0 <= k
            < request.messages[i].content.len() ==> !convert::is_orphan(
            request.messages[i].content[k],
            convert::answered_after(request.messages, i),
        )),
{
    let turns = convert::turns_of(messages);
    let sent = convert::stripped(turns);
    if 0 <= i < sent.len() && sent[i].role == "assistant"@ && 0 <= k < sent[i].content.len() {
        convert::law_tool_calls_have_results(turns, i, k);
    }
}

/// A conversation of system messages alone leads to no request.
pub proof fn law_system_messages_alone_are_refused(
    settings: Settings,
    messages: Seq<Message>,
    tools: Option<Seq<Tool>>,
    streaming: bool,
    max_tokens: u32,
    disable_thinking: bool,
)
    requires
        forall|i: int|
            0 <= i < messages.len() ==> (#[trigger] messages[i]).role
                == MessageRole::System,
    ensures
        request_for(settings, messages, tools, streaming, max_tokens, disable_thinking) == Err::<
            RequestText,
            RequestError,
        >(RequestError::NoMessages),
{
    lemma_no_turns(messages);
}

proof fn lemma_no_turns(messages: Seq<Message>)
    requires
        forall|i: int|
            0 <= i < messages.len() ==> (#[trigger] messages[i]).role
                == MessageRole::System,
    ensures
        convert::turns_of(messages).len() == 0,
    decreases messages.len(),
{
    if messages.len() > 0 {
        let front = messages.drop_last();
        assert forall|i: int| 0 <= i < front.len() implies (#[trigger] front[i]).role
            == MessageRole::System by {
            assert(messages[i].role == MessageRole::System);
        }
        lemma_no_turns(front);
        assert(messages[messages.len() - 1].role == MessageRole::System);
    }
}

/// The settings that are given are taken over. Where no model is named, the
/// given default is asked; where no limit is given, it is 32768 tokens; and the
/// long context is used only where it is asked for.
pub proof fn law_settings_have_defaults(
    name: Seq<char>,
    api_key: Seq<char>,
    model: Option<Seq<char>>,
    default_model: Seq<char>,
    max_tokens: Option<u32>,
    cache_config: Option<String>,
    enable_1m_context: Option<bool>,
    thinking_budget_tokens: Option<u32>,
)
    ensures
        ({
            let s = settings(
                name,
                api_key,
                model,
                default_model,
                max_tokens,
                cache_config,
                enable_1m_context,
                thinking_budget_tokens,
            );
            &&& s.name == name
            &&& s.api_key == api_key
            &&& model matches Some(named) ==> s.model == named
            &&& model is None ==> s.model == default_model
            &&& max_tokens matches Some(limit) ==> s.max_tokens == limit
            &&& max_tokens is None ==> s.max_tokens == 32768
            &&& s.cache_config == cache_config
            &&& enable_1m_context matches Some(asked) ==> s.enable_1m_context == asked
            &&& enable_1m_context is None ==> !s.enable_1m_context
            &&& s.thinking_budget_tokens == thinking_budget_tokens
        }),
{
}

/// A request carries the key, the version of the API and the kind of its content.
/// It asks for the long context exactly where the settings do, and for a stream
/// of events exactly where one is wanted. There are no other headers.
pub proof fn law_headers_say_what_is_wanted(settings: Settings, streaming: bool)
    ensures
        headers(settings, streaming).contains(("x-api-key"@, settings.api_key)),
        headers(settings, streaming).contains(("anthropic-version"@, "2023-06-01"@)),
        headers(settings, streaming).contains(("content-type"@, "application/json"@)),
        settings.enable_1m_context ==> headers(settings, streaming).contains(
            ("anthropic-beta"@, "context-1m-2025-08-07"@),
        ),
        streaming ==> headers(settings, streaming).contains(("accept"@, "text/event-stream"@)),
        headers(settings, streaming).len() == 3 + (if settings.enable_1m_context {
            1int
        } else {
            0
        }) + (if streaming {
            1int
        } else {
            0
        }),
{
    let all = headers(settings, streaming);
    assert(all[0] == ("x-api-key"@, settings.api_key));
    assert(all[1] == ("anthropic-version"@, "2023-06-01"@));
    assert(all[2] == ("content-type"@, "application/json"@));
    if settings.enable_1m_context {
        assert(all[3] == ("anthropic-beta"@, "context-1m-2025-08-07"@));
    }
    if streaming {
        assert(all.last() == ("accept"@, "text/event-stream"@));
        assert(all[all.len() - 1] == all.last());
    }
}

/// Before the first message that is not of the system, there are no turns, and
/// that message is the first turn.
proof fn lemma_first_turn(messages: Seq<Message>, j: int)
    requires
        0 <= j < messages.len(),
        messages[j].role != MessageRole::System,
        forall|i: int| 0 <= i < j ==> (#[trigger] messages[i]).role == MessageRole::System,
    ensures
        convert::turns_of(messages).len() > 0,
        convert::turns_of(messages)[0] == convert::turn_of(messages[j]),
{
    let front = messages.take(j);
    let here = seq![messages[j]];
    let rest = messages.skip(j + 1);
    assert forall|i: int| 0 <= i < front.len() implies (#[trigger] front[i]).role
        == MessageRole::System by {
        assert(messages[i].role == MessageRole::System);
    }
    lemma_no_turns(front);
    assert(messages =~= front + (here + rest));
    convert::law_messages_keep_their_order(front, here + rest, messages[j]);
    convert::law_messages_keep_their_order(here, rest, messages[j]);
}

/// There is a request exactly where the user speaks first, after what the system
/// has to say. Where only the system speaks there are no messages to send, and
/// where the assistant speaks first the conversation is refused.
pub proof fn law_request_is_made_iff_user_speaks_first(
    settings: Settings,
    messages: Seq<Message>,
    tools: Option<Seq<Tool>>,
    streaming: bool,
    max_tokens: u32,
    disable_thinking: bool,
    j: int,
)
    requires
        0 <= j <= messages.len(),
        forall|i: int| 0 <= i < j ==> (#[trigger] messages[i]).role == MessageRole::System,
        j < messages.len() ==> messages[j].role != MessageRole::System,
    ensures
        ({
            let request = request_for(
                settings,
                messages,
                tools,
                streaming,
                max_tokens,
                disable_thinking,
            );
            &&& j == messages.len() ==> request == Err::<RequestText, RequestError>(
                RequestError::NoMessages,
            )
            &&& j < messages.len() && messages[j].role == MessageRole::Assistant ==> request
                == Err::<RequestText, RequestError>(RequestError::NotStartedByUser)
            &&& j < messages.len() && messages[j].role == MessageRole::User ==> request is Ok
        }),
{
    reveal_strlit("user");
    reveal_strlit("assistant");
    assert("user"@.len() == 4 && "assistant"@.len() == 9);
    if j < messages.len() {
        lemma_first_turn(messages, j);
    } else {
        lemma_no_turns(messages);
    }
}

/// A request asks the model of the settings, with the limit and the way of
/// answering that were asked for, and holds the conversation, the system text
/// and all of the tools in their order.
pub proof fn law_request_holds_what_was_asked(
    settings: Settings,
    messages: Seq<Message>,
    tools: Option<Seq<Tool>>,
    streaming: bool,
    max_tokens: u32,
    disable_thinking: bool,
    k: int,
)
    ensures
        request_for(settings, messages, tools, streaming, max_tokens, disable_thinking) matches Ok(
            request,
        ) ==> {
            &&& request.model == settings.model
            &&& request.max_tokens == max_tokens
            &&& request.stream == streaming
            &&& request.messages == convert::stripped(convert::turns_of(messages))
            &&& request.system == convert::system_text(messages)
            &&& request.tools is Some <==> tools is Some
            &&& tools matches Some(given) ==> request.tools->0.len() == given.len() && (0 <= k
                < given.len() ==> request.tools->0[k] == convert::tool_text(given[k]))
        },
{
}

/// The model gets a budget for thinking exactly where the settings have one,
/// thinking is not switched off, and more than 1024 tokens are left beside it.
pub proof fn law_thinking_iff_there_is_room(
    settings: Settings,
    messages: Seq<Message>,
    tools: Option<Seq<Tool>>,
    streaming: bool,
    max_tokens: u32,
    disable_thinking: bool,
    budget: u32,
)
    ensures
        request_for(settings, messages, tools, streaming, max_tokens, disable_thinking) matches Ok(
            request,
        ) ==> {
            &&& request.thinking == Some(("enabled"@, budget)) <==> {
                &&& settings.thinking_budget_tokens == Some(budget)
                &&& !disable_thinking
                &&& max_tokens > budget + 1024
            }
            &&& request.thinking matches Some((kind, _)) ==> kind == "enabled"@
        },
{
}

/// The limit and the tools of a request are those that it names; without a
/// limit, that of the settings holds.
pub proof fn law_limit_of_a_request(settings: Settings, request: CompletionRequest)
    ensures
        request.max_tokens matches Some(limit) ==> token_limit(settings, request) == limit,
        request.max_tokens is None ==> token_limit(settings, request) == settings.max_tokens,
        request.tools is Some <==> tools_of(request) is Some,
        request.tools matches Some(tools) ==> tools_of(request) == Some(tools@),
{
}

/// The text of a response is that of its text blocks, one behind the other, and
/// of no other blocks.
pub proof fn law_text_of_all_blocks_is_joined(a: Seq<Block>, b: Seq<Block>, block: Block)
    ensures
        joined_text(a + b) == joined_text(a) + joined_text(b),
        block matches Block::Text { text, .. } ==> joined_text(seq![block]) == text,
        !(block is Text) ==> joined_text(seq![block]).len() == 0,
    decreases b.len(),
{
    assert(seq![block].drop_last() =~= Seq::<Block>::empty());
    assert(joined_text(seq![block].drop_last()) =~= Seq::<char>::empty());
    if let Block::Text { text, .. } = block {
        assert(joined_text(seq![block]) =~= text);
    }
    if b.len() == 0 {
        assert(a + b =~= a);
        assert(joined_text(a) + joined_text(b) =~= joined_text(a));
    } else {
        law_text_of_all_blocks_is_joined(a, b.drop_last(), block);
        assert((a + b).drop_last() =~= a + b.drop_last());
        assert(joined_text(a + b) =~= joined_text(a) + joined_text(b));
    }
}

/// The tokens are counted as the API reports them, and the total is that of the
/// prompt and the answer.
pub proof fn law_usage_adds_up(usage: AnthropicUsage)
    ensures
        usage_fits(usage) <==> usage.input_tokens + usage.output_tokens <= u32::MAX,
        usage_fits(usage) ==> usage_of(usage).total_tokens == usage_of(usage).prompt_tokens
            + usage_of(usage).completion_tokens,
        usage_of(usage).prompt_tokens == usage.input_tokens,
        usage_of(usage).completion_tokens == usage.output_tokens,
        usage_of(usage).cache_creation_tokens == usage.cache_creation_input_tokens,
        usage_of(usage).cache_read_tokens == usage.cache_read_input_tokens,
{
}

/// The settings of a provider are those that it holds.
proof fn law_settings_tell_all(provider: AnthropicProvider)
    ensures
        provider@.name == provider.name@,
        provider@.api_key == provider.api_key@,
        provider@.model == provider.model@,
        provider@.max_tokens == provider.max_tokens,
        provider@.cache_config == provider.cache_config,
        provider@.enable_1m_context == provider.enable_1m_context,
        provider@.thinking_budget_tokens == provider.thinking_budget_tokens,
{
}

} // verus!
