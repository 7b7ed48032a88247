//! Requests and responses of the Messages API.
use g3::anthropic::provider::{api_error, completion_of, AnthropicProvider, RequestError};
use g3::anthropic::wire::{
    AnthropicContent, AnthropicImageSource, AnthropicMessage, AnthropicRequest, AnthropicResponse,
    AnthropicUsage, ToolResultBlock, ToolResultContent,
};
use g3::chat::{
    CacheControl, CompletionRequest, ImageContent, Message, MessageRole, MessageToolCall, Tool,
};
use g3::json::Json;

const DEFAULT_MODEL: &str = "sonnet-default";

fn provider() -> AnthropicProvider {
    AnthropicProvider::new("test-key".to_string(), None, DEFAULT_MODEL, None, None, None, None)
}

fn provider_with_budget(max_tokens: u32, budget: Option<u32>) -> AnthropicProvider {
    AnthropicProvider::new(
        "test-key".to_string(),
        Some("sonnet-4-5".to_string()),
        DEFAULT_MODEL,
        Some(max_tokens),
        None,
        None,
        budget,
    )
}

fn text(s: &str) -> Json {
    Json::Text(s.to_string())
}

fn texts(list: &[&str]) -> Json {
    Json::Array(list.iter().map(|s| text(s)).collect())
}

fn object(members: Vec<(&str, Json)>) -> Json {
    Json::Object(members.into_iter().map(|(k, v)| (k.to_string(), v)).collect())
}

fn text_block(text: &str) -> AnthropicContent {
    AnthropicContent::Text { text: text.to_string(), cache_control: None }
}

fn tool_use(id: &str) -> AnthropicContent {
    AnthropicContent::ToolUse {
        id: id.to_string(),
        name: "read_file".to_string(),
        input: object(vec![("file_path", text("test.rs"))]),
    }
}

fn tool_result(id: &str) -> AnthropicContent {
    AnthropicContent::ToolResult {
        tool_use_id: id.to_string(),
        content: ToolResultContent::Text("file contents".to_string()),
        cache_control: None,
    }
}

fn turn(role: &str, content: Vec<AnthropicContent>) -> AnthropicMessage {
    AnthropicMessage { role: role.to_string(), content }
}

fn is_tool_use(c: &AnthropicContent) -> bool {
    matches!(c, AnthropicContent::ToolUse { .. })
}

fn is_text(c: &AnthropicContent) -> bool {
    matches!(c, AnthropicContent::Text { .. })
}

#[test]
fn test_message_conversion() {
    let provider = provider();

    let messages = vec![
        Message::new(MessageRole::System, "You are a helpful assistant.".to_string()),
        Message::new(MessageRole::User, "Hello!".to_string()),
        Message::new(MessageRole::Assistant, "Hi there!".to_string()),
    ];

    let (system, anthropic_messages) = provider.convert_messages(&messages).unwrap();

    assert_eq!(system, Some("You are a helpful assistant.".to_string()));
    assert_eq!(anthropic_messages.len(), 2);
    assert_eq!(anthropic_messages[0].role, "user");
    assert_eq!(anthropic_messages[1].role, "assistant");
}

#[test]
fn test_request_body_creation() {
    let provider = AnthropicProvider::new(
        "test-key".to_string(),
        Some("haiku-20240307".to_string()),
        DEFAULT_MODEL,
        Some(1000),
        None,
        None,
        None,
    );

    let messages = vec![Message::new(MessageRole::User, "Test message".to_string())];

    let request_body = provider.create_request_body(&messages, None, false, 1000, false).unwrap();

    assert_eq!(request_body.model, "haiku-20240307");
    assert_eq!(request_body.max_tokens, 1000);
    assert!(!request_body.stream);
    assert_eq!(request_body.messages.len(), 1);
    assert!(request_body.tools.is_none());
}

#[test]
fn test_request_body_omits_temperature_field() {
    let provider = provider_with_budget(1000, None);
    let messages = vec![Message::new(MessageRole::User, "Test".to_string())];
    for streaming in [false, true] {
        let request =
            provider.create_request_body(&messages, None, streaming, 1000, false).unwrap();
        // These are all the fields that a request has.
        let AnthropicRequest { model, max_tokens, messages, system, tools, stream, thinking } =
            request;
        assert_eq!(model, "sonnet-4-5");
        assert_eq!(max_tokens, 1000);
        assert_eq!(messages.len(), 1);
        assert_eq!(system, None);
        assert!(tools.is_none());
        assert_eq!(stream, streaming);
        assert!(thinking.is_none());
    }
}

fn weather_properties() -> Json {
    object(vec![(
        "location",
        object(vec![("type", text("string")), ("description", text("The city and state"))]),
    )])
}

fn weather_schema() -> Json {
    object(vec![
        ("type", text("object")),
        ("properties", weather_properties()),
        ("required", texts(&["location"])),
    ])
}

fn tool(schema: Json) -> Tool {
    Tool {
        name: "get_weather".to_string(),
        description: "Get the current weather".to_string(),
        input_schema: schema,
    }
}

#[test]
fn test_tool_conversion() {
    let provider = provider();

    let tools = vec![tool(weather_schema())];

    let anthropic_tools = provider.convert_tools(&tools);

    assert_eq!(anthropic_tools.len(), 1);
    assert_eq!(anthropic_tools[0].name, "get_weather");
    assert_eq!(anthropic_tools[0].description, "Get the current weather");
    assert_eq!(anthropic_tools[0].input_schema.schema_type, "object");
    assert!(anthropic_tools[0].input_schema.required.is_some());
    assert_eq!(anthropic_tools[0].input_schema.required.as_ref().unwrap()[0], "location");
    assert_eq!(anthropic_tools[0].input_schema.properties, weather_properties());
}

#[test]
fn a_schema_without_fields_has_defaults() {
    for schema in [
        object(vec![]),
        Json::Null,
        Json::Array(vec![Json::Number("1".to_string())]),
        text("properties"),
    ] {
        let converted = provider().convert_tools(&[tool(schema)]);
        assert_eq!(converted[0].input_schema.schema_type, "object");
        assert_eq!(converted[0].input_schema.properties, object(vec![]));
        assert_eq!(converted[0].input_schema.required, None);
    }
    let seven = || Json::Number("7".to_string());
    let converted = provider().convert_tools(&[
        tool(object(vec![("required", texts(&["a", "b"])), ("properties", seven())])),
        tool(object(vec![("required", Json::Array(vec![text("a"), seven()]))])),
        tool(object(vec![("required", text("a"))])),
        tool(object(vec![("required", texts(&[]))])),
    ]);
    assert_eq!(converted[0].input_schema.properties, seven());
    assert_eq!(
        converted[0].input_schema.required,
        Some(vec!["a".to_string(), "b".to_string()])
    );
    assert_eq!(converted[1].input_schema.required, None);
    assert_eq!(converted[2].input_schema.required, None);
    assert_eq!(converted[3].input_schema.required, Some(vec![]));
}

#[test]
fn properties_go_out_as_they_came() {
    let mut deep = Json::Number("94.52706955539223".to_string());
    for _ in 0..500 {
        deep = Json::Array(vec![deep]);
    }
    let converted =
        provider().convert_tools(&[tool(object(vec![("properties", deep.clone())]))]);
    assert_eq!(converted[0].input_schema.properties, deep);
}

#[test]
fn test_cache_control_serialization() {
    let provider = provider();

    // Test message WITHOUT cache_control
    let messages_without = vec![Message::new(MessageRole::User, "Hello".to_string())];
    let (_, without) = provider.convert_messages(&messages_without).unwrap();
    match &without[0].content[0] {
        AnthropicContent::Text { text, cache_control } => {
            assert_eq!(text, "Hello");
            assert!(cache_control.is_none());
        }
        other => panic!("Expected Text, got {:?}", other),
    }

    // Test message WITH cache_control
    let messages_with = vec![Message::with_cache_control(
        MessageRole::User,
        "Hello".to_string(),
        CacheControl::ephemeral(),
    )];
    let (_, with) = provider.convert_messages(&messages_with).unwrap();
    match &with[0].content[0] {
        AnthropicContent::Text { cache_control, .. } => {
            assert_eq!(cache_control.as_ref().unwrap().cache_type, "ephemeral");
        }
        other => panic!("Expected Text, got {:?}", other),
    }
}

#[test]
fn test_thinking_parameter_serialization() {
    // Test WITHOUT thinking parameter
    let provider_without = provider_with_budget(1000, None);
    let messages = vec![Message::new(MessageRole::User, "Test message".to_string())];
    let request_without =
        provider_without.create_request_body(&messages, None, false, 1000, false).unwrap();
    assert!(request_without.thinking.is_none());

    // Test WITH thinking parameter - max_tokens must be > budget_tokens + 1024
    // Using budget=10000 requires max_tokens > 11024
    let provider_with = provider_with_budget(20000, Some(10000));
    let request_with =
        provider_with.create_request_body(&messages, None, false, 20000, false).unwrap();
    let thinking = request_with.thinking.unwrap();
    assert_eq!(thinking.thinking_type, "enabled");
    assert_eq!(thinking.budget_tokens, 10000);

    // Test WITH thinking parameter but INSUFFICIENT max_tokens - thinking should be disabled
    let request_insufficient =
        provider_with.create_request_body(&messages, None, false, 5000, false).unwrap();
    assert!(request_insufficient.thinking.is_none());
}

#[test]
fn thinking_needs_more_than_the_buffer() {
    let p = provider_with_budget(20000, Some(10000));
    let messages = vec![Message::new(MessageRole::User, "x".to_string())];
    let at = |n: u32| p.create_request_body(&messages, None, false, n, false).unwrap().thinking;
    assert!(at(11024).is_none());
    assert!(at(11025).is_some());
    // A budget that leaves no room at all is no budget.
    for budget in [u32::MAX, u32::MAX - 1024] {
        let p = provider_with_budget(20000, Some(budget));
        for max_tokens in [2000, u32::MAX] {
            let r = p.create_request_body(&messages, None, false, max_tokens, false).unwrap();
            assert!(r.thinking.is_none());
        }
    }
}

#[test]
fn test_disable_thinking_flag() {
    // Test that disable_thinking=true prevents thinking even with sufficient max_tokens
    let provider = provider_with_budget(20000, Some(10000));
    let messages = vec![Message::new(MessageRole::User, "Test message".to_string())];

    // With disable_thinking=false, thinking should be enabled (max_tokens is sufficient)
    let request_with_thinking =
        provider.create_request_body(&messages, None, false, 20000, false).unwrap();
    assert!(request_with_thinking.thinking.is_some());

    // With disable_thinking=true, thinking should be disabled even with sufficient max_tokens
    let request_without_thinking =
        provider.create_request_body(&messages, None, false, 20000, true).unwrap();
    assert!(request_without_thinking.thinking.is_none());
}

#[test]
fn test_thinking_content_block_deserialization() {
    let response = AnthropicResponse {
        content: vec![
            AnthropicContent::Thinking {
                thinking: "Let me analyze this...".to_string(),
                signature: Some("abc123".to_string()),
            },
            text_block("Here is my response."),
        ],
        model: "sonnet-4-5".to_string(),
        usage: AnthropicUsage {
            input_tokens: 100,
            output_tokens: 50,
            cache_creation_input_tokens: 0,
            cache_read_input_tokens: 0,
        },
    };

    assert_eq!(response.content.len(), 2);

    // Only text content counts (thinking should be filtered out)
    let completion = completion_of(response);
    assert_eq!(completion.model, "sonnet-4-5");
    assert_eq!(completion.content, "Here is my response.");
    assert_eq!(completion.usage.total_tokens, 150);
}

#[test]
fn a_completion_joins_the_texts_and_takes_over_the_usage() {
    let completion = completion_of(AnthropicResponse {
        content: vec![text_block("a"), tool_use("t"), text_block(""), text_block("b\n")],
        model: "m".to_string(),
        usage: AnthropicUsage {
            input_tokens: 1,
            output_tokens: 2,
            cache_creation_input_tokens: 3,
            cache_read_input_tokens: 4,
        },
    });
    assert_eq!(completion.content, "ab\n");
    assert_eq!(completion.usage.prompt_tokens, 1);
    assert_eq!(completion.usage.completion_tokens, 2);
    assert_eq!(completion.usage.total_tokens, 3);
    assert_eq!(completion.usage.cache_creation_tokens, 3);
    assert_eq!(completion.usage.cache_read_tokens, 4);
}

#[test]
fn test_strip_orphaned_tool_use_removes_orphaned_blocks() {
    // Simulate: assistant with tool_use, followed by regular user message (no tool_result)
    let mut messages = vec![
        turn("user", vec![text_block("Read the file")]),
        turn("assistant", vec![text_block("Let me read that."), tool_use("toolu_orphaned")]),
        // Next message is a regular user message, NOT a tool_result
        turn("user", vec![text_block("Do something else")]),
    ];

    AnthropicProvider::strip_orphaned_tool_use(&mut messages);

    // The tool_use should be stripped from the assistant message
    let assistant = &messages[1];
    assert!(!assistant.content.iter().any(is_tool_use), "Orphaned tool_use should be stripped");
    // Text content should remain
    assert!(assistant.content.iter().any(is_text), "Text content should be preserved");
}

#[test]
fn test_strip_orphaned_tool_use_preserves_valid_sequence() {
    // Valid: assistant with tool_use, followed by user with matching tool_result
    let mut messages = vec![
        turn("user", vec![text_block("Read the file")]),
        turn("assistant", vec![text_block("Reading..."), tool_use("toolu_valid")]),
        turn("user", vec![tool_result("toolu_valid")]),
    ];

    AnthropicProvider::strip_orphaned_tool_use(&mut messages);

    // tool_use should NOT be stripped
    let assistant = &messages[1];
    assert!(assistant.content.iter().any(is_tool_use), "Valid tool_use should be preserved");
}

#[test]
fn test_strip_orphaned_tool_use_adds_placeholder_for_empty_message() {
    // Assistant message with ONLY a tool_use block (no text)
    let mut messages = vec![
        turn("user", vec![text_block("Do something")]),
        turn(
            "assistant",
            vec![AnthropicContent::ToolUse {
                id: "toolu_only".to_string(),
                name: "shell".to_string(),
                input: object(vec![("command", text("ls"))]),
            }],
        ),
        turn("user", vec![text_block("Never mind")]),
    ];

    AnthropicProvider::strip_orphaned_tool_use(&mut messages);

    // Should have placeholder text instead of empty content
    let assistant = &messages[1];
    assert!(!assistant.content.is_empty(), "Should not have empty content");
    assert!(assistant.content.iter().any(is_text), "Should have placeholder text");
    assert!(!assistant.content.iter().any(is_tool_use), "tool_use should be stripped");
    match &assistant.content[0] {
        AnthropicContent::Text { text, cache_control } => {
            assert_eq!(text, "(continued)");
            assert!(cache_control.is_none());
        }
        other => panic!("Expected Text, got {:?}", other),
    }
}

#[test]
fn test_strip_orphaned_tool_use_works_with_structured_tool_result() {
    // Ensure orphan detection still works when tool_result has structured content
    let mut messages = vec![
        turn("user", vec![text_block("Read images")]),
        turn("assistant", vec![tool_use("toolu_img")]),
        turn(
            "user",
            vec![AnthropicContent::ToolResult {
                tool_use_id: "toolu_img".to_string(),
                content: ToolResultContent::Blocks(vec![
                    ToolResultBlock::Image {
                        source: AnthropicImageSource {
                            source_type: "base64".to_string(),
                            media_type: "image/png".to_string(),
                            data: "data".to_string(),
                        },
                    },
                    ToolResultBlock::Text { text: "1 image(s) read.".to_string() },
                ]),
                cache_control: None,
            }],
        ),
    ];

    AnthropicProvider::strip_orphaned_tool_use(&mut messages);

    // tool_use should NOT be stripped — it has a matching tool_result
    let assistant = &messages[1];
    assert!(
        assistant.content.iter().any(is_tool_use),
        "Valid tool_use with structured tool_result should be preserved"
    );
}

#[test]
fn each_tool_call_needs_its_own_result() {
    let mut messages = vec![
        turn("assistant", vec![tool_use("a"), text_block("x"), tool_use("b"), tool_use("c")]),
        turn("user", vec![tool_result("c"), text_block("y"), tool_result("a")]),
        turn("assistant", vec![tool_use("d")]),
        turn("assistant", vec![tool_result("d")]),
        turn("user", vec![tool_use("e")]),
        turn("assistant", vec![]),
        turn("assistant", vec![tool_use("f")]),
    ];
    let strip = |messages: &mut Vec<AnthropicMessage>| {
        AnthropicProvider::strip_orphaned_tool_use(messages)
    };
    strip(&mut messages);
    let once = format!("{:?}", messages);
    let sizes: Vec<usize> = messages.iter().map(|m| m.content.len()).collect();
    assert_eq!(sizes, vec![3, 3, 1, 1, 1, 0, 1]);
    assert!(is_tool_use(&messages[0].content[0]));
    assert!(is_text(&messages[0].content[1]));
    assert!(is_tool_use(&messages[0].content[2]));
    assert!(is_text(&messages[2].content[0]));
    assert!(is_tool_use(&messages[4].content[0]));
    assert!(is_text(&messages[6].content[0]));
    strip(&mut messages);
    assert_eq!(format!("{:?}", messages), once);
}

#[test]
fn test_tool_result_with_images_nested_inside() {
    // When a tool result message has images (e.g., from read_image),
    // the images must be nested inside the tool_result content array,
    // NOT as top-level Image blocks alongside the ToolResult block.
    let provider = provider();

    let mut msg = Message::new(MessageRole::User, "Tool result: 2 image(s) read.".to_string());
    msg.tool_result_id = Some("toolu_01JQBMs7hdNpy3VBiJkJwykC".to_string());
    msg.images = vec![
        ImageContent::new("image/png", "base64data1".to_string()),
        ImageContent::new("image/jpeg", "base64data2".to_string()),
    ];

    // Also need an assistant message with the tool_use before it
    let mut assistant_msg = Message::new(MessageRole::Assistant, String::new());
    assistant_msg.tool_calls.push(MessageToolCall {
        id: "toolu_01JQBMs7hdNpy3VBiJkJwykC".to_string(),
        name: "read_image".to_string(),
        input: object(vec![("file_paths", texts(&["a.png", "b.jpg"]))]),
    });

    let messages = vec![
        Message::new(MessageRole::User, "Read these images".to_string()),
        assistant_msg,
        msg,
    ];

    let (_, anthropic_messages) = provider.convert_messages(&messages).unwrap();

    // The user tool result message should have exactly ONE content block (the ToolResult)
    let tool_result_msg = &anthropic_messages[2];
    assert_eq!(tool_result_msg.role, "user");
    assert_eq!(
        tool_result_msg.content.len(),
        1,
        "Should have exactly 1 content block (ToolResult), not images + ToolResult"
    );

    // Verify it's a ToolResult with structured content
    match &tool_result_msg.content[0] {
        AnthropicContent::ToolResult { tool_use_id, content, .. } => {
            assert_eq!(tool_use_id, "toolu_01JQBMs7hdNpy3VBiJkJwykC");
            match content {
                ToolResultContent::Blocks(blocks) => {
                    assert_eq!(blocks.len(), 3, "Should have 2 images + 1 text block");
                    // First two should be images
                    assert!(matches!(&blocks[0], ToolResultBlock::Image { .. }));
                    assert!(matches!(&blocks[1], ToolResultBlock::Image { .. }));
                    // Last should be text
                    match &blocks[2] {
                        ToolResultBlock::Text { text } => {
                            assert_eq!(text, "Tool result: 2 image(s) read.");
                        }
                        _ => panic!("Expected text block at position 2"),
                    }
                    match &blocks[1] {
                        ToolResultBlock::Image { source } => {
                            assert_eq!(source.source_type, "base64");
                            assert_eq!(source.media_type, "image/jpeg");
                            assert_eq!(source.data, "base64data2");
                        }
                        _ => panic!("Expected image block at position 1"),
                    }
                }
                ToolResultContent::Text(_) => {
                    panic!("Expected Blocks content for tool result with images");
                }
            }
        }
        other => panic!("Expected ToolResult, got {:?}", other),
    }

    // Verify no top-level Image blocks in the message
    assert!(
        !tool_result_msg.content.iter().any(|c| matches!(c, AnthropicContent::Image { .. })),
        "Images should NOT be top-level blocks in a tool_result message"
    );
}

#[test]
fn test_tool_result_without_images_uses_string_content() {
    // Regular tool results (no images) should still use simple string content
    let provider = provider();

    let mut msg = Message::new(MessageRole::User, "Tool result: file contents here".to_string());
    msg.tool_result_id = Some("toolu_abc123".to_string());
    // No images

    let mut assistant_msg = Message::new(MessageRole::Assistant, String::new());
    assistant_msg.tool_calls.push(MessageToolCall {
        id: "toolu_abc123".to_string(),
        name: "read_file".to_string(),
        input: object(vec![("file_path", text("test.rs"))]),
    });

    let messages = vec![
        Message::new(MessageRole::User, "Read the file".to_string()),
        assistant_msg,
        msg,
    ];

    let (_, anthropic_messages) = provider.convert_messages(&messages).unwrap();

    let tool_result_msg = &anthropic_messages[2];
    assert_eq!(tool_result_msg.content.len(), 1);
    match &tool_result_msg.content[0] {
        AnthropicContent::ToolResult { content: ToolResultContent::Text(text), .. } => {
            assert_eq!(text, "Tool result: file contents here");
        }
        other => panic!("Expected ToolResult with text, got {:?}", other),
    }
    match &anthropic_messages[1].content[0] {
        AnthropicContent::ToolUse { id, name, input } => {
            assert_eq!(id, "toolu_abc123");
            assert_eq!(name, "read_file");
            assert_eq!(*input, object(vec![("file_path", text("test.rs"))]));
        }
        other => panic!("Expected ToolUse, got {:?}", other),
    }
}

#[test]
fn test_regular_user_message_with_images_uses_top_level_blocks() {
    // Non-tool-result user messages should still have images as top-level blocks
    let provider = provider();

    let mut msg = Message::new(MessageRole::User, "What's in this image?".to_string());
    // No tool_result_id — this is a regular user message
    msg.images = vec![ImageContent::new("image/png", "base64data".to_string())];

    let messages = vec![msg];
    let (_, anthropic_messages) = provider.convert_messages(&messages).unwrap();

    let user_msg = &anthropic_messages[0];
    assert_eq!(user_msg.content.len(), 2, "Should have Image + Text blocks");
    assert!(matches!(&user_msg.content[0], AnthropicContent::Image { .. }));
    assert!(matches!(&user_msg.content[1], AnthropicContent::Text { .. }));
}

#[test]
fn system_messages_are_joined() {
    let (system, turns) = provider()
        .convert_messages(&[
            Message::new(MessageRole::System, "a".to_string()),
            Message::new(MessageRole::User, "u".to_string()),
            Message::new(MessageRole::System, "".to_string()),
            Message::new(MessageRole::System, "b".to_string()),
        ])
        .unwrap();
    assert_eq!(system, Some("a\n\n\n\nb".to_string()));
    assert_eq!(turns.len(), 1);
}

#[test]
fn an_assistant_message_is_never_empty() {
    let mut calling = Message::with_cache_control(
        MessageRole::Assistant,
        " \n".to_string(),
        CacheControl::ephemeral(),
    );
    let blank = calling.clone();
    calling.tool_calls.push(MessageToolCall {
        id: "t".to_string(),
        name: "n".to_string(),
        input: Json::empty_object(),
    });
    let (system, turns) = provider().convert_messages(&[blank, calling]).unwrap();
    assert_eq!(system, None);
    match &turns[0].content[0] {
        AnthropicContent::Text { text, cache_control } => {
            assert_eq!(text, " \n");
            assert!(cache_control.is_none());
        }
        other => panic!("Expected Text, got {:?}", other),
    }
    // The call has no result, so that a placeholder stands in for it.
    match &turns[1].content[0] {
        AnthropicContent::Text { text, .. } => assert_eq!(text, "(continued)"),
        other => panic!("Expected Text, got {:?}", other),
    }
}

#[test]
fn a_conversation_that_cannot_be_sent_is_refused() {
    let p = provider();
    let e = p.create_request_body(&[], None, false, 1, false).unwrap_err();
    assert_eq!(e, RequestError::NoMessages);
    assert_eq!(e.to_string(), "At least one user or assistant message is required");
    let system = [Message::new(MessageRole::System, "s".to_string())];
    let e = p.create_request_body(&system, None, false, 1, false).unwrap_err();
    assert_eq!(e, RequestError::NoMessages);
    let assistant = [
        Message::new(MessageRole::System, "s".to_string()),
        Message::new(MessageRole::Assistant, "a".to_string()),
        Message::new(MessageRole::User, "u".to_string()),
    ];
    let e = p.create_request_body(&assistant, None, false, 1, false).unwrap_err();
    assert_eq!(e, RequestError::NotStartedByUser);
    assert_eq!(e.to_string(), "Conversation must start with a user message");
}

#[test]
fn a_request_takes_its_limit_from_the_call_or_the_provider() {
    let p = provider_with_budget(20000, Some(10000));
    let mut request = CompletionRequest {
        messages: vec![Message::new(MessageRole::User, "u".to_string())],
        max_tokens: None,
        stream: true,
        tools: Some(vec![tool(weather_schema())]),
        disable_thinking: false,
    };
    let body = p.request_body(&request, true).unwrap();
    assert_eq!(body.max_tokens, 20000);
    assert!(body.thinking.is_some());
    assert!(body.stream);
    assert_eq!(body.tools.unwrap().len(), 1);
    request.max_tokens = Some(500);
    request.tools = None;
    let body = p.request_body(&request, false).unwrap();
    assert_eq!(body.max_tokens, 500);
    assert!(body.thinking.is_none());
    assert!(body.tools.is_none());
    assert!(!body.stream);
}

#[test]
fn a_provider_has_defaults() {
    let p = provider();
    assert_eq!(p.name(), "anthropic");
    assert_eq!(p.model(), DEFAULT_MODEL);
    assert_eq!(p.max_tokens(), 32768);
    assert!(p.has_native_tool_calling());
    assert!(p.supports_cache_control());
    assert_eq!(p.api_url(), "https://api.anthropic.com/v1/messages");
    assert_eq!(
        p.request_headers(false),
        vec![
            ("x-api-key", "test-key"),
            ("anthropic-version", "2023-06-01"),
            ("content-type", "application/json"),
        ]
    );
}

#[test]
fn a_provider_takes_over_its_settings() {
    let p = AnthropicProvider::new_with_name(
        "anthropic.fast".to_string(),
        "k".to_string(),
        Some("m".to_string()),
        DEFAULT_MODEL,
        Some(7),
        None,
        Some(true),
        None,
    );
    assert_eq!(p.name(), "anthropic.fast");
    assert_eq!(p.model(), "m");
    assert_eq!(p.max_tokens(), 7);
    assert_eq!(
        p.request_headers(true),
        vec![
            ("x-api-key", "k"),
            ("anthropic-version", "2023-06-01"),
            ("content-type", "application/json"),
            ("anthropic-beta", "context-1m-2025-08-07"),
            ("accept", "text/event-stream"),
        ]
    );
}

#[test]
fn an_api_error_is_put_into_words() {
    assert_eq!(
        api_error("429 Too Many Requests", Some("slow down")),
        "Anthropic API error 429 Too Many Requests: slow down"
    );
    assert_eq!(
        api_error("500 Internal Server Error", None),
        "Anthropic API error 500 Internal Server Error: Unknown error"
    );
}
