//! The stream of events that answers a request.
use g3::anthropic::stream::{
    StreamChunk, StreamOutcome, StreamParser, StreamState, StreamStep,
};
use g3::anthropic::wire::{
    AnthropicContent, AnthropicDelta, AnthropicError, AnthropicStreamEvent, AnthropicStreamMessage,
    AnthropicUsage,
};
use g3::chat::{Arguments, ToolCall, Usage};
use g3::json::Json;

fn event(kind: &str) -> AnthropicStreamEvent {
    AnthropicStreamEvent {
        event_type: kind.to_string(),
        delta: None,
        error: None,
        content_block: None,
        message: None,
    }
}

fn one_member() -> Json {
    Json::Object(vec![("a".to_string(), Json::Number("1".to_string()))])
}

fn tool_start(input: Json) -> AnthropicStreamEvent {
    let mut e = event("content_block_start");
    e.content_block = Some(AnthropicContent::ToolUse {
        id: "t1".to_string(),
        name: "shell".to_string(),
        input,
    });
    e
}

fn delta(text: Option<&str>, json: Option<&str>) -> AnthropicStreamEvent {
    let mut e = event("content_block_delta");
    e.delta = Some(AnthropicDelta {
        text: text.map(|s| s.to_string()),
        partial_json: json.map(|s| s.to_string()),
        stop_reason: None,
    });
    e
}

fn call(args: Arguments) -> ToolCall {
    ToolCall { id: "t1".to_string(), tool: "shell".to_string(), args }
}

fn given(value: Json) -> ToolCall {
    call(Arguments::Given(value))
}

fn spelled(text: &str) -> ToolCall {
    call(Arguments::Spelled(text.to_string()))
}

fn chunks(outcome: StreamOutcome) -> Vec<StreamChunk> {
    match outcome {
        StreamOutcome::Chunks(chunks) => chunks,
        StreamOutcome::Failed(e) => panic!("{:?}", e),
    }
}

fn shown(chunks: &[StreamChunk]) -> String {
    format!("{:?}", chunks)
}

#[test]
fn the_start_of_the_message_brings_the_usage() {
    let mut state = StreamState::new();
    let mut e = event("message_start");
    assert!(chunks(state.handle_event(event("message_start"))).is_empty());
    assert_eq!(state.usage, None);
    e.message = Some(AnthropicStreamMessage {
        usage: Some(AnthropicUsage {
            input_tokens: 10,
            output_tokens: 2,
            cache_creation_input_tokens: 3,
            cache_read_input_tokens: 4,
        }),
    });
    assert!(chunks(state.handle_event(e)).is_empty());
    assert_eq!(
        state.usage,
        Some(Usage {
            prompt_tokens: 10,
            completion_tokens: 2,
            total_tokens: 12,
            cache_creation_tokens: 3,
            cache_read_tokens: 4,
        })
    );
}

#[test]
fn a_tool_call_with_its_arguments_goes_out_at_once() {
    let mut state = StreamState::new();
    let out = chunks(state.handle_event(tool_start(one_member())));
    assert_eq!(shown(&out), shown(&[StreamChunk::ToolCalls(vec![given(one_member())])]));
    assert!(state.tool_calls.is_empty());
    assert!(chunks(state.handle_event(event("content_block_stop"))).is_empty());
}

#[test]
fn arguments_are_put_together_from_fragments() {
    for input in [Json::Object(vec![]), Json::Null] {
        let mut state = StreamState::new();
        let out = chunks(state.handle_event(tool_start(input)));
        assert_eq!(shown(&out), shown(&[StreamChunk::ToolHint("shell".to_string())]));
        for fragment in ["{ \"command\": ", "\"ls\"", ", \"n\": [1, 2.50] }"] {
            let out = chunks(state.handle_event(delta(None, Some(fragment))));
            assert_eq!(shown(&out), shown(&[StreamChunk::ToolActive]));
        }
        let out = chunks(state.handle_event(event("content_block_stop")));
        assert_eq!(
            shown(&out),
            shown(&[StreamChunk::ToolCalls(vec![spelled(
                "{ \"command\": \"ls\", \"n\": [1, 2.50] }"
            )])])
        );
        assert!(state.tool_calls.is_empty());
        assert_eq!(state.partial_tool_json, "");
    }
}

#[test]
fn fragments_that_spell_no_json_leave_the_arguments_as_they_were() {
    let mut state = StreamState::new();
    chunks(state.handle_event(tool_start(Json::Object(vec![]))));
    chunks(state.handle_event(delta(None, Some("{\"command\":"))));
    let out = chunks(state.handle_event(event("content_block_stop")));
    assert_eq!(shown(&out), shown(&[StreamChunk::ToolCalls(vec![given(Json::Object(vec![]))])]));
    assert_eq!(state.partial_tool_json, "");
}

#[test]
fn the_value_that_was_read_goes_to_the_last_call() {
    let mut state = StreamState::new();
    state.tool_calls = vec![given(Json::Object(vec![])), given(Json::Null)];
    state.partial_tool_json = "x".to_string();
    let out = state.finish_block(true);
    assert_eq!(shown(&out), shown(&[StreamChunk::ToolCalls(vec![given(Json::Object(vec![])), spelled("x")])]));
    state.partial_tool_json = "kept".to_string();
    assert!(state.finish_block(true).is_empty());
    assert_eq!(state.partial_tool_json, "kept");
    state.tool_calls = vec![given(Json::Object(vec![]))];
    state.partial_tool_json = String::new();
    let out = state.finish_block(true);
    assert_eq!(shown(&out), shown(&[StreamChunk::ToolCalls(vec![given(Json::Object(vec![]))])]));
}

#[test]
fn text_goes_out_as_it_came_in() {
    let mut state = StreamState::new();
    let out = chunks(state.handle_event(delta(Some("Hi "), None)));
    assert_eq!(shown(&out), shown(&[StreamChunk::Text("Hi ".to_string())]));
    let out = chunks(state.handle_event(delta(Some("a"), Some("{"))));
    assert_eq!(
        shown(&out),
        shown(&[StreamChunk::Text("a".to_string()), StreamChunk::ToolActive])
    );
    assert!(chunks(state.handle_event(event("content_block_delta"))).is_empty());
    let mut e = event("content_block_start");
    e.content_block =
        Some(AnthropicContent::Text { text: "t".to_string(), cache_control: None });
    assert!(chunks(state.handle_event(e)).is_empty());
    assert!(chunks(state.handle_event(event("ping"))).is_empty());
}

#[test]
fn the_end_of_the_message_brings_the_reason() {
    let mut state = StreamState::new();
    let mut e = event("message_delta");
    e.delta = Some(AnthropicDelta {
        text: None,
        partial_json: None,
        stop_reason: Some("end_turn".to_string()),
    });
    assert!(chunks(state.handle_event(e)).is_empty());
    assert!(chunks(state.handle_event(event("message_delta"))).is_empty());
    let out = chunks(state.handle_event(event("message_stop")));
    assert_eq!(
        shown(&out),
        shown(&[StreamChunk::FinalWithReason {
            tool_calls: vec![],
            usage: None,
            stop_reason: Some("end_turn".to_string()),
        }])
    );
    assert!(state.message_stopped);
}

#[test]
fn lines_with_data_are_parsed() {
    let mut parser = StreamParser::new();
    parser.receive("event: ping\r\n\r\n  data: {\"a\":1}  \r\ndata:\nda");
    match parser.next_step() {
        StreamStep::Parse(data) => assert_eq!(data, "{\"a\":1}"),
        other => panic!("{:?}", other),
    }
    assert!(matches!(parser.next_step(), StreamStep::ReadMore));
    assert_eq!(parser.line_buffer, "da");
    parser.receive("ta: x\n");
    match parser.next_step() {
        StreamStep::Parse(data) => assert_eq!(data, "x"),
        other => panic!("{:?}", other),
    }
    assert!(matches!(parser.next_step(), StreamStep::ReadMore));
}

#[test]
fn pieces_may_be_cut_anywhere() {
    let stream = "data: one\n\ndata: two\n: note\ndata: three\n";
    let chars: Vec<char> = stream.chars().collect();
    for size in 1..chars.len() + 1 {
        let mut parser = StreamParser::new();
        let mut seen: Vec<String> = Vec::new();
        for piece in chars.chunks(size) {
            parser.receive(&piece.iter().collect::<String>());
            loop {
                match parser.next_step() {
                    StreamStep::ReadMore => break,
                    StreamStep::Parse(data) => seen.push(data),
                    StreamStep::Finish(chunk) => panic!("{:?}", chunk),
                }
            }
        }
        assert_eq!(seen, vec!["one", "two", "three"]);
    }
}

#[test]
fn the_marker_ends_the_stream() {
    let mut parser = StreamParser::new();
    parser.state.tool_calls = vec![given(Json::Object(vec![]))];
    parser.receive("data: [DONE]\ndata: x\n");
    match parser.next_step() {
        StreamStep::Finish(chunk) => assert_eq!(
            shown(&[chunk]),
            shown(&[StreamChunk::Final { tool_calls: vec![given(Json::Object(vec![]))], usage: None }])
        ),
        other => panic!("{:?}", other),
    }
    assert_eq!(parser.line_buffer, "data: x\n");
    assert_eq!(
        shown(&[parser.final_chunk()]),
        shown(&[StreamChunk::Final { tool_calls: vec![given(Json::Object(vec![]))], usage: None }])
    );
    assert_eq!(parser.usage(), None);
}

#[test]
fn nothing_follows_the_end_of_the_message() {
    let mut parser = StreamParser::new();
    parser.receive("data: stop\ndata: x\ndata: [DONE]\nda");
    assert!(matches!(parser.next_step(), StreamStep::Parse(_)));
    assert_eq!(chunks(parser.event_parsed(Some(event("message_stop")))).len(), 1);
    assert!(matches!(parser.next_step(), StreamStep::ReadMore));
    assert_eq!(parser.line_buffer, "da");
}

#[test]
fn after_an_error_the_rest_waits_for_the_next_piece() {
    let error = AnthropicError {
        error_type: "overloaded_error".to_string(),
        message: "Overloaded".to_string(),
    };
    let mut parser = StreamParser::new();
    parser.receive("data: e\ndata: x\n");
    assert!(matches!(parser.next_step(), StreamStep::Parse(_)));
    let mut e = event("error");
    e.error = Some(error.clone());
    match parser.event_parsed(Some(e)) {
        StreamOutcome::Failed(found) => assert_eq!(found, error),
        other => panic!("{:?}", other),
    }
    assert!(matches!(parser.next_step(), StreamStep::ReadMore));
    assert_eq!(parser.line_buffer, "data: x\n");
    parser.receive("");
    match parser.next_step() {
        StreamStep::Parse(data) => assert_eq!(data, "x"),
        other => panic!("{:?}", other),
    }
    // An error event that says nothing leads to nothing, and so does data that
    // spells no event.
    assert!(chunks(parser.event_parsed(Some(event("error")))).is_empty());
    assert!(chunks(parser.event_parsed(None)).is_empty());
}

#[test]
fn any_other_input_is_complete() {
    for input in [
        Json::Bool(false),
        Json::Number("0".to_string()),
        Json::Text(String::new()),
        Json::Array(vec![]),
        one_member(),
    ] {
        let mut state = StreamState::new();
        let out = state.handle_block_start(tool_start(input.clone()));
        assert_eq!(shown(&out), shown(&[StreamChunk::ToolCalls(vec![given(input)])]));
        assert!(state.tool_calls.is_empty());
    }
}

#[test]
fn what_spells_no_value_is_dropped() {
    let mut state = StreamState::new();
    state.tool_calls = vec![given(Json::Null)];
    state.partial_tool_json = "[1]".to_string();
    let out = state.finish_block(false);
    assert_eq!(shown(&out), shown(&[StreamChunk::ToolCalls(vec![given(Json::Null)])]));
    assert_eq!(state.partial_tool_json, "");
    // Text that is nested deeper than a parser goes spells no value.
    for (depth, expected) in [(100, true), (1000, false)] {
        state.tool_calls = vec![given(Json::Null)];
        state.partial_tool_json = format!("{}{}", "[".repeat(depth), "]".repeat(depth));
        let text = state.partial_tool_json.clone();
        let out = state.handle_block_stop();
        let call = if expected { spelled(&text) } else { given(Json::Null) };
        assert_eq!(shown(&out), shown(&[StreamChunk::ToolCalls(vec![call])]));
    }
}

fn run(pieces: &[&[u8]]) -> String {
    let mut parser = StreamParser::new();
    let mut sent: Vec<StreamChunk> = Vec::new();
    for piece in pieces {
        if !parser.receive_bytes(piece) {
            continue;
        }
        loop {
            match parser.next_step() {
                StreamStep::ReadMore => break,
                StreamStep::Finish(chunk) => {
                    sent.push(chunk);
                    return shown(&sent);
                }
                StreamStep::Parse(data) => {
                    sent.extend(chunks(parser.event_parsed(Some(delta(Some(&data), None)))))
                }
            }
        }
    }
    sent.push(parser.final_chunk());
    shown(&sent)
}

#[test]
fn bytes_may_be_cut_anywhere() {
    let stream = "data: \u{e9}\u{20ac}\n\ndata: \u{1F4CB} x\ndata: last\n".as_bytes();
    for stream in [stream, [stream, b"data: [DONE]\ndata: more\n"].concat().as_slice()] {
        let whole = run(&[stream]);
        assert!(whole.contains("\u{e9}\u{20ac}"));
        assert!(whole.contains("\u{1F4CB} x"));
        for size in 1..stream.len() {
            let pieces: Vec<&[u8]> = stream.chunks(size).collect();
            assert_eq!(run(&pieces), whole);
        }
    }
}

#[test]
fn a_character_waits_for_its_last_byte() {
    let mut parser = StreamParser::new();
    assert!(!parser.receive_bytes(&[]));
    assert!(!parser.receive_bytes(&[0xe2]));
    assert!(!parser.receive_bytes(&[0x82]));
    assert_eq!(parser.byte_buffer, vec![0xe2, 0x82]);
    assert!(parser.receive_bytes(&[0xac, b'a', 0xc3]));
    assert_eq!(parser.line_buffer, "\u{20ac}a");
    assert_eq!(parser.byte_buffer, vec![0xc3]);
    // A byte that can never be text stops what follows it.
    assert!(!parser.receive_bytes(&[0xff, b'b']));
    assert_eq!(parser.line_buffer, "\u{20ac}a");
}
