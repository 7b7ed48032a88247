//! How the stream of events that answers a request is read.
//!
//! The text of the stream comes in pieces. [`StreamParser`] says what to do
//! next: read another piece, parse the data of an event, or finish. What a
//! parsed event leads to is sent on as chunks.
use crate::anthropic::provider::{self, convert_usage};
use crate::anthropic::wire::{
    AnthropicContent, AnthropicDelta, AnthropicError, AnthropicStreamEvent, AnthropicStreamMessage,
};
use crate::chat::{self, Args, Arguments, Call, ToolCall, Usage};
use crate::json::{self, Json, Value};
use crate::text;
use vstd::prelude::*;
use vstd::string::StringExecFns;

verus! {

// ---------------------------------------------------------------------------
// Chunks
// ---------------------------------------------------------------------------

/// A piece of the answer that is sent on.
#[derive(Debug)]
pub enum StreamChunk {
    /// Text
    Text(String),
    /// Tool calls with all their arguments
    ToolCalls(Vec<ToolCall>),
    /// The name of a tool whose arguments are still to come
    ToolHint(String),
    /// Arguments of a tool are coming in
    ToolActive,
    /// The end of the stream
    Final { tool_calls: Vec<ToolCall>, usage: Option<Usage> },
    /// The end of the message, and why it ended
    FinalWithReason {
        tool_calls: Vec<ToolCall>,
        usage: Option<Usage>,
        stop_reason: Option<String>,
    },
}

/// A piece of the answer, in terms of its text.
pub enum Chunk {
    Text(Seq<char>),
    ToolCalls(Seq<Call>),
    ToolHint(Seq<char>),
    ToolActive,
    Final { tool_calls: Seq<Call>, usage: Option<Usage> },
    FinalWithReason {
        tool_calls: Seq<Call>,
        usage: Option<Usage>,
        stop_reason: Option<Seq<char>>,
    },
}

/// The tool calls, in terms of their text.
pub open spec fn calls(tool_calls: Seq<ToolCall>) -> Seq<Call> {
    tool_calls.map_values(|c: ToolCall| c@)
}

impl View for StreamChunk {
    type V = Chunk;

    open spec fn view(&self) -> Chunk {
        match *self {
            StreamChunk::Text(text) => Chunk::Text(text@),
            StreamChunk::ToolCalls(tool_calls) => Chunk::ToolCalls(calls(tool_calls@)),
            StreamChunk::ToolHint(name) => Chunk::ToolHint(name@),
            StreamChunk::ToolActive => Chunk::ToolActive,
            StreamChunk::Final { tool_calls, usage } => Chunk::Final {
                tool_calls: calls(tool_calls@),
                usage,
            },
            StreamChunk::FinalWithReason { tool_calls, usage, stop_reason } =>
                Chunk::FinalWithReason {
                tool_calls: calls(tool_calls@),
                usage,
                stop_reason: text::optional_string(stop_reason),
            },
        }
    }
}

/// The chunks, in terms of their text.
pub open spec fn chunk_texts(chunks: Seq<StreamChunk>) -> Seq<Chunk> {
    chunks.map_values(|c: StreamChunk| c@)
}

// ---------------------------------------------------------------------------
// What each event does
// ---------------------------------------------------------------------------

/// What has come in so far. Each `handle_*` method processes one event type
/// and returns the chunks to send.
#[derive(Debug)]
pub struct StreamState {
    /// Tool calls whose arguments are still to come
    pub tool_calls: Vec<ToolCall>,
    /// The arguments of the last of them, as far as they have come
    pub partial_tool_json: String,
    pub usage: Option<Usage>,
    pub message_stopped: bool,
    pub stop_reason: Option<String>,
}

/// What has come in so far, in terms of its text.
pub struct Progress {
    pub tool_calls: Seq<Call>,
    pub partial_json: Seq<char>,
    pub usage: Option<Usage>,
    pub stopped: bool,
    pub stop_reason: Option<Seq<char>>,
}

impl View for StreamState {
    type V = Progress;

    open spec fn view(&self) -> Progress {
        Progress {
            tool_calls: calls(self.tool_calls@),
            partial_json: self.partial_tool_json@,
            usage: self.usage,
            stopped: self.message_stopped,
            stop_reason: text::optional_string(self.stop_reason),
        }
    }
}

/// What has come in before the first event.
pub open spec fn at_start() -> Progress {
    Progress {
        tool_calls: Seq::empty(),
        partial_json: Seq::empty(),
        usage: None,
        stopped: false,
        stop_reason: None,
    }
}

/// The start of the message says what the prompt has cost.
pub open spec fn after_message_start(
    before: Progress,
    message: Option<AnthropicStreamMessage>,
) -> Progress {
    match message {
        Some(message) => match message.usage {
            Some(usage) => Progress { usage: Some(provider::usage_of(usage)), ..before },
            None => before,
        },
        None => before,
    }
}

/// Whether what the start of the message costs can be counted in a machine integer.
pub open spec fn start_fits(message: Option<AnthropicStreamMessage>) -> bool {
    message matches Some(message) ==> (message.usage matches Some(usage) ==> provider::usage_fits(
        usage,
    ))
}

/// Whether the arguments of a tool call are all there: `null` and an object
/// without members stand for arguments that are still to come.
pub open spec fn has_complete_args(input: Value) -> bool {
    input != Value::Null && input != json::empty_object()
}

/// The start of a content block.
pub open spec fn after_block_start(
    before: Progress,
    content_block: Option<AnthropicContent>,
) -> (Progress, Seq<Chunk>) {
    match content_block {
        Some(AnthropicContent::ToolUse { id, name, input }) => {
            let call = Call { id: id@, tool: name@, args: Args::Given(input@) };
            if has_complete_args(input@) {
                (before, seq![Chunk::ToolCalls(seq![call])])
            } else {
                (
                    Progress {
                        tool_calls: before.tool_calls.push(call),
                        partial_json: Seq::empty(),
                        ..before
                    },
                    seq![Chunk::ToolHint(name@)],
                )
            }
        },
        _ => (before, Seq::empty()),
    }
}

/// What is added to a content block: text goes out, and arguments of a tool
/// are gathered.
pub open spec fn after_block_delta(before: Progress, delta: Option<AnthropicDelta>) -> (
    Progress,
    Seq<Chunk>,
) {
    match delta {
        Some(delta) => {
            let said = match delta.text {
                Some(text) => seq![Chunk::Text(text@)],
                None => Seq::empty(),
            };
            match delta.partial_json {
                Some(fragment) => (
                    Progress { partial_json: before.partial_json + fragment@, ..before },
                    said.push(Chunk::ToolActive),
                ),
                None => (before, said),
            }
        },
        None => (before, Seq::empty()),
    }
}

/// The tool calls after the gathered text was given to the last of them as its
/// arguments.
pub open spec fn with_arguments(tool_calls: Seq<Call>, gathered: Seq<char>) -> Seq<Call> {
    tool_calls.update(
        tool_calls.len() - 1,
        Call { args: Args::Spelled(gathered), ..tool_calls.last() },
    )
}

/// The end of a content block, given whether the gathered text spells a JSON
/// value: the tool calls that were waiting go out. Text that spells none is
/// dropped.
pub open spec fn after_block_stop(before: Progress, spells_value: bool) -> (Progress, Seq<Chunk>) {
    if before.tool_calls.len() == 0 {
        (before, Seq::empty())
    } else if before.partial_json.len() == 0 {
        (
            Progress { tool_calls: Seq::empty(), ..before },
            seq![Chunk::ToolCalls(before.tool_calls)],
        )
    } else {
        (
            Progress { tool_calls: Seq::empty(), partial_json: Seq::empty(), ..before },
            seq![
                Chunk::ToolCalls(
                    if spells_value {
                        with_arguments(before.tool_calls, before.partial_json)
                    } else {
                        before.tool_calls
                    },
                ),
            ],
        )
    }
}

/// What is added to the message: why it ends.
pub open spec fn after_message_delta(before: Progress, delta: Option<AnthropicDelta>) -> Progress {
    match delta {
        Some(delta) => match delta.stop_reason {
            Some(reason) => Progress { stop_reason: Some(reason@), ..before },
            None => before,
        },
        None => before,
    }
}

/// The end of the message.
pub open spec fn after_message_stop(before: Progress) -> (Progress, Seq<Chunk>) {
    (
        Progress { stopped: true, ..before },
        seq![
            Chunk::FinalWithReason {
                tool_calls: before.tool_calls,
                usage: before.usage,
                stop_reason: before.stop_reason,
            },
        ],
    )
}

/// What an event leads to.
#[derive(Debug)]
pub enum StreamOutcome {
    /// These chunks are sent on
    Chunks(Vec<StreamChunk>),
    /// The API has reported this error
    Failed(AnthropicError),
}

/// What an event leads to, in terms of its text.
pub enum Outcome {
    Chunks(Seq<Chunk>),
    Failed(AnthropicError),
}

impl View for StreamOutcome {
    type V = Outcome;

    open spec fn view(&self) -> Outcome {
        match *self {
            StreamOutcome::Chunks(chunks) => Outcome::Chunks(chunk_texts(chunks@)),
            StreamOutcome::Failed(error) => Outcome::Failed(error),
        }
    }
}

/// What an event leads to, given whether the gathered text spells a JSON value.
/// Events of other types lead to nothing.
pub open spec fn after_event(
    before: Progress,
    event: AnthropicStreamEvent,
    spells_value: bool,
) -> (Progress, Outcome) {
    let kind = event.event_type@;
    if kind == "message_start"@ {
        (after_message_start(before, event.message), Outcome::Chunks(Seq::empty()))
    } else if kind == "content_block_start"@ {
        let (after, chunks) = after_block_start(before, event.content_block);
        (after, Outcome::Chunks(chunks))
    } else if kind == "content_block_delta"@ {
        let (after, chunks) = after_block_delta(before, event.delta);
        (after, Outcome::Chunks(chunks))
    } else if kind == "content_block_stop"@ {
        let (after, chunks) = after_block_stop(before, spells_value);
        (after, Outcome::Chunks(chunks))
    } else if kind == "message_delta"@ {
        (after_message_delta(before, event.delta), Outcome::Chunks(Seq::empty()))
    } else if kind == "message_stop"@ {
        let (after, chunks) = after_message_stop(before);
        (after, Outcome::Chunks(chunks))
    } else if kind == "error"@ {
        match event.error {
            Some(error) => (before, Outcome::Failed(error)),
            None => (before, Outcome::Chunks(Seq::empty())),
        }
    } else {
        (before, Outcome::Chunks(Seq::empty()))
    }
}

/// What the event that some data spelled leads to. Data that spells none leads
/// to nothing.
pub open spec fn after_parse(before: Progress, event: Option<AnthropicStreamEvent>) -> (
    Progress,
    Outcome,
) {
    match event {
        Some(event) => after_event(before, event, json::is_json(before.partial_json)),
        None => (before, Outcome::Chunks(Seq::empty())),
    }
}

/// A copy of the tool calls.
fn copy_calls(tool_calls: &Vec<ToolCall>) -> (r: Vec<ToolCall>)
    ensures
        calls(r@) == calls(tool_calls@),
{
    let mut copies: Vec<ToolCall> = Vec::new();
    let mut i: usize = 0;
    while i < tool_calls.len()
        invariant
            i <= tool_calls@.len(),
            copies@.len() == i,
            forall|j: int| 0 <= j < i ==> (#[trigger] copies@[j])@ == tool_calls@[j]@,
        decreases tool_calls@.len() - i,
    {
        copies.push(tool_calls[i].clone());
        i = i + 1;
    }
    assert(calls(copies@) =~= calls(tool_calls@));
    copies
}

/// A copy of the text, where there is one.
fn copy_optional(s: &Option<String>) -> (r: Option<String>)
    ensures
        r == *s,
{
    match s {
        Some(s) => Some(s.clone()),
        None => None,
    }
}

/// Just one chunk.
fn one_chunk(chunk: StreamChunk) -> (r: Vec<StreamChunk>)
    ensures
        chunk_texts(r@) == seq![chunk@],
{
    let mut chunks: Vec<StreamChunk> = Vec::new();
    chunks.push(chunk);
    assert(chunk_texts(chunks@) =~= seq![chunk@]);
    chunks
}

/// No chunks.
fn no_chunks() -> (r: Vec<StreamChunk>)
    ensures
        chunk_texts(r@) == Seq::<Chunk>::empty(),
{
    let chunks: Vec<StreamChunk> = Vec::new();
    assert(chunk_texts(chunks@) =~= Seq::<Chunk>::empty());
    chunks
}

impl StreamState {
    /// What has come in before the first event.
    pub fn new() -> (r: Self)
        ensures
            r@ == at_start(),
    {
        let r = StreamState {
            tool_calls: Vec::new(),
            partial_tool_json: String::new(),
            usage: None,
            message_stopped: false,
            stop_reason: None,
        };
        assert(r@.tool_calls =~= Seq::<Call>::empty());
        r
    }

    /// Takes over what the start of the message says.
    pub fn handle_message_start(&mut self, event: &AnthropicStreamEvent)
        requires
            start_fits(event.message),
        ensures
            final(self)@ == after_message_start(old(self)@, event.message),
    {
        if let Some(message) = &event.message {
            if let Some(usage) = &message.usage {
                self.usage = Some(convert_usage(usage));
            }
        }
    }

    /// Returns chunks to send for a content_block_start event.
    pub fn handle_block_start(&mut self, event: AnthropicStreamEvent) -> (r: Vec<StreamChunk>)
        ensures
            (final(self)@, chunk_texts(r@)) == after_block_start(old(self)@, event.content_block),
    {
        match event.content_block {
            Some(AnthropicContent::ToolUse { id, name, input }) => {
                let complete = !input.is_void();
                let hint = name.clone();
                let tool_call = ToolCall { id, tool: name, args: Arguments::Given(input) };
                if complete {
                    let mut tool_calls: Vec<ToolCall> = Vec::new();
                    tool_calls.push(tool_call);
                    assert(calls(tool_calls@) =~= seq![tool_call@]);
                    one_chunk(StreamChunk::ToolCalls(tool_calls))
                } else {
                    // The arguments come in as partial JSON
                    let ghost before = self.tool_calls@;
                    self.tool_calls.push(tool_call);
                    assert(calls(self.tool_calls@) =~= calls(before).push(tool_call@));
                    self.partial_tool_json = String::new();
                    one_chunk(StreamChunk::ToolHint(hint))
                }
            },
            _ => no_chunks(),
        }
    }

    /// Returns chunks to send for a content_block_delta event.
    pub fn handle_block_delta(&mut self, event: AnthropicStreamEvent) -> (r: Vec<StreamChunk>)
        ensures
            (final(self)@, chunk_texts(r@)) == after_block_delta(old(self)@, event.delta),
    {
        let delta = match event.delta {
            Some(delta) => delta,
            None => return no_chunks(),
        };
        let mut chunks = match delta.text {
            Some(text) => one_chunk(StreamChunk::Text(text)),
            None => no_chunks(),
        };
        if let Some(fragment) = delta.partial_json {
            let ghost before = chunks@;
            self.partial_tool_json.append(fragment.as_str());
            chunks.push(StreamChunk::ToolActive);
            assert(chunk_texts(chunks@) =~= chunk_texts(before).push(Chunk::ToolActive));
        }
        chunks
    }

    /// Returns chunks to send when a content block finishes.
    pub fn handle_block_stop(&mut self) -> (r: Vec<StreamChunk>)
        ensures
            (final(self)@, chunk_texts(r@)) == after_block_stop(
                old(self)@,
                json::is_json(old(self)@.partial_json),
            ),
    {
        let spells_value = json::spells_json(self.partial_tool_json.as_str());
        self.finish_block(spells_value)
    }

    /// Returns chunks to send when a content block finishes, given whether the
    /// gathered text spells a JSON value.
    pub fn finish_block(&mut self, spells_value: bool) -> (r: Vec<StreamChunk>)
        ensures
            (final(self)@, chunk_texts(r@)) == after_block_stop(old(self)@, spells_value),
    {
        let ghost waiting = calls(self.tool_calls@);
        let n = self.tool_calls.len();
        assert(waiting.len() == n);
        if n == 0 {
            return no_chunks();
        }
        let mut tool_calls: Vec<ToolCall> = Vec::new();
        std::mem::swap(&mut tool_calls, &mut self.tool_calls);
        assert(calls(self.tool_calls@) =~= Seq::<Call>::empty());
        // Finalize accumulated partial JSON into the last tool call's args
        if !self.partial_tool_json.as_str().is_empty() {
            let mut gathered = String::new();
            std::mem::swap(&mut gathered, &mut self.partial_tool_json);
            if spells_value {
                let ghost text = gathered@;
                tool_calls[n - 1].args = Arguments::Spelled(gathered);
                assert(calls(tool_calls@) =~= with_arguments(waiting, text));
            }
        }
        one_chunk(StreamChunk::ToolCalls(tool_calls))
    }

    /// Takes over why the message ends.
    pub fn handle_message_delta(&mut self, event: &AnthropicStreamEvent)
        ensures
            final(self)@ == after_message_delta(old(self)@, event.delta),
    {
        if let Some(delta) = &event.delta {
            if let Some(reason) = &delta.stop_reason {
                self.stop_reason = Some(reason.clone());
            }
        }
    }

    /// Returns chunks to send when the message ends.
    pub fn handle_message_stop(&mut self) -> (r: Vec<StreamChunk>)
        ensures
            (final(self)@, chunk_texts(r@)) == after_message_stop(old(self)@),
    {
        self.message_stopped = true;
        one_chunk(
            StreamChunk::FinalWithReason {
                tool_calls: copy_calls(&self.tool_calls),
                usage: self.usage,
                stop_reason: copy_optional(&self.stop_reason),
            },
        )
    }

    /// Dispatch to the handler of the event.
    pub fn handle_event(&mut self, event: AnthropicStreamEvent) -> (r: StreamOutcome)
        requires
            event.event_type@ == "message_start"@ ==> start_fits(event.message),
        ensures
            (final(self)@, r@) == after_event(
                old(self)@,
                event,
                json::is_json(old(self)@.partial_json),
            ),
    {
        let kind = event.event_type.as_str();
        if text::same(kind, "message_start") {
            self.handle_message_start(&event);
            StreamOutcome::Chunks(no_chunks())
        } else if text::same(kind, "content_block_start") {
            StreamOutcome::Chunks(self.handle_block_start(event))
        } else if text::same(kind, "content_block_delta") {
            StreamOutcome::Chunks(self.handle_block_delta(event))
        } else if text::same(kind, "content_block_stop") {
            StreamOutcome::Chunks(self.handle_block_stop())
        } else if text::same(kind, "message_delta") {
            self.handle_message_delta(&event);
            StreamOutcome::Chunks(no_chunks())
        } else if text::same(kind, "message_stop") {
            StreamOutcome::Chunks(self.handle_message_stop())
        } else if text::same(kind, "error") {
            match event.error {
                Some(error) => StreamOutcome::Failed(error),
                None => StreamOutcome::Chunks(no_chunks()),
            }
        } else {
            StreamOutcome::Chunks(no_chunks())
        }
    }
}

// ---------------------------------------------------------------------------
// Lines
// ---------------------------------------------------------------------------

/// What is to be done next with a stream.
#[derive(Debug)]
pub enum StreamStep {
    /// Read another piece of the stream
    ReadMore,
    /// Parse this data as an event
    Parse(String),
    /// Send this chunk; nothing follows
    Finish(StreamChunk),
}

/// What a line asks for, in terms of its text.
pub enum Demand {
    More,
    Parse(Seq<char>),
    Done,
}

/// The data that a line carries, if it carries any.
pub open spec fn data_of(line: Seq<char>) -> Option<Seq<char>> {
    if text::matches_at(text::trimmed(line), "data: "@, 0) {
        Some(text::trimmed(line).skip(6))
    } else {
        None
    }
}

/// What the text asks for first, and what is left of it then. Lines without
/// data are skipped, and so is everything once the message has ended. A line
/// that has not ended yet stays.
pub open spec fn scan(buffer: Seq<char>, stopped: bool) -> (Demand, Seq<char>)
    decreases buffer.len(),
    via scan_decreases
{
    match text::first_index(buffer, '\n') {
        None => (Demand::More, buffer),
        Some(end) => {
            let rest = buffer.skip(end as int + 1);
            match data_of(buffer.take(end as int)) {
                Some(data) if !stopped => if data == "[DONE]"@ {
                    (Demand::Done, rest)
                } else {
                    (Demand::Parse(data), rest)
                },
                _ => scan(rest, stopped),
            }
        },
    }
}

#[via_fn]
proof fn scan_decreases(buffer: Seq<char>, stopped: bool) {
    text::lemma_first_index(buffer, '\n');
}

/// Reads a stream of events.
#[derive(Debug)]
pub struct StreamParser {
    pub state: StreamState,
    /// Bytes that have come in and are no text yet
    pub byte_buffer: Vec<u8>,
    /// Text that has come in and was not looked at yet
    pub line_buffer: String,
    /// Whether to wait for more to come in, although lines may be left
    pub paused: bool,
}

/// What a parser has come to, in terms of its text.
pub struct Reading {
    pub progress: Progress,
    pub pending: Seq<u8>,
    pub buffer: Seq<char>,
    pub paused: bool,
}

impl View for StreamParser {
    type V = Reading;

    open spec fn view(&self) -> Reading {
        Reading {
            progress: self.state@,
            pending: self.byte_buffer@,
            buffer: self.line_buffer@,
            paused: self.paused,
        }
    }
}

/// What a parser has come to before anything has come in.
pub open spec fn before_reading() -> Reading {
    Reading { progress: at_start(), pending: Seq::empty(), buffer: Seq::empty(), paused: false }
}

/// What a parser has come to after another piece of text.
pub open spec fn after_text(before: Reading, piece: Seq<char>) -> Reading {
    Reading { buffer: before.buffer + piece, paused: false, ..before }
}

/// Whether a piece brings text, together with what was pending.
pub open spec fn brings_text(before: Reading, piece: Seq<u8>) -> bool {
    text::text_len(before.pending + piece) > 0
}

/// What a parser has come to after another piece of bytes.
pub open spec fn after_byte_piece(before: Reading, piece: Seq<u8>) -> Reading {
    let bytes = before.pending + piece;
    if brings_text(before, piece) {
        Reading {
            pending: bytes.skip(text::text_len(bytes) as int),
            ..after_text(before, text::leading_text(bytes))
        }
    } else {
        Reading { pending: bytes, ..before }
    }
}

/// The chunk at the end of the stream.
pub open spec fn final_chunk(progress: Progress) -> Chunk {
    Chunk::Final { tool_calls: progress.tool_calls, usage: progress.usage }
}

/// Whether a step is the one that the text asks for.
pub open spec fn step_meets(step: StreamStep, demand: Demand, progress: Progress) -> bool {
    match (step, demand) {
        (StreamStep::ReadMore, Demand::More) => true,
        (StreamStep::Parse(data), Demand::Parse(expected)) => data@ == expected,
        (StreamStep::Finish(chunk), Demand::Done) => chunk@ == final_chunk(progress),
        _ => false,
    }
}

impl StreamParser {
    /// A parser before anything has come in.
    pub fn new() -> (r: Self)
        ensures
            r@ == before_reading(),
    {
        StreamParser {
            state: StreamState::new(),
            byte_buffer: Vec::new(),
            line_buffer: String::new(),
            paused: false,
        }
    }

    /// Takes in another piece of the stream, and says whether it has brought
    /// text. The bytes of a character may come in different pieces. Bytes that
    /// no further bytes can make text of stay, with all that follows.
    pub fn receive_bytes(&mut self, piece: &[u8]) -> (r: bool)
        ensures
            final(self)@ == after_byte_piece(old(self)@, piece@),
            r == brings_text(old(self)@, piece@),
    {
        let mut i: usize = 0;
        while i < piece.len()
            invariant
                i <= piece@.len(),
                self.byte_buffer@ == old(self).byte_buffer@ + piece@.take(i as int),
                self.state == old(self).state,
                self.line_buffer == old(self).line_buffer,
                self.paused == old(self).paused,
            decreases piece@.len() - i,
        {
            self.byte_buffer.push(piece[i]);
            i = i + 1;
            assert(self.byte_buffer@ =~= old(self).byte_buffer@ + piece@.take(i as int));
        }
        assert(piece@.take(i as int) =~= piece@);
        let ghost all = self.byte_buffer@;
        match text::take_text(&mut self.byte_buffer) {
            Some(piece) => {
                self.receive(piece.as_str());
                true
            },
            None => {
                assert(all.skip(0) =~= all);
                false
            },
        }
    }

    /// Takes in another piece of the stream, as text.
    pub fn receive(&mut self, piece: &str)
        ensures
            final(self)@ == after_text(old(self)@, piece@),
    {
        self.line_buffer.append(piece);
        self.paused = false;
    }

    /// What is to be done next.
    pub fn next_step(&mut self) -> (r: StreamStep)
        ensures
            final(self)@.progress == old(self)@.progress,
            final(self)@.pending == old(self)@.pending,
            final(self)@.paused == old(self)@.paused,
            if old(self)@.paused {
                r is ReadMore && final(self)@.buffer == old(self)@.buffer
            } else {
                let (demand, rest) = scan(old(self)@.buffer, old(self)@.progress.stopped);
                step_meets(r, demand, old(self)@.progress) && final(self)@.buffer == rest
            },
    {
        if self.paused {
            return StreamStep::ReadMore;
        }
        let stopped = self.state.message_stopped;
        let v = text::chars_of(self.line_buffer.as_str());
        let prefix = text::chars_of("data: ");
        let mut pos: usize = 0;
        assert(v@.skip(0) =~= v@);
        loop
            invariant
                pos <= v.len(),
                *self == *old(self),
                !self.paused,
                prefix@ == "data: "@,
                stopped == self.state.message_stopped,
                scan(self@.buffer, stopped) == scan(v@.skip(pos as int), stopped),
            decreases v@.len() - pos,
        {
            let ghost rest = v@.skip(pos as int);
            let end = match text::first_index_from(&v, '\n', pos) {
                Some(end) => end,
                None => {
                    self.line_buffer = text::string_of(&v, pos, v.len());
                    assert(self.line_buffer@ =~= rest);
                    return StreamStep::ReadMore;
                },
            };
            let line = text::trim(text::string_of(&v, pos, end).as_str());
            assert(v@.subrange(pos as int, end as int) =~= rest.take(end - pos));
            assert(rest.skip(end - pos + 1) =~= v@.skip(end + 1));
            pos = end + 1;
            let chars = text::chars_of(line.as_str());
            if stopped || !text::stands_at(&chars, &prefix, 0) {
                continue;
            }
            proof {
                reveal_strlit("data: ");
            }
            let n = chars.len();
            let data = text::string_of(&chars, 6, n);
            assert(data@ =~= line@.skip(6));
            self.line_buffer = text::string_of(&v, pos, v.len());
            assert(self.line_buffer@ =~= v@.skip(pos as int));
            // Stream completion marker
            if text::same(data.as_str(), "[DONE]") {
                return StreamStep::Finish(self.final_chunk());
            }
            return StreamStep::Parse(data);
        }
    }

    /// Takes in the event that the data spelled. Data that spells none leads to
    /// nothing. After an error, what else has come in waits for the next piece.
    pub fn event_parsed(&mut self, event: Option<AnthropicStreamEvent>) -> (r: StreamOutcome)
        requires
            event matches Some(event) ==> (event.event_type@ == "message_start"@ ==> start_fits(
                event.message,
            )),
        ensures
            final(self)@.buffer == old(self)@.buffer,
            final(self)@.pending == old(self)@.pending,
            (final(self)@.progress, r@) == after_parse(old(self)@.progress, event),
            final(self)@.paused == (old(self)@.paused || r@ is Failed),
    {
        match event {
            Some(event) => {
                let outcome = self.state.handle_event(event);
                if let StreamOutcome::Failed(_) = &outcome {
                    self.paused = true;
                }
                outcome
            },
            None => StreamOutcome::Chunks(no_chunks()),
        }
    }

    /// The chunk at the end of the stream.
    pub fn final_chunk(&self) -> (r: StreamChunk)
        ensures
            r@ == final_chunk(self@.progress),
    {
        StreamChunk::Final {
            tool_calls: copy_calls(&self.state.tool_calls),
            usage: self.state.usage,
        }
    }

    /// What the exchange has cost, as far as it is known.
    pub fn usage(&self) -> (r: Option<Usage>)
        ensures
            r == self@.progress.usage,
    {
        self.state.usage
    }
}

// ---------------------------------------------------------------------------
// Laws
// ---------------------------------------------------------------------------

/// How the stream is cut into pieces does not matter. What a piece asks for is
/// the same whatever comes behind it; and where it asks for more, reading on
/// with what is left of it is like having had both pieces at once.
pub proof fn law_pieces_do_not_matter(first: Seq<char>, second: Seq<char>, stopped: bool)
    ensures
        match scan(first, stopped).0 {
            Demand::More => scan(first + second, stopped) == scan(
                scan(first, stopped).1 + second,
                stopped,
            ),
            demand => scan(first + second, stopped) == (demand, scan(first, stopped).1 + second),
        },
    decreases first.len(),
{
    text::lemma_first_index(first, '\n');
    if let Some(end) = text::first_index(first, '\n') {
        let both = first + second;
        let rest = first.skip(end as int + 1);
        assert forall|j: int| 0 <= j < end implies #[trigger] both[j] != '\n' by {
            assert(both[j] == first[j]);
        }
        text::lemma_first_index_is(both, '\n', end);
        assert(both.take(end as int) =~= first.take(end as int));
        assert(both.skip(end as int + 1) =~= rest + second);
        law_pieces_do_not_matter(rest, second, stopped);
    }
}

/// Once the message has ended, nothing that comes in leads to anything.
pub proof fn law_nothing_follows_the_end(buffer: Seq<char>)
    ensures
        scan(buffer, true).0 is More,
    decreases buffer.len(),
{
    text::lemma_first_index(buffer, '\n');
    if let Some(end) = text::first_index(buffer, '\n') {
        law_nothing_follows_the_end(buffer.skip(end as int + 1));
    }
}

/// What is left of the text is an end of it: nothing is made up or reordered.
pub proof fn law_rest_is_a_suffix(buffer: Seq<char>, stopped: bool)
    ensures
        scan(buffer, stopped).1.len() <= buffer.len(),
        scan(buffer, stopped).1 == buffer.skip(buffer.len() - scan(buffer, stopped).1.len()),
        !(scan(buffer, stopped).0 is More) ==> scan(buffer, stopped).1.len() < buffer.len(),
    decreases buffer.len(),
{
    text::lemma_first_index(buffer, '\n');
    if let Some(end) = text::first_index(buffer, '\n') {
        let rest = buffer.skip(end as int + 1);
        law_rest_is_a_suffix(rest, stopped);
        let left = scan(buffer, stopped).1;
        assert(left =~= buffer.skip(buffer.len() - left.len()));
    } else {
        assert(buffer.skip(0) =~= buffer);
    }
}

/// What has come in after all of `deltas`.
pub open spec fn after_deltas(before: Progress, deltas: Seq<AnthropicDelta>) -> Progress
    decreases deltas.len(),
{
    if deltas.len() == 0 {
        before
    } else {
        after_block_delta(after_deltas(before, deltas.drop_last()), Some(deltas.last())).0
    }
}

/// The fragments of arguments that `deltas` carry, one after the other.
pub open spec fn fragments(deltas: Seq<AnthropicDelta>) -> Seq<char>
    decreases deltas.len(),
{
    if deltas.len() == 0 {
        Seq::empty()
    } else {
        let front = fragments(deltas.drop_last());
        match deltas.last().partial_json {
            Some(fragment) => front + fragment@,
            None => front,
        }
    }
}

proof fn lemma_after_deltas(before: Progress, deltas: Seq<AnthropicDelta>)
    ensures
        after_deltas(before, deltas) == (Progress {
            partial_json: before.partial_json + fragments(deltas),
            ..before
        }),
    decreases deltas.len(),
{
    if deltas.len() == 0 {
        assert(before.partial_json + fragments(deltas) =~= before.partial_json);
    } else {
        lemma_after_deltas(before, deltas.drop_last());
        assert(before.partial_json + fragments(deltas) =~= match deltas.last().partial_json {
            Some(fragment) => before.partial_json + fragments(deltas.drop_last()) + fragment@,
            None => before.partial_json + fragments(deltas.drop_last()),
        });
    }
}

/// The arguments of a tool call that come in fragments are put together: when
/// the block ends, and the fragments spell a JSON value, the call goes out with
/// them as its arguments, and nothing is left waiting.
pub proof fn law_tool_arguments_are_put_together(
    before: Progress,
    id: String,
    name: String,
    input: Json,
    deltas: Seq<AnthropicDelta>,
)
    requires
        before.tool_calls.len() == 0,
        !has_complete_args(input@),
        fragments(deltas).len() > 0,
    ensures
        ({
            let (started, _) = after_block_start(
                before,
                Some(AnthropicContent::ToolUse { id, name, input }),
            );
            let filled = after_deltas(started, deltas);
            let (stopped, chunks) = after_block_stop(filled, true);
            &&& filled.partial_json == fragments(deltas)
            &&& chunks == seq![
                Chunk::ToolCalls(
                    seq![Call { id: id@, tool: name@, args: Args::Spelled(fragments(deltas)) }],
                ),
            ]
            &&& stopped == Progress { partial_json: Seq::empty(), ..before }
        }),
{
    let started = after_block_start(
        before,
        Some(AnthropicContent::ToolUse { id, name, input }),
    ).0;
    lemma_after_deltas(started, deltas);
    let filled = after_deltas(started, deltas);
    assert(filled.partial_json =~= fragments(deltas));
    let call = Call { id: id@, tool: name@, args: Args::Spelled(fragments(deltas)) };
    assert(with_arguments(filled.tool_calls, filled.partial_json) =~= seq![call]);
    assert(before.tool_calls =~= Seq::<Call>::empty());
}

/// Text goes out as it came in, and changes nothing else.
pub proof fn law_text_passes_through(before: Progress, delta: AnthropicDelta)
    requires
        delta.text is Some,
        delta.partial_json is None,
    ensures
        after_block_delta(before, Some(delta)) == (before, seq![Chunk::Text(delta.text->0@)]),
{
}

/// The reason that the message gives for its end is the one that is reported.
pub proof fn law_stop_reason_is_reported(before: Progress, delta: AnthropicDelta)
    requires
        delta.stop_reason is Some,
    ensures
        after_message_stop(after_message_delta(before, Some(delta))).1 == seq![
            Chunk::FinalWithReason {
                tool_calls: before.tool_calls,
                usage: before.usage,
                stop_reason: Some(delta.stop_reason->0@),
            },
        ],
{
}

// ---------------------------------------------------------------------------
// A whole stream
// ---------------------------------------------------------------------------

/// What is sent on: a piece of the answer, or an error that the API has
/// reported.
pub enum Sent {
    Chunk(Chunk),
    Error(AnthropicError),
}

/// What is sent on after an event.
pub open spec fn sent_after(outcome: Outcome) -> Seq<Sent> {
    match outcome {
        Outcome::Chunks(chunks) => chunks.map_values(|c: Chunk| Sent::Chunk(c)),
        Outcome::Failed(error) => seq![Sent::Error(error)],
    }
}

/// How far the reading of a stream has come: what the parser has come to, what
/// was sent on, and whether the stream has ended with its marker.
pub struct Run {
    pub reading: Reading,
    pub sent: Seq<Sent>,
    pub finished: bool,
}

/// Taking one step after the other until more has to be read. `parse` is how
/// data spells an event.
pub open spec fn drained(
    reading: Reading,
    parse: spec_fn(Seq<char>) -> Option<AnthropicStreamEvent>,
) -> Run
    decreases reading.buffer.len(),
    via drained_decreases
{
    let (demand, rest) = scan(reading.buffer, reading.progress.stopped);
    if reading.paused {
        Run { reading, sent: Seq::empty(), finished: false }
    } else {
        match demand {
            Demand::More => Run {
                reading: Reading { buffer: rest, ..reading },
                sent: Seq::empty(),
                finished: false,
            },
            Demand::Done => Run {
                reading: Reading { buffer: rest, ..reading },
                sent: seq![Sent::Chunk(final_chunk(reading.progress))],
                finished: true,
            },
            Demand::Parse(data) => {
                let (progress, outcome) = after_parse(reading.progress, parse(data));
                let next = drained(
                    Reading { progress, buffer: rest, paused: outcome is Failed, ..reading },
                    parse,
                );
                Run { sent: sent_after(outcome) + next.sent, ..next }
            },
        }
    }
}

#[via_fn]
proof fn drained_decreases(
    reading: Reading,
    parse: spec_fn(Seq<char>) -> Option<AnthropicStreamEvent>,
) {
    law_rest_is_a_suffix(reading.buffer, reading.progress.stopped);
}

/// Reading the pieces of a stream one after the other. Each that brings text is
/// followed by the steps that can then be taken; nothing follows the marker.
pub open spec fn run(
    pieces: Seq<Seq<u8>>,
    parse: spec_fn(Seq<char>) -> Option<AnthropicStreamEvent>,
) -> Run
    decreases pieces.len(),
{
    if pieces.len() == 0 {
        Run { reading: before_reading(), sent: Seq::empty(), finished: false }
    } else {
        let front = run(pieces.drop_last(), parse);
        let reading = after_byte_piece(front.reading, pieces.last());
        if front.finished {
            front
        } else if brings_text(front.reading, pieces.last()) {
            let next = drained(reading, parse);
            Run { sent: front.sent + next.sent, ..next }
        } else {
            Run { reading, ..front }
        }
    }
}

/// All that is sent on for a stream: where it ends without its marker, the
/// last chunk follows.
pub open spec fn all_sent(
    pieces: Seq<Seq<u8>>,
    parse: spec_fn(Seq<char>) -> Option<AnthropicStreamEvent>,
) -> Seq<Sent> {
    let end = run(pieces, parse);
    if end.finished {
        end.sent
    } else {
        end.sent.push(Sent::Chunk(final_chunk(end.reading.progress)))
    }
}

/// Whether no error is sent on: no event has reported one.
pub open spec fn without_errors(sent: Seq<Sent>) -> bool {
    forall|k: int| 0 <= k < sent.len() ==> !(#[trigger] sent[k] is Error)
}

/// What is sent on in two parts is without errors where both parts are.
proof fn lemma_without_errors(a: Seq<Sent>, b: Seq<Sent>)
    ensures
        without_errors(a + b) <==> without_errors(a) && without_errors(b),
{
    if without_errors(a + b) {
        assert forall|k: int| 0 <= k < a.len() implies !(#[trigger] a[k] is Error) by {
            assert((a + b)[k] == a[k]);
        }
        assert forall|k: int| 0 <= k < b.len() implies !(#[trigger] b[k] is Error) by {
            assert((a + b)[a.len() + k] == b[k]);
        }
    }
}

/// More text behind does not change what is done before it: reading on with
/// what is left is like having had both at once.
proof fn lemma_drained_joined(
    reading: Reading,
    more: Seq<char>,
    parse: spec_fn(Seq<char>) -> Option<AnthropicStreamEvent>,
)
    requires
        !reading.paused,
        without_errors(drained(reading, parse).sent),
    ensures
        ({
            let first = drained(reading, parse);
            let both = drained(after_text(reading, more), parse);
            &&& !first.reading.paused
            &&& first.reading.pending == reading.pending
            &&& if first.finished {
                &&& both.finished
                &&& both.sent == first.sent
                &&& both.reading.progress == first.reading.progress
            } else {
                let next = drained(after_text(first.reading, more), parse);
                &&& both.sent == first.sent + next.sent
                &&& both.reading == next.reading
                &&& both.finished == next.finished
            }
        }),
    decreases reading.buffer.len(),
{
    let stopped = reading.progress.stopped;
    let (demand, rest) = scan(reading.buffer, stopped);
    let joined = after_text(reading, more);
    law_rest_is_a_suffix(reading.buffer, stopped);
    law_pieces_do_not_matter(reading.buffer, more, stopped);
    match demand {
        Demand::More => {
            let first = drained(reading, parse);
            let next = drained(after_text(first.reading, more), parse);
            assert(scan(joined.buffer, stopped) == scan(rest + more, stopped));
            assert(first.sent + next.sent =~= next.sent);
            lemma_drained_by_scan(joined, after_text(first.reading, more), parse);
        },
        Demand::Done => {},
        Demand::Parse(data) => {
            let (progress, outcome) = after_parse(reading.progress, parse(data));
            let step = Reading { progress, buffer: rest, paused: outcome is Failed, ..reading };
            lemma_without_errors(sent_after(outcome), drained(step, parse).sent);
            if let Outcome::Failed(error) = outcome {
                assert(sent_after(outcome)[0] == Sent::Error(error));
            }
            lemma_drained_joined(step, more, parse);
            let later = drained(step, parse);
            let last = drained(after_text(later.reading, more), parse);
            assert(sent_after(outcome) + (later.sent + last.sent) =~= sent_after(outcome)
                + later.sent + last.sent);
        },
    }
}

/// What is done depends on the text only through what it asks for.
proof fn lemma_drained_by_scan(
    a: Reading,
    b: Reading,
    parse: spec_fn(Seq<char>) -> Option<AnthropicStreamEvent>,
)
    requires
        scan(a.buffer, a.progress.stopped) == scan(b.buffer, b.progress.stopped),
        a.progress == b.progress,
        a.pending == b.pending,
        !a.paused,
        !b.paused,
    ensures
        drained(a, parse) == drained(b, parse),
{
}

/// The text of the pieces, as far as it is complete, and the bytes that are
/// left then.
pub open spec fn text_of(pieces: Seq<Seq<u8>>) -> (Seq<char>, Seq<u8>)
    decreases pieces.len(),
{
    if pieces.len() == 0 {
        (Seq::empty(), Seq::empty())
    } else {
        let (front, pending) = text_of(pieces.drop_last());
        let bytes = pending + pieces.last();
        (front + text::leading_text(bytes), bytes.skip(text::text_len(bytes) as int))
    }
}

/// Reading the pieces is like having had their text at once.
proof fn lemma_run_is_drained(
    pieces: Seq<Seq<u8>>,
    parse: spec_fn(Seq<char>) -> Option<AnthropicStreamEvent>,
)
    requires
        without_errors(run(pieces, parse).sent),
    ensures
        ({
            let (all, pending) = text_of(pieces);
            let end = run(pieces, parse);
            let once = drained(after_text(before_reading(), all), parse);
            &&& end.finished == once.finished
            &&& end.sent == once.sent
            &&& end.reading.progress == once.reading.progress
            &&& !end.finished ==> {
                &&& end.reading.buffer == once.reading.buffer
                &&& end.reading.pending == pending
                &&& !end.reading.paused
            }
        }),
    decreases pieces.len(),
{
    let start = before_reading();
    let (all, pending) = text_of(pieces);
    if pieces.len() == 0 {
        assert(start.buffer + all =~= Seq::<char>::empty());
        assert(text::first_index(start.buffer + all, '\n') is None);
    } else {
        let (early, left) = text_of(pieces.drop_last());
        let front = run(pieces.drop_last(), parse);
        lemma_without_errors(
            front.sent,
            drained(after_byte_piece(front.reading, pieces.last()), parse).sent,
        );
        lemma_run_is_drained(pieces.drop_last(), parse);
        let bytes = left + pieces.last();
        let more = text::leading_text(bytes);
        let first = after_text(start, early);
        let before = drained(first, parse);
        lemma_drained_joined(first, more, parse);
        assert(start.buffer + all =~= start.buffer + early + more);
        assert(after_text(first, more) == after_text(start, all));
        if !before.finished {
            if brings_text(front.reading, pieces.last()) {
                let next = after_byte_piece(front.reading, pieces.last());
                let same_text = after_text(before.reading, more);
                assert(next == Reading { pending: next.pending, ..same_text });
                lemma_drained_keeps_pending(same_text, next.pending, parse);
                lemma_drained_joined(same_text, Seq::empty(), parse);
            } else {
                text::lemma_text_len(bytes, bytes.len());
                assert(bytes.take(0) =~= Seq::<u8>::empty());
                assert(more =~= Seq::<char>::empty());
                assert(all =~= early);
                assert(bytes.skip(0) =~= bytes);
            }
        }
    }
}

/// Bytes that are no text yet are carried along, and change nothing.
proof fn lemma_drained_keeps_pending(
    reading: Reading,
    pending: Seq<u8>,
    parse: spec_fn(Seq<char>) -> Option<AnthropicStreamEvent>,
)
    ensures
        ({
            let a = drained(reading, parse);
            let b = drained(Reading { pending, ..reading }, parse);
            b == Run { reading: Reading { pending, ..a.reading }, ..a }
        }),
    decreases reading.buffer.len(),
{
    let (demand, rest) = scan(reading.buffer, reading.progress.stopped);
    law_rest_is_a_suffix(reading.buffer, reading.progress.stopped);
    if let Demand::Parse(data) = demand {
        if !reading.paused {
            let (progress, outcome) = after_parse(reading.progress, parse(data));
            lemma_drained_keeps_pending(
                Reading { progress, buffer: rest, paused: outcome is Failed, ..reading },
                pending,
                parse,
            );
        }
    }
}

/// The bytes of all pieces, one after the other.
pub open spec fn all_bytes(pieces: Seq<Seq<u8>>) -> Seq<u8>
    decreases pieces.len(),
{
    if pieces.len() == 0 {
        Seq::empty()
    } else {
        all_bytes(pieces.drop_last()) + pieces.last()
    }
}

/// The text that was taken and the bytes that are left are the bytes that came
/// in, and no more text could have been taken.
proof fn lemma_text_of(pieces: Seq<Seq<u8>>)
    ensures
        ({
            let (all, pending) = text_of(pieces);
            &&& vstd::utf8::encode_utf8(all) + pending == all_bytes(pieces)
            &&& pending.len() > 0 ==> !vstd::utf8::valid_utf8(pending)
        }),
    decreases pieces.len(),
{
    let (all, pending) = text_of(pieces);
    if pieces.len() == 0 {
        assert(vstd::utf8::encode_utf8(all) + pending =~= all_bytes(pieces));
    } else {
        lemma_text_of(pieces.drop_last());
        let (early, left) = text_of(pieces.drop_last());
        let bytes = left + pieces.last();
        let n = text::text_len(bytes) as int;
        let head = bytes.take(n);
        text::lemma_text_len(bytes, bytes.len());
        vstd::utf8::decode_utf8_encode_utf8(head);
        text::lemma_encode_joined(early, vstd::utf8::decode_utf8(head));
        assert(head + pending =~= bytes);
        assert(vstd::utf8::encode_utf8(all) + pending =~= vstd::utf8::encode_utf8(early) + (head
            + pending));
        assert(vstd::utf8::encode_utf8(early) + bytes =~= all_bytes(pieces));
        if pending.len() > 0 && vstd::utf8::valid_utf8(pending) {
            vstd::utf8::valid_utf8_concat(head, pending);
            assert(bytes.take(bytes.len() as int) =~= bytes);
        }
    }
}

/// Where the pieces are text in UTF-8 together, all of it is taken.
proof fn lemma_all_text_is_taken(pieces: Seq<Seq<u8>>)
    requires
        vstd::utf8::valid_utf8(all_bytes(pieces)),
    ensures
        text_of(pieces).0 == vstd::utf8::decode_utf8(all_bytes(pieces)),
{
    let (all, pending) = text_of(pieces);
    let bytes = all_bytes(pieces);
    let n = vstd::utf8::encode_utf8(all).len() as int;
    lemma_text_of(pieces);
    vstd::utf8::encode_utf8_valid_utf8(all);
    assert(bytes.subrange(0, n) =~= vstd::utf8::encode_utf8(all));
    assert(bytes.subrange(n, bytes.len() as int) =~= pending);
    if !vstd::utf8::valid_utf8(pending) {
        vstd::utf8::partial_valid_partial_invalid_utf8(bytes, n);
    }
    assert(bytes =~= vstd::utf8::encode_utf8(all));
    vstd::utf8::encode_utf8_decode_utf8(all);
}

/// How a stream is cut into pieces does not matter: where the bytes are the
/// same text in UTF-8, and no event reports an error, the same is sent on and
/// the same usage comes out, however the bytes are cut, even inside a line or a
/// character. After an error, the lines that have come in with it wait for the
/// next piece; where none comes, they are not read.
pub proof fn law_same_bytes_send_the_same(
    pieces: Seq<Seq<u8>>,
    others: Seq<Seq<u8>>,
    parse: spec_fn(Seq<char>) -> Option<AnthropicStreamEvent>,
)
    requires
        all_bytes(pieces) == all_bytes(others),
        vstd::utf8::valid_utf8(all_bytes(pieces)),
        without_errors(run(pieces, parse).sent),
        without_errors(run(others, parse).sent),
    ensures
        all_sent(pieces, parse) == all_sent(others, parse),
        run(pieces, parse).reading.progress.usage == run(others, parse).reading.progress.usage,
{
    lemma_run_is_drained(pieces, parse);
    lemma_run_is_drained(others, parse);
    lemma_all_text_is_taken(pieces);
    lemma_all_text_is_taken(others);
}

/// Whether the arguments of all of the calls are well-formed.
pub open spec fn all_well_formed(tool_calls: Seq<Call>) -> bool {
    forall|k: int|
        0 <= k < tool_calls.len() ==> chat::args_well_formed((#[trigger] tool_calls[k]).args)
}

/// Whether the arguments of all tool calls of a chunk are well-formed.
pub open spec fn chunk_is_well_formed(chunk: Chunk) -> bool {
    match chunk {
        Chunk::ToolCalls(tool_calls) => all_well_formed(tool_calls),
        Chunk::Final { tool_calls, .. } => all_well_formed(tool_calls),
        Chunk::FinalWithReason { tool_calls, .. } => all_well_formed(tool_calls),
        _ => true,
    }
}

/// The arguments of tool calls stay well-formed: where they are so of the calls
/// that wait, and in the event, they are so of the calls that wait then and of
/// those that go out.
pub proof fn law_arguments_stay_well_formed(
    before: Progress,
    event: AnthropicStreamEvent,
    k: int,
)
    ensures
        ({
            let (after, outcome) = after_event(before, event, json::is_json(before.partial_json));
            all_well_formed(before.tool_calls) && (event.content_block matches Some(
                AnthropicContent::ToolUse { input, .. },
            ) ==> json::well_formed(input@)) ==> {
                &&& all_well_formed(after.tool_calls)
                &&& outcome matches Outcome::Chunks(chunks) ==> (0 <= k < chunks.len()
                    ==> chunk_is_well_formed(chunks[k]))
            }
        }),
{
    if all_well_formed(before.tool_calls) {
        let filled = with_arguments(before.tool_calls, before.partial_json);
        if before.tool_calls.len() > 0 && json::is_json(before.partial_json) {
            assert forall|i: int| 0 <= i < filled.len() implies chat::args_well_formed(
                (#[trigger] filled[i]).args,
            ) by {
                assert(chat::args_well_formed(before.tool_calls[i].args));
            }
        }
        if let Some(AnthropicContent::ToolUse { id, name, input }) = event.content_block {
            let call = Call { id: id@, tool: name@, args: Args::Given(input@) };
            let waiting = before.tool_calls.push(call);
            if json::well_formed(input@) {
                assert forall|i: int| 0 <= i < waiting.len() implies chat::args_well_formed(
                    (#[trigger] waiting[i]).args,
                ) by {
                    if i < before.tool_calls.len() {
                        assert(waiting[i] == before.tool_calls[i]);
                    }
                }
            }
        }
    }
}

// ---------------------------------------------------------------------------
// What becomes of each event
// ---------------------------------------------------------------------------

/// Chunks and progress say all that they hold.
pub proof fn law_chunks_tell_all(
    chunk: StreamChunk,
    state: StreamState,
    parser: StreamParser,
    tool_calls: Seq<ToolCall>,
    chunks: Seq<StreamChunk>,
    i: int,
)
    ensures
        calls(tool_calls).len() == tool_calls.len(),
        0 <= i < tool_calls.len() ==> calls(tool_calls)[i] == tool_calls[i]@,
        chunk_texts(chunks).len() == chunks.len(),
        0 <= i < chunks.len() ==> chunk_texts(chunks)[i] == chunks[i]@,
        chunk matches StreamChunk::Text(text) ==> chunk@ == Chunk::Text(text@),
        chunk matches StreamChunk::ToolCalls(v) ==> chunk@ == Chunk::ToolCalls(calls(v@)),
        chunk matches StreamChunk::ToolHint(name) ==> chunk@ == Chunk::ToolHint(name@),
        chunk is ToolActive <==> chunk@ is ToolActive,
        chunk matches StreamChunk::Final { tool_calls: v, usage } ==> chunk@ == (Chunk::Final {
            tool_calls: calls(v@),
            usage,
        }),
        chunk matches StreamChunk::FinalWithReason { tool_calls: v, usage, stop_reason } ==> chunk@
            == (Chunk::FinalWithReason {
            tool_calls: calls(v@),
            usage,
            stop_reason: match stop_reason {
                Some(reason) => Some(reason@),
                None => None,
            },
        }),
        state@.tool_calls == calls(state.tool_calls@),
        state@.partial_json == state.partial_tool_json@,
        state@.usage == state.usage,
        state@.stopped == state.message_stopped,
        state@.stop_reason is Some <==> state.stop_reason is Some,
        state.stop_reason matches Some(reason) ==> state@.stop_reason == Some(reason@),
        parser@.progress == parser.state@,
        parser@.pending == parser.byte_buffer@,
        parser@.buffer == parser.line_buffer@,
        parser@.paused == parser.paused,
{
}

/// What an event leads to says all that it holds.
pub proof fn law_outcome_tells_all(outcome: StreamOutcome)
    ensures
        outcome matches StreamOutcome::Chunks(chunks) ==> outcome@ == Outcome::Chunks(
            chunk_texts(chunks@),
        ),
        outcome matches StreamOutcome::Failed(error) ==> outcome@ == Outcome::Failed(error),
{
}

/// At the start nothing has come in: no calls wait, nothing is gathered, there
/// is no usage and no reason to stop, and the message has not ended.
pub proof fn law_nothing_has_come_in_at_the_start()
    ensures
        at_start().tool_calls.len() == 0,
        at_start().partial_json.len() == 0,
        at_start().usage is None,
        !at_start().stopped,
        at_start().stop_reason is None,
        before_reading().progress == at_start(),
        before_reading().pending.len() == 0,
        before_reading().buffer.len() == 0,
        !before_reading().paused,
{
}

/// No tool call is lost: at the end of a block, whatever was gathered and whether
/// or not it spells a value, the calls that wait go out in one chunk, as many as
/// there were, with their ids and tools in their order, and with their arguments
/// unchanged for all but the last. Where none wait, nothing goes out. Afterwards
/// none wait, and nothing else has changed but what was gathered.
pub proof fn law_waiting_calls_go_out_at_the_end_of_the_block(
    before: Progress,
    spells_value: bool,
    i: int,
)
    ensures
        ({
            let (after, chunks) = after_block_stop(before, spells_value);
            &&& before.tool_calls.len() == 0 ==> chunks.len() == 0 && after == before
            &&& before.tool_calls.len() > 0 ==> {
                &&& chunks.len() == 1
                &&& chunks[0] matches Chunk::ToolCalls(sent) && {
                    &&& sent.len() == before.tool_calls.len()
                    &&& 0 <= i < sent.len() ==> sent[i].id == before.tool_calls[i].id
                        && sent[i].tool == before.tool_calls[i].tool
                    &&& 0 <= i < sent.len() - 1 ==> sent[i].args == before.tool_calls[i].args
                }
                &&& after.tool_calls.len() == 0
                &&& after.partial_json.len() == 0
            }
            &&& after.usage == before.usage
            &&& after.stopped == before.stopped
            &&& after.stop_reason == before.stop_reason
        }),
{
}

/// The last of the calls that wait goes out with the text that was gathered, if
/// that spells a value, and with the arguments that it came with, if nothing was
/// gathered or what was gathered spells none.
pub proof fn law_last_call_gets_what_was_gathered(before: Progress, spells_value: bool)
    requires
        before.tool_calls.len() > 0,
    ensures
        after_block_stop(before, spells_value).1[0] matches Chunk::ToolCalls(sent) && sent.len() > 0
            && sent.last().args == if before.partial_json.len() > 0 && spells_value {
            Args::Spelled(before.partial_json)
        } else {
            before.tool_calls.last().args
        },
{
}

/// A tool that is called without arguments is called: where no fragments come,
/// or only empty ones, the call goes out at the end of its block with the input
/// that it started with.
pub proof fn law_call_without_fragments_goes_out(
    before: Progress,
    id: String,
    name: String,
    input: Json,
    deltas: Seq<AnthropicDelta>,
    spells_value: bool,
)
    requires
        before.tool_calls.len() == 0,
        !has_complete_args(input@),
        fragments(deltas).len() == 0,
    ensures
        ({
            let (started, hint) = after_block_start(
                before,
                Some(AnthropicContent::ToolUse { id, name, input }),
            );
            let (stopped, chunks) = after_block_stop(after_deltas(started, deltas), spells_value);
            &&& hint == seq![Chunk::ToolHint(name@)]
            &&& chunks == seq![
                Chunk::ToolCalls(seq![Call { id: id@, tool: name@, args: Args::Given(input@) }]),
            ]
            &&& stopped.tool_calls.len() == 0
        }),
{
    let started = after_block_start(
        before,
        Some(AnthropicContent::ToolUse { id, name, input }),
    ).0;
    lemma_after_deltas(started, deltas);
    let call = Call { id: id@, tool: name@, args: Args::Given(input@) };
    assert(before.tool_calls.push(call) =~= seq![call]);
}

/// The arguments of a call are still to come exactly where its input is `null`
/// or an object without members.
pub proof fn law_arguments_are_complete_iff(input: Value)
    ensures
        has_complete_args(input) <==> !(input is Null) && !(input matches Value::Object(members)
            && members.len() == 0),
{
    if let Value::Object(members) = input {
        if members.len() == 0 {
            assert(members =~= Seq::empty());
        }
    }
}

/// A tool call that comes with its arguments goes out at once, with its id, its
/// tool and its input, and changes nothing. One whose arguments are still to come
/// waits behind those that wait already, and its tool is announced. Blocks of
/// other kinds lead to nothing.
pub proof fn law_start_of_a_block(
    before: Progress,
    block: Option<AnthropicContent>,
    id: String,
    name: String,
    input: Json,
)
    ensures
        has_complete_args(input@) ==> after_block_start(
            before,
            Some(AnthropicContent::ToolUse { id, name, input }),
        ) == (
            before,
            seq![
                Chunk::ToolCalls(seq![Call { id: id@, tool: name@, args: Args::Given(input@) }]),
            ],
        ),
        !has_complete_args(input@) ==> {
            let (after, chunks) = after_block_start(
                before,
                Some(AnthropicContent::ToolUse { id, name, input }),
            );
            &&& chunks == seq![Chunk::ToolHint(name@)]
            &&& after.tool_calls == before.tool_calls.push(
                Call { id: id@, tool: name@, args: Args::Given(input@) },
            )
            &&& after.partial_json.len() == 0
            &&& after.usage == before.usage
            &&& after.stopped == before.stopped
            &&& after.stop_reason == before.stop_reason
        },
        !(block matches Some(AnthropicContent::ToolUse { .. })) ==> after_block_start(before, block)
            == (before, Seq::<Chunk>::empty()),
{
}

/// What is added to a block: its text goes out as it came, and a fragment of
/// arguments is put behind those that were gathered, and is announced behind the
/// text. Nothing else changes.
pub proof fn law_addition_to_a_block(before: Progress, delta: AnthropicDelta)
    ensures
        ({
            let (after, chunks) = after_block_delta(before, Some(delta));
            let said = match delta.text {
                Some(text) => seq![Chunk::Text(text@)],
                None => Seq::empty(),
            };
            &&& delta.partial_json is None ==> chunks == said && after == before
            &&& delta.partial_json matches Some(fragment) ==> chunks == said + seq![
                Chunk::ToolActive,
            ] && after.partial_json == before.partial_json + fragment@
            &&& after.tool_calls == before.tool_calls
            &&& after.usage == before.usage
            &&& after.stopped == before.stopped
            &&& after.stop_reason == before.stop_reason
        }),
        after_block_delta(before, None) == (before, Seq::<Chunk>::empty()),
{
    if delta.partial_json is Some {
        let chunks = after_block_delta(before, Some(delta)).1;
        let said = match delta.text {
            Some(text) => seq![Chunk::Text(text@)],
            None => Seq::empty(),
        };
        assert(chunks =~= said + seq![Chunk::ToolActive]);
    }
}

/// The start of a message says what the prompt has cost, where it says so, and
/// changes nothing else.
pub proof fn law_start_of_a_message(before: Progress, message: Option<AnthropicStreamMessage>)
    ensures
        ({
            let after = after_message_start(before, message);
            &&& message matches Some(m) ==> (m.usage matches Some(usage) ==> after.usage == Some(
                provider::usage_of(usage),
            ))
            &&& !(message matches Some(m) && m.usage is Some) ==> after == before
            &&& after.tool_calls == before.tool_calls
            &&& after.partial_json == before.partial_json
            &&& after.stopped == before.stopped
            &&& after.stop_reason == before.stop_reason
        }),
        start_fits(message) <==> (message matches Some(m) ==> (m.usage matches Some(usage)
            ==> usage.input_tokens + usage.output_tokens <= u32::MAX)),
{
}

/// What is added to a message is why it ends, where it says so; nothing else
/// changes, and a reason that was given stays until another one comes.
pub proof fn law_addition_to_a_message(before: Progress, delta: Option<AnthropicDelta>)
    ensures
        ({
            let after = after_message_delta(before, delta);
            &&& delta matches Some(d) ==> (d.stop_reason matches Some(reason) ==> after.stop_reason
                == Some(reason@))
            &&& !(delta matches Some(d) && d.stop_reason is Some) ==> after == before
            &&& after.tool_calls == before.tool_calls
            &&& after.partial_json == before.partial_json
            &&& after.usage == before.usage
            &&& after.stopped == before.stopped
        }),
{
}

/// The end of a message goes out once, with the calls that still wait, the usage
/// and the reason, as far as they are known; the message has then ended, and
/// nothing else changes.
pub proof fn law_end_of_a_message(before: Progress)
    ensures
        ({
            let (after, chunks) = after_message_stop(before);
            &&& chunks.len() == 1
            &&& chunks[0] == (Chunk::FinalWithReason {
                tool_calls: before.tool_calls,
                usage: before.usage,
                stop_reason: before.stop_reason,
            })
            &&& after.stopped
            &&& after.tool_calls == before.tool_calls
            &&& after.partial_json == before.partial_json
            &&& after.usage == before.usage
            &&& after.stop_reason == before.stop_reason
        }),
        final_chunk(before) == (Chunk::Final {
            tool_calls: before.tool_calls,
            usage: before.usage,
        }),
{
}

/// Each kind of event does what it is for. An error is reported, and changes
/// nothing. Events of other kinds, and data that spells no event, do nothing.
pub proof fn law_each_event_does_what_it_is_for(
    before: Progress,
    event: AnthropicStreamEvent,
    spells_value: bool,
)
    ensures
        ({
            let kind = event.event_type@;
            let (after, outcome) = after_event(before, event, spells_value);
            &&& kind == "message_start"@ ==> after == after_message_start(before, event.message)
                && outcome == Outcome::Chunks(Seq::empty())
            &&& kind == "content_block_start"@ ==> (after, outcome) == (
                after_block_start(before, event.content_block).0,
                Outcome::Chunks(after_block_start(before, event.content_block).1),
            )
            &&& kind == "content_block_delta"@ ==> (after, outcome) == (
                after_block_delta(before, event.delta).0,
                Outcome::Chunks(after_block_delta(before, event.delta).1),
            )
            &&& kind == "content_block_stop"@ ==> (after, outcome) == (
                after_block_stop(before, spells_value).0,
                Outcome::Chunks(after_block_stop(before, spells_value).1),
            )
            &&& kind == "message_delta"@ ==> after == after_message_delta(before, event.delta)
                && outcome == Outcome::Chunks(Seq::empty())
            &&& kind == "message_stop"@ ==> (after, outcome) == (
                after_message_stop(before).0,
                Outcome::Chunks(after_message_stop(before).1),
            )
            &&& kind == "error"@ ==> after == before && (event.error matches Some(error) ==> outcome
                == Outcome::Failed(error)) && (event.error is None ==> outcome == Outcome::Chunks(
                Seq::empty(),
            ))
            &&& !set![
                "message_start"@,
                "content_block_start"@,
                "content_block_delta"@,
                "content_block_stop"@,
                "message_delta"@,
                "message_stop"@,
                "error"@,
            ].contains(kind) ==> after == before && outcome == Outcome::Chunks(Seq::empty())
            &&& outcome is Failed <==> kind == "error"@ && event.error is Some
        }),
        after_parse(before, Some(event)) == after_event(
            before,
            event,
            json::is_json(before.partial_json),
        ),
        after_parse(before, None) == (before, Outcome::Chunks(Seq::empty())),
{
    lemma_kinds_differ();
}

proof fn lemma_kinds_differ()
    ensures
        "message_start"@.len() == 13,
        "content_block_start"@.len() == 19,
        "content_block_delta"@.len() == 19,
        "content_block_stop"@.len() == 18,
        "message_delta"@.len() == 13,
        "message_stop"@.len() == 12,
        "error"@.len() == 5,
        "message_start"@ != "message_delta"@,
        "content_block_start"@ != "content_block_delta"@,
{
    reveal_strlit("message_start");
    reveal_strlit("content_block_start");
    reveal_strlit("content_block_delta");
    reveal_strlit("content_block_stop");
    reveal_strlit("message_delta");
    reveal_strlit("message_stop");
    reveal_strlit("error");
    assert("message_start"@[8] == 's' && "message_delta"@[8] == 'd');
    assert("content_block_start"@[14] == 's' && "content_block_delta"@[14] == 'd');
}

// ---------------------------------------------------------------------------
// What becomes of each line
// ---------------------------------------------------------------------------

/// A line carries data exactly where it starts with `data: `, white space around
/// it aside, and the data is all that follows.
pub proof fn law_line_carries_data_iff(line: Seq<char>, data: Seq<char>)
    ensures
        data_of(line) == Some(data) <==> text::trimmed(line) == "data: "@ + data,
{
    reveal_strlit("data: ");
    let s = text::trimmed(line);
    if data_of(line) == Some(data) {
        assert(s =~= s.subrange(0, 6) + s.skip(6));
    }
    if s == "data: "@ + data {
        assert(s.subrange(0, 6) =~= "data: "@);
        assert(s.skip(6) =~= data);
    }
}

/// Text without a line end asks for more and stays. The data of the first line
/// is what a text asks for, and what stands behind that line is left; `[DONE]`
/// asks to finish. A line without data is passed over, and so is every line once
/// the message has ended.
pub proof fn law_lines_are_taken_one_by_one(line: Seq<char>, rest: Seq<char>, stopped: bool)
    requires
        !line.contains('\n'),
    ensures
        scan(line, stopped) == (Demand::More, line),
        !stopped ==> (data_of(line) matches Some(data) ==> scan(
            line + seq!['\n'] + rest,
            stopped,
        ) == if data == "[DONE]"@ {
            (Demand::Done, rest)
        } else {
            (Demand::Parse(data), rest)
        }),
        stopped || data_of(line) is None ==> scan(line + seq!['\n'] + rest, stopped) == scan(
            rest,
            stopped,
        ),
{
    let s = line + seq!['\n'] + rest;
    text::lemma_first_index(line, '\n');
    assert(s[line.len() as int] == '\n');
    assert forall|j: int| 0 <= j < line.len() implies #[trigger] s[j] != '\n' by {
        assert(s[j] == line[j]);
    }
    text::lemma_first_index_is(s, '\n', line.len());
    assert(s.take(line.len() as int) =~= line);
    assert(s.skip(line.len() as int + 1) =~= rest);
}

/// The step that is taken is the one that the text asks for: to read more, to
/// parse the data, or to finish with the calls that wait and the usage.
pub proof fn law_step_is_the_one_asked_for(step: StreamStep, demand: Demand, progress: Progress)
    ensures
        demand is More ==> (step_meets(step, demand, progress) <==> step is ReadMore),
        demand matches Demand::Parse(data) ==> (step_meets(step, demand, progress) <==> (
        step matches StreamStep::Parse(asked) && asked@ == data)),
        demand is Done ==> (step_meets(step, demand, progress) <==> (step matches
            StreamStep::Finish(chunk) && chunk@ == (Chunk::Final {
            tool_calls: progress.tool_calls,
            usage: progress.usage,
        }))),
{
}

/// No byte is lost or made up: the text that was not looked at yet, and the bytes
/// that are no text yet, are those from before with the new piece behind them. A
/// piece of text goes behind the text that is there. As many bytes as can be are
/// taken as text, and the rest of the reading stays as it is.
pub proof fn law_no_byte_is_lost(before: Reading, piece: Seq<u8>, more: Seq<char>, k: int)
    ensures
        ({
            let after = after_byte_piece(before, piece);
            &&& vstd::utf8::encode_utf8(after.buffer) + after.pending == vstd::utf8::encode_utf8(
                before.buffer,
            ) + before.pending + piece
            &&& after.progress == before.progress
            &&& brings_text(before, piece) <==> after.buffer.len() > before.buffer.len()
            &&& after.paused == (before.paused && !brings_text(before, piece))
            &&& 0 < k <= after.pending.len() ==> !vstd::utf8::valid_utf8(after.pending.take(k))
        }),
        after_text(before, more).buffer == before.buffer + more,
        after_text(before, more).pending == before.pending,
        after_text(before, more).progress == before.progress,
        !after_text(before, more).paused,
{
    let bytes = before.pending + piece;
    let after = after_byte_piece(before, piece);
    let n = text::text_len(bytes) as int;
    let taken = text::leading_text(bytes);
    text::law_leading_text_is_as_long_as_can_be(bytes, n + k);
    text::lemma_text_len(bytes, bytes.len());
    text::lemma_encode_joined(before.buffer, taken);
    assert(bytes =~= bytes.take(n) + bytes.skip(n));
    if n == 0 {
        assert(bytes.skip(0) =~= bytes);
    } else {
        assert(taken.len() > 0);
    }
    assert(vstd::utf8::encode_utf8(after.buffer) + after.pending =~= vstd::utf8::encode_utf8(
        before.buffer,
    ) + before.pending + piece);
    if 0 < k <= after.pending.len() && vstd::utf8::valid_utf8(after.pending.take(k)) {
        assert(bytes.take(n + k) =~= bytes.take(n) + after.pending.take(k));
        vstd::utf8::valid_utf8_concat(bytes.take(n), after.pending.take(k));
    }
}

} // verus!
