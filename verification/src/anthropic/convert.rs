//! How a conversation and its tools are put into a request.
use crate::anthropic::wire::{
    self, AnthropicContent, AnthropicImageSource, AnthropicMessage, AnthropicTool,
    AnthropicToolInputSchema, Block, ResultBlock, ResultContent, Source, ToolResultBlock,
    ToolResultContent, ToolText, Turn,
};
use crate::chat::{CacheControl, ImageContent, Message, MessageRole, MessageToolCall, Tool};
use crate::json::{self, Json};
use crate::text;
use vstd::prelude::*;
use vstd::string::StringExecFns;

verus! {

// ---------------------------------------------------------------------------
// Tools
// ---------------------------------------------------------------------------

/// A tool as the request names it. Of its schema, only the properties and the
/// required fields count.
pub open spec fn tool_text(tool: Tool) -> ToolText {
    ToolText {
        name: tool.name@,
        description: tool.description@,
        schema_type: "object"@,
        properties: match json::member(tool.input_schema@, "properties"@) {
            Some(properties) => properties,
            None => json::empty_object(),
        },
        required: match json::member(tool.input_schema@, "required"@) {
            Some(required) => json::texts_in(required),
            None => None,
        },
    }
}

/// A tool as the request names it.
pub fn convert_tool(tool: &Tool) -> (r: AnthropicTool)
    ensures
        r@ == tool_text(*tool),
{
    // Extract properties and required fields from the input schema
    let properties = match tool.input_schema.get("properties") {
        Some(properties) => properties.clone(),
        None => Json::empty_object(),
    };
    let required = match tool.input_schema.get("required") {
        Some(required) => required.as_texts(),
        None => None,
    };
    AnthropicTool {
        name: tool.name.clone(),
        description: tool.description.clone(),
        input_schema: AnthropicToolInputSchema {
            schema_type: "object".to_string(),
            properties,
            required,
        },
    }
}

// ---------------------------------------------------------------------------
// Messages
// ---------------------------------------------------------------------------

/// The source of an image.
pub open spec fn source_of(image: ImageContent) -> Source {
    Source { source_type: "base64"@, media_type: image.media_type@, data: image.data@ }
}

/// The content of the tool result that a message carries. Images go inside
/// it, in front of the text.
pub open spec fn result_content(message: Message) -> ResultContent {
    if message.images@.len() == 0 {
        ResultContent::Text(message.content@)
    } else {
        ResultContent::Blocks(
            message.images@.map_values(|i: ImageContent| ResultBlock::Image(source_of(i))).push(
                ResultBlock::Text(message.content@),
            ),
        )
    }
}

/// The content blocks of a user message: the tool result that it carries, or
/// its images and its text.
pub open spec fn user_blocks(message: Message) -> Seq<Block> {
    match message.tool_result_id {
        Some(tool_use_id) => seq![
            Block::ToolResult {
                tool_use_id: tool_use_id@,
                content: result_content(message),
                cache_control: message.cache_control,
            },
        ],
        None => message.images@.map_values(|i: ImageContent| Block::Image(source_of(i))).push(
            Block::Text { text: message.content@, cache_control: message.cache_control },
        ),
    }
}

/// The text block of an assistant message, where the text says something.
pub open spec fn assistant_text(message: Message) -> Seq<Block> {
    if text::is_blank(message.content@) {
        Seq::empty()
    } else {
        seq![Block::Text { text: message.content@, cache_control: message.cache_control }]
    }
}

/// The block for a tool call.
pub open spec fn tool_use(call: MessageToolCall) -> Block {
    Block::ToolUse { id: call.id@, name: call.name@, input: call.input@ }
}

/// The content blocks of an assistant message: its text and its tool calls,
/// but at least one block.
pub open spec fn assistant_blocks(message: Message) -> Seq<Block> {
    let said = assistant_text(message) + message.tool_calls@.map_values(
        |c: MessageToolCall| tool_use(c),
    );
    if said.len() == 0 {
        seq![Block::Text { text: message.content@, cache_control: None }]
    } else {
        said
    }
}

/// A message of a user or the assistant, as the request has it.
pub open spec fn turn_of(message: Message) -> Turn {
    if message.role == MessageRole::User {
        Turn { role: "user"@, content: user_blocks(message) }
    } else {
        Turn { role: "assistant"@, content: assistant_blocks(message) }
    }
}

/// The messages of the user and the assistant, in their order.
pub open spec fn turns_of(messages: Seq<Message>) -> Seq<Turn>
    decreases messages.len(),
{
    if messages.len() == 0 {
        Seq::empty()
    } else {
        let front = turns_of(messages.drop_last());
        if messages.last().role == MessageRole::System {
            front
        } else {
            front.push(turn_of(messages.last()))
        }
    }
}

/// The system messages, joined by empty lines.
pub open spec fn system_text(messages: Seq<Message>) -> Option<Seq<char>>
    decreases messages.len(),
{
    if messages.len() == 0 {
        None
    } else {
        let front = system_text(messages.drop_last());
        if messages.last().role == MessageRole::System {
            match front {
                Some(existing) => Some(existing + "\n\n"@ + messages.last().content@),
                None => Some(messages.last().content@),
            }
        } else {
            front
        }
    }
}

/// A copy of how a message is to be cached.
fn copy_cache_control(cache_control: &Option<CacheControl>) -> (r: Option<CacheControl>)
    ensures
        r == *cache_control,
{
    match cache_control {
        Some(control) => Some(control.clone()),
        None => None,
    }
}

/// The source of an image.
fn convert_image(image: &ImageContent) -> (r: AnthropicImageSource)
    ensures
        r@ == source_of(*image),
{
    AnthropicImageSource {
        source_type: "base64".to_string(),
        media_type: image.media_type.clone(),
        data: image.data.clone(),
    }
}

/// The content of the tool result that a message carries.
fn convert_result_content(message: &Message) -> (r: ToolResultContent)
    ensures
        r@ == result_content(*message),
{
    if message.images.is_empty() {
        return ToolResultContent::Text(message.content.clone());
    }
    let mut blocks: Vec<ToolResultBlock> = Vec::new();
    let mut i: usize = 0;
    while i < message.images.len()
        invariant
            i <= message.images@.len(),
            blocks@.len() == i,
            forall|j: int|
                0 <= j < i ==> (#[trigger] blocks@[j])@ == ResultBlock::Image(
                    source_of(message.images@[j]),
                ),
        decreases message.images@.len() - i,
    {
        blocks.push(ToolResultBlock::Image { source: convert_image(&message.images[i]) });
        i = i + 1;
    }
    blocks.push(ToolResultBlock::Text { text: message.content.clone() });
    assert(blocks@.map_values(|b: ToolResultBlock| b@) =~= message.images@.map_values(
        |i: ImageContent| ResultBlock::Image(source_of(i)),
    ).push(ResultBlock::Text(message.content@)));
    ToolResultContent::Blocks(blocks)
}

/// The content blocks of a user message.
fn convert_user(message: &Message) -> (r: Vec<AnthropicContent>)
    ensures
        wire::blocks(r@) == user_blocks(*message),
{
    let mut content: Vec<AnthropicContent> = Vec::new();
    // Check if this is a tool result message
    if let Some(tool_use_id) = &message.tool_result_id {
        // If images are attached, they go inside the tool result. The API
        // rejects top-level image blocks mixed with tool results in the same
        // user message.
        content.push(
            AnthropicContent::ToolResult {
                tool_use_id: tool_use_id.clone(),
                content: convert_result_content(message),
                cache_control: copy_cache_control(&message.cache_control),
            },
        );
        assert(wire::blocks(content@) =~= user_blocks(*message));
    } else {
        // Regular user message: images as top-level blocks, then text
        let mut i: usize = 0;
        while i < message.images.len()
            invariant
                i <= message.images@.len(),
                content@.len() == i,
                forall|j: int|
                    0 <= j < i ==> (#[trigger] content@[j])@ == Block::Image(
                        source_of(message.images@[j]),
                    ),
            decreases message.images@.len() - i,
        {
            content.push(AnthropicContent::Image { source: convert_image(&message.images[i]) });
            i = i + 1;
        }
        content.push(
            AnthropicContent::Text {
                text: message.content.clone(),
                cache_control: copy_cache_control(&message.cache_control),
            },
        );
        assert(wire::blocks(content@) =~= user_blocks(*message));
    }
    content
}

/// The content blocks of an assistant message.
fn convert_assistant(message: &Message) -> (r: Vec<AnthropicContent>)
    ensures
        wire::blocks(r@) == assistant_blocks(*message),
{
    let ghost calls = message.tool_calls@.map_values(|c: MessageToolCall| tool_use(c));
    let mut content: Vec<AnthropicContent> = Vec::new();
    // Add text content if non-empty
    if !text::blank(message.content.as_str()) {
        content.push(
            AnthropicContent::Text {
                text: message.content.clone(),
                cache_control: copy_cache_control(&message.cache_control),
            },
        );
    }
    assert(wire::blocks(content@) =~= assistant_text(*message));
    // Add tool_use blocks for any structured tool calls
    let mut i: usize = 0;
    assert(assistant_text(*message) + calls.take(0) =~= assistant_text(*message));
    while i < message.tool_calls.len()
        invariant
            i <= message.tool_calls@.len(),
            calls == message.tool_calls@.map_values(|c: MessageToolCall| tool_use(c)),
            wire::blocks(content@) == assistant_text(*message) + calls.take(i as int),
        decreases message.tool_calls@.len() - i,
    {
        let ghost before = content@;
        let call = &message.tool_calls[i];
        content.push(
            AnthropicContent::ToolUse {
                id: call.id.clone(),
                name: call.name.clone(),
                input: call.input.clone(),
            },
        );
        i = i + 1;
        assert(wire::blocks(content@) =~= wire::blocks(before).push(tool_use(*call)));
        assert(wire::blocks(content@) =~= assistant_text(*message) + calls.take(i as int));
    }
    assert(calls.take(i as int) =~= calls);
    assert(content@.len() == wire::blocks(content@).len());
    // Ensure we have at least one content block
    if content.is_empty() {
        content.push(
            AnthropicContent::Text { text: message.content.clone(), cache_control: None },
        );
        assert(wire::blocks(content@) =~= assistant_blocks(*message));
    }
    content
}

/// The system text and the messages of a conversation, before tool calls
/// without a result are taken out.
pub fn convert_all(messages: &[Message]) -> (r: (Option<String>, Vec<AnthropicMessage>))
    ensures
        text::optional_string(r.0) == system_text(messages@),
        wire::turns(r.1@) == turns_of(messages@),
{
    let mut system: Option<String> = None;
    let mut converted: Vec<AnthropicMessage> = Vec::new();
    let mut i: usize = 0;
    assert(messages@.take(0) =~= Seq::<Message>::empty());
    assert(wire::turns(converted@) =~= Seq::<Turn>::empty());
    while i < messages.len()
        invariant
            i <= messages@.len(),
            text::optional_string(system) == system_text(messages@.take(i as int)),
            wire::turns(converted@) == turns_of(messages@.take(i as int)),
        decreases messages@.len() - i,
    {
        let message = &messages[i];
        let ghost before = converted@;
        assert(messages@.take(i + 1).drop_last() =~= messages@.take(i as int));
        assert(messages@.take(i + 1).last() == *message);
        match message.role {
            MessageRole::System => {
                system = match system {
                    Some(existing) => {
                        // Concatenate system messages instead of replacing
                        let mut joined = existing;
                        joined.append("\n\n");
                        joined.append(message.content.as_str());
                        Some(joined)
                    },
                    None => Some(message.content.clone()),
                };
            },
            MessageRole::User => {
                converted.push(
                    AnthropicMessage { role: "user".to_string(), content: convert_user(message) },
                );
                assert(wire::turns(converted@) =~= wire::turns(before).push(turn_of(*message)));
            },
            MessageRole::Assistant => {
                converted.push(
                    AnthropicMessage {
                        role: "assistant".to_string(),
                        content: convert_assistant(message),
                    },
                );
                assert(wire::turns(converted@) =~= wire::turns(before).push(turn_of(*message)));
            },
        }
        i = i + 1;
    }
    assert(messages@.take(i as int) =~= messages@);
    (system, converted)
}

// ---------------------------------------------------------------------------
// Tool calls without a result
// ---------------------------------------------------------------------------

/// The tool calls that the blocks give the results of.
pub open spec fn ids_in(content: Seq<Block>) -> Seq<Seq<char>>
    decreases content.len(),
{
    if content.len() == 0 {
        Seq::empty()
    } else {
        let front = ids_in(content.drop_last());
        match content.last() {
            Block::ToolResult { tool_use_id, .. } => front.push(tool_use_id),
            _ => front,
        }
    }
}

/// The tool calls that a message gives the results of. Only the user gives
/// results.
pub open spec fn result_ids(turn: Turn) -> Seq<Seq<char>> {
    if turn.role == "user"@ {
        ids_in(turn.content)
    } else {
        Seq::empty()
    }
}

/// The tool calls whose results follow the message at position `i`.
pub open spec fn answered_after(turns: Seq<Turn>, i: int) -> Seq<Seq<char>> {
    if i + 1 < turns.len() {
        result_ids(turns[i + 1])
    } else {
        Seq::empty()
    }
}

/// Whether a block is a tool call whose result is not among those given.
pub open spec fn is_orphan(block: Block, answered: Seq<Seq<char>>) -> bool {
    block matches Block::ToolUse { id, .. } && !answered.contains(id)
}

/// The blocks without the tool calls that have no result.
pub open spec fn without_orphans(content: Seq<Block>, answered: Seq<Seq<char>>) -> Seq<Block>
    decreases content.len(),
{
    if content.len() == 0 {
        Seq::empty()
    } else {
        let front = without_orphans(content.drop_last(), answered);
        if is_orphan(content.last(), answered) {
            front
        } else {
            front.push(content.last())
        }
    }
}

/// What stands in for content that was taken out as a whole.
pub open spec fn placeholder() -> Block {
    Block::Text { text: "(continued)"@, cache_control: None }
}

/// The content of an assistant message without the tool calls that have no
/// result. Where that leaves nothing, a placeholder stands in.
pub open spec fn stripped_content(content: Seq<Block>, answered: Seq<Seq<char>>) -> Seq<Block> {
    let left = without_orphans(content, answered);
    if left.len() == 0 && content.len() > 0 {
        seq![placeholder()]
    } else {
        left
    }
}

/// The message at position `i` without the tool calls that have no result in
/// the next message. Only the assistant calls tools.
pub open spec fn stripped_turn(turns: Seq<Turn>, i: int) -> Turn {
    if turns[i].role == "assistant"@ {
        Turn { content: stripped_content(turns[i].content, answered_after(turns, i)), ..turns[i] }
    } else {
        turns[i]
    }
}

/// The messages without the tool calls that have no result in the next one.
pub open spec fn stripped(turns: Seq<Turn>) -> Seq<Turn> {
    Seq::new(turns.len(), |i: int| stripped_turn(turns, i))
}

/// The tool calls that a message gives the results of.
fn tool_result_ids(message: &AnthropicMessage) -> (r: Vec<String>)
    ensures
        text::texts(r@) == result_ids(message@),
{
    let mut ids: Vec<String> = Vec::new();
    assert(text::texts(ids@) =~= Seq::<Seq<char>>::empty());
    if !text::same(message.role.as_str(), "user") {
        return ids;
    }
    let ghost content = message@.content;
    let mut i: usize = 0;
    assert(content.take(0) =~= Seq::<Block>::empty());
    while i < message.content.len()
        invariant
            i <= message.content@.len(),
            content == message@.content,
            text::texts(ids@) == ids_in(content.take(i as int)),
        decreases message.content@.len() - i,
    {
        let ghost before = ids@;
        assert(content.take(i + 1).drop_last() =~= content.take(i as int));
        assert(content.take(i + 1).last() == message.content@[i as int]@);
        if let AnthropicContent::ToolResult { tool_use_id, .. } = &message.content[i] {
            ids.push(tool_use_id.clone());
            assert(text::texts(ids@) =~= text::texts(before).push(tool_use_id@));
        }
        i = i + 1;
    }
    assert(content.take(i as int) =~= content);
    ids
}

/// Whether a block is a tool call whose result is not among those given.
fn orphaned(block: &AnthropicContent, answered: &Vec<String>) -> (r: bool)
    ensures
        r == is_orphan(block@, text::texts(answered@)),
{
    if let AnthropicContent::ToolUse { id, .. } = block {
        !text::holds(answered, id)
    } else {
        false
    }
}

/// Takes the tool calls that have no result out of a message.
fn strip_message(message: &mut AnthropicMessage, answered: &Vec<String>)
    ensures
        final(message)@ == (Turn {
            content: stripped_content(old(message)@.content, text::texts(answered@)),
            ..old(message)@
        }),
{
    let ghost all = message@.content;
    let ghost ids = text::texts(answered@);
    let ghost role = message.role;
    let total = message.content.len();
    let mut seen: usize = 0;
    let mut k: usize = 0;
    assert(all.take(0) =~= Seq::<Block>::empty());
    assert(all =~= without_orphans(all.take(0), ids) + all.skip(0));
    while seen < total
        invariant
            k <= seen <= total,
            total == all.len(),
            ids == text::texts(answered@),
            message.role == role,
            k == without_orphans(all.take(seen as int), ids).len(),
            wire::blocks(message.content@) == without_orphans(all.take(seen as int), ids)
                + all.skip(seen as int),
        decreases total - seen,
    {
        let ghost before = wire::blocks(message.content@);
        let ghost left = without_orphans(all.take(seen as int), ids);
        assert(all.take(seen + 1).drop_last() =~= all.take(seen as int));
        assert(all.take(seen + 1).last() == all[seen as int]);
        assert(before[k as int] == all[seen as int]);
        assert(message.content@.len() == before.len());
        if orphaned(&message.content[k], answered) {
            let _ = message.content.remove(k);
            assert(wire::blocks(message.content@) =~= before.remove(k as int));
            assert(before.remove(k as int) =~= left + all.skip(seen + 1));
        } else {
            k = k + 1;
            assert(before =~= left.push(all[seen as int]) + all.skip(seen + 1));
        }
        seen = seen + 1;
    }
    assert(all.take(seen as int) =~= all);
    assert(wire::blocks(message.content@) =~= without_orphans(all, ids));
    assert(message.content@.len() == wire::blocks(message.content@).len());
    // If stripping left the message empty, add placeholder text
    if total > 0 && message.content.is_empty() {
        message.content.push(
            AnthropicContent::Text { text: "(continued)".to_string(), cache_control: None },
        );
        assert(wire::blocks(message.content@) =~= seq![placeholder()]);
    }
}

/// Strip orphaned tool_use blocks from assistant messages that have no matching
/// tool_result in the immediately following user message.
///
/// The API requires that each tool_use block has a corresponding tool_result
/// block in the next message. It may be missing after context compaction, when
/// the last assistant message had tool calls but the result was summarized away.
pub fn strip_orphaned_tool_use(messages: &mut Vec<AnthropicMessage>)
    ensures
        wire::turns(final(messages)@) == stripped(wire::turns(old(messages)@)),
{
    let ghost all = wire::turns(messages@);
    let total = messages.len();
    let mut i: usize = 0;
    while i < total
        invariant
            i <= total,
            total == all.len(),
            messages@.len() == total,
            forall|j: int| 0 <= j < i ==> (#[trigger] messages@[j])@ == stripped_turn(all, j),
            forall|j: int| i <= j < total ==> (#[trigger] messages@[j])@ == all[j],
        decreases total - i,
    {
        assert(messages@[i as int]@ == all[i as int]);
        if text::same(messages[i].role.as_str(), "assistant") {
            let answered = if i + 1 < total {
                assert(messages@[i + 1]@ == all[i + 1]);
                tool_result_ids(&messages[i + 1])
            } else {
                Vec::new()
            };
            assert(text::texts(answered@) =~= answered_after(all, i as int));
            strip_message(&mut messages[i], &answered);
        }
        i = i + 1;
    }
    assert(wire::turns(messages@) =~= stripped(all));
}

// ---------------------------------------------------------------------------
// Laws
// ---------------------------------------------------------------------------

/// A block stays exactly where it is no tool call without a result.
proof fn lemma_without_orphans(content: Seq<Block>, answered: Seq<Seq<char>>, block: Block)
    ensures
        without_orphans(content, answered).contains(block) <==> content.contains(block)
            && !is_orphan(block, answered),
    decreases content.len(),
{
    if content.len() > 0 {
        let front = content.drop_last();
        let before = without_orphans(front, answered);
        let after = without_orphans(content, answered);
        lemma_without_orphans(front, answered, block);
        if after.contains(block) {
            let k = after.index_of(block);
            if k < before.len() {
                assert(before[k] == block);
                assert(content[front.index_of(block)] == block);
            } else {
                assert(content[content.len() - 1] == block);
            }
        }
        if content.contains(block) && !is_orphan(block, answered) {
            if block == content.last() {
                assert(after[before.len() as int] == block);
            } else {
                let k = content.index_of(block);
                assert(front[k] == block);
                assert(after[before.index_of(block)] == block);
            }
        }
    }
}

/// Where nothing is to be taken out, the blocks stay as they are.
proof fn lemma_no_orphans(content: Seq<Block>, answered: Seq<Seq<char>>)
    requires
        forall|k: int| 0 <= k < content.len() ==> !is_orphan(#[trigger] content[k], answered),
    ensures
        without_orphans(content, answered) == content,
    decreases content.len(),
{
    if content.len() > 0 {
        let front = content.drop_last();
        assert forall|k: int| 0 <= k < front.len() implies !is_orphan(
            #[trigger] front[k],
            answered,
        ) by {
            assert(front[k] == content[k]);
        }
        lemma_no_orphans(front, answered);
        assert(!is_orphan(content[content.len() - 1], answered));
        assert(front.push(content.last()) =~= content);
    }
}

/// Stripping does not change which results follow a message.
proof fn lemma_answered_after_unchanged(turns: Seq<Turn>, i: int)
    requires
        0 <= i < turns.len(),
    ensures
        answered_after(stripped(turns), i) == answered_after(turns, i),
{
    reveal_strlit("user");
    reveal_strlit("assistant");
    assert("user"@.len() == 4 && "assistant"@.len() == 9);
}

/// After stripping, each tool call of the assistant has its result in the
/// next message.
pub proof fn law_tool_calls_have_results(turns: Seq<Turn>, i: int, k: int)
    requires
        0 <= i < turns.len(),
        stripped(turns)[i].role == "assistant"@,
        0 <= k < stripped(turns)[i].content.len(),
    ensures
        !is_orphan(stripped(turns)[i].content[k], answered_after(stripped(turns), i)),
{
    lemma_answered_after_unchanged(turns, i);
    let answered = answered_after(turns, i);
    let content = turns[i].content;
    let left = without_orphans(content, answered);
    if left.len() > 0 {
        assert(left.contains(left[k]));
        lemma_without_orphans(content, answered, left[k]);
    }
}

/// Stripping takes out nothing but tool calls of the assistant without a
/// result: every other block of a message stays in it.
pub proof fn law_other_blocks_stay(turns: Seq<Turn>, i: int, block: Block)
    requires
        0 <= i < turns.len(),
        turns[i].content.contains(block),
        turns[i].role == "assistant"@ ==> !is_orphan(block, answered_after(turns, i)),
    ensures
        stripped(turns)[i].content.contains(block),
{
    let answered = answered_after(turns, i);
    lemma_without_orphans(turns[i].content, answered, block);
    if turns[i].role == "assistant"@ {
        let left = without_orphans(turns[i].content, answered);
        assert(left[left.index_of(block)] == block);
    }
}

/// Stripping keeps the number of messages and who speaks in each.
pub proof fn law_stripping_keeps_roles(turns: Seq<Turn>, i: int)
    requires
        0 <= i < turns.len(),
    ensures
        stripped(turns).len() == turns.len(),
        stripped(turns)[i].role == turns[i].role,
{
}

/// A conversation in which each tool call has its result is left as it is.
pub proof fn law_valid_conversation_is_unchanged(turns: Seq<Turn>)
    requires
        forall|i: int, k: int|
            0 <= i < turns.len() && turns[i].role == "assistant"@ && 0 <= k
                < turns[i].content.len() ==> !is_orphan(
                #[trigger] turns[i].content[k],
                answered_after(turns, i),
            ),
    ensures
        stripped(turns) == turns,
{
    assert forall|i: int| 0 <= i < turns.len() implies stripped_turn(turns, i) == turns[i] by {
        if turns[i].role == "assistant"@ {
            lemma_no_orphans(turns[i].content, answered_after(turns, i));
        }
    }
    assert(stripped(turns) =~= turns);
}

/// Stripping twice is stripping once.
pub proof fn law_stripping_is_idempotent(turns: Seq<Turn>)
    ensures
        stripped(stripped(turns)) == stripped(turns),
{
    let once = stripped(turns);
    assert forall|i: int, k: int|
        0 <= i < once.len() && once[i].role == "assistant"@ && 0 <= k
            < once[i].content.len() implies !is_orphan(
        #[trigger] once[i].content[k],
        answered_after(once, i),
    ) by {
        law_tool_calls_have_results(turns, i, k);
    }
    law_valid_conversation_is_unchanged(once);
}

/// The messages of a conversation come from the user or the assistant, and
/// none of them is empty.
proof fn lemma_turns_of(messages: Seq<Message>, i: int)
    requires
        0 <= i < turns_of(messages).len(),
    ensures
        turns_of(messages)[i].role == "user"@ || turns_of(messages)[i].role == "assistant"@,
        turns_of(messages)[i].content.len() > 0,
    decreases messages.len(),
{
    let front = turns_of(messages.drop_last());
    if i < front.len() {
        lemma_turns_of(messages.drop_last(), i);
        assert(turns_of(messages)[i] == front[i]);
    }
}

/// No message that is sent is empty, and each comes from the user or the
/// assistant: the system messages are not among them.
pub proof fn law_no_message_is_empty(messages: Seq<Message>, i: int)
    requires
        0 <= i < turns_of(messages).len(),
    ensures
        stripped(turns_of(messages))[i].content.len() > 0,
        stripped(turns_of(messages))[i].role == "user"@ || stripped(turns_of(messages))[i].role
            == "assistant"@,
{
    lemma_turns_of(messages, i);
}

/// A user message that carries a tool result has that result as its only
/// block: its images are inside it, not beside it.
pub proof fn law_result_images_are_inside(message: Message)
    requires
        message.role == MessageRole::User,
        message.tool_result_id is Some,
    ensures
        turn_of(message).content.len() == 1,
        turn_of(message).content[0] is ToolResult,
        message.images@.len() > 0 ==> (turn_of(message).content[0]->content matches
            ResultContent::Blocks(inside) && inside.len() == message.images@.len() + 1),
{
}

/// Each system message goes into the system text, and nothing else does: there
/// is such a text exactly where there is a system message.
pub proof fn law_system_text_iff_system_message(messages: Seq<Message>)
    ensures
        system_text(messages) is Some <==> exists|i: int|
            0 <= i < messages.len() && (#[trigger] messages[i]).role == MessageRole::System,
    decreases messages.len(),
{
    if messages.len() > 0 {
        let front = messages.drop_last();
        law_system_text_iff_system_message(front);
        if system_text(messages) is Some {
            if messages.last().role == MessageRole::System {
                assert(messages[messages.len() - 1].role == MessageRole::System);
            } else {
                let i = choose|i: int|
                    0 <= i < front.len() && (#[trigger] front[i]).role == MessageRole::System;
                assert(messages[i].role == MessageRole::System);
            }
        }
        if exists|i: int|
            0 <= i < messages.len() && (#[trigger] messages[i]).role == MessageRole::System {
            let i = choose|i: int|
                0 <= i < messages.len() && (#[trigger] messages[i]).role == MessageRole::System;
            if i < front.len() {
                assert(front[i].role == MessageRole::System);
            }
        }
    }
}

/// Whether the input of each tool call in a message is well-formed.
pub open spec fn inputs_are_well_formed(message: Message) -> bool {
    forall|k: int|
        0 <= k < message.tool_calls@.len() ==> json::well_formed(
            (#[trigger] message.tool_calls@[k]).input@,
        )
}

/// Whether the input of a block that calls a tool is well-formed.
pub open spec fn block_is_well_formed(block: Block) -> bool {
    block matches Block::ToolUse { input, .. } ==> json::well_formed(input)
}

proof fn lemma_turns_are_well_formed(messages: Seq<Message>, i: int, k: int)
    requires
        forall|j: int| 0 <= j < messages.len() ==> inputs_are_well_formed(#[trigger] messages[j]),
        0 <= i < turns_of(messages).len(),
        0 <= k < turns_of(messages)[i].content.len(),
    ensures
        block_is_well_formed(turns_of(messages)[i].content[k]),
    decreases messages.len(),
{
    let shorter = messages.drop_last();
    let front = turns_of(shorter);
    if i < front.len() {
        assert forall|j: int| 0 <= j < shorter.len() implies inputs_are_well_formed(
            #[trigger] shorter[j],
        ) by {
            assert(inputs_are_well_formed(messages[j]));
        }
        assert(turns_of(messages)[i] == front[i]);
        lemma_turns_are_well_formed(shorter, i, k);
    } else {
        let message = messages[messages.len() - 1];
        assert(inputs_are_well_formed(message));
        let said = assistant_text(message);
        let n = said.len() as int;
        if message.role != MessageRole::User && k >= n && message.tool_calls@.len() > 0 {
            assert(turn_of(message).content[k] == tool_use(message.tool_calls@[k - n]));
        }
    }
}

/// The input of a tool call goes into a request as it came: where the inputs
/// of all messages are well-formed, so are those of the request.
pub proof fn law_inputs_stay_well_formed(messages: Seq<Message>, i: int, k: int)
    requires
        forall|j: int| 0 <= j < messages.len() ==> inputs_are_well_formed(#[trigger] messages[j]),
        0 <= i < turns_of(messages).len(),
        0 <= k < stripped(turns_of(messages))[i].content.len(),
    ensures
        block_is_well_formed(stripped(turns_of(messages))[i].content[k]),
{
    let turns = turns_of(messages);
    let content = turns[i].content;
    let block = stripped(turns)[i].content[k];
    if block != placeholder() {
        if turns[i].role == "assistant"@ {
            assert(stripped(turns)[i].content.contains(block));
            lemma_without_orphans(content, answered_after(turns, i), block);
        }
        assert(content.contains(block));
        lemma_turns_are_well_formed(messages, i, content.index_of(block));
    }
}

/// A well-formed schema leads to well-formed properties.
pub proof fn law_properties_stay_well_formed(tool: Tool)
    requires
        json::well_formed(tool.input_schema@),
    ensures
        json::well_formed(tool_text(tool).properties),
{
    json::law_member_is_well_formed(tool.input_schema@, "properties"@);
}

/// Every message goes either into the system text or into the conversation.
pub proof fn law_no_message_is_lost(messages: Seq<Message>)
    ensures
        turns_of(messages).len() == messages.filter(
            |m: Message| m.role != MessageRole::System,
        ).len(),
    decreases messages.len(),
{
    reveal(Seq::filter);
    if messages.len() > 0 {
        law_no_message_is_lost(messages.drop_last());
    }
}

/// A tool goes out with its name and its description, and with the properties
/// and the required fields of its schema. Without properties it has an empty
/// object, and required fields count only where they are a list of texts.
pub proof fn law_tool_goes_out_with_its_fields(tool: Tool, value: json::Value, names: Seq<Seq<char>>)
    ensures
        tool_text(tool).name == tool.name@,
        tool_text(tool).description == tool.description@,
        tool_text(tool).schema_type == "object"@,
        json::well_formed(tool.input_schema@) ==> (tool.input_schema@ matches json::Value::Object(
            members,
        ) ==> {
            &&& members.contains(("properties"@, value)) ==> tool_text(tool).properties == value
            &&& (forall|k: int| 0 <= k < members.len() ==> (#[trigger] members[k]).0
                != "properties"@) ==> tool_text(tool).properties == json::Value::Object(Seq::empty())
            &&& tool_text(tool).required == Some(names) <==> members.contains(
                (
                    "required"@,
                    json::Value::Array(Seq::new(names.len(), |i: int| json::Value::Text(names[i]))),
                ),
            )
        }),
        !(tool.input_schema@ is Object) ==> tool_text(tool).properties == json::Value::Object(
            Seq::empty(),
        ) && tool_text(tool).required is None,
{
    let schema = tool.input_schema@;
    let list = json::Value::Array(Seq::new(names.len(), |i: int| json::Value::Text(names[i])));
    json::law_key_leads_to_nothing_iff(schema, "properties"@);
    if json::well_formed(schema) {
        if let json::Value::Object(members) = schema {
            json::law_member_is_the_only_one(members, "properties"@, value);
            json::law_member_is_the_only_one(members, "required"@, list);
            match json::member(schema, "required"@) {
                Some(found) => {
                    json::law_texts_in_iff(found, names);
                    json::law_member_is_the_only_one(members, "required"@, found);
                },
                None => {},
            }
        }
    }
}

/// A message of the user that answers no tool call has its images first, in
/// their order, and then its text.
pub proof fn law_user_message_keeps_images_and_text(message: Message, i: int)
    requires
        message.role == MessageRole::User,
        message.tool_result_id is None,
    ensures
        turn_of(message).role == "user"@,
        turn_of(message).content.len() == message.images@.len() + 1,
        0 <= i < message.images@.len() ==> turn_of(message).content[i] == Block::Image(
            Source {
                source_type: "base64"@,
                media_type: message.images@[i].media_type@,
                data: message.images@[i].data@,
            },
        ),
        turn_of(message).content.last() == (Block::Text {
            text: message.content@,
            cache_control: message.cache_control,
        }),
{
}

/// A message of the user that answers a tool call is the result of that call:
/// its text alone, or its images in their order and then its text.
pub proof fn law_tool_result_keeps_images_and_text(message: Message, i: int)
    requires
        message.role == MessageRole::User,
        message.tool_result_id is Some,
    ensures
        turn_of(message).role == "user"@,
        turn_of(message).content.len() == 1,
        turn_of(message).content[0] matches Block::ToolResult {
            tool_use_id,
            content,
            cache_control,
        } && {
            &&& tool_use_id == message.tool_result_id->0@
            &&& cache_control == message.cache_control
            &&& message.images@.len() == 0 ==> content == ResultContent::Text(message.content@)
            &&& message.images@.len() > 0 ==> (content matches ResultContent::Blocks(inside) && {
                &&& inside.len() == message.images@.len() + 1
                &&& 0 <= i < message.images@.len() ==> inside[i] == ResultBlock::Image(
                    Source {
                        source_type: "base64"@,
                        media_type: message.images@[i].media_type@,
                        data: message.images@[i].data@,
                    },
                )
                &&& inside.last() == ResultBlock::Text(message.content@)
            })
        },
{
}

/// Blocks that all pass are all left, and blocks of which none passes leave
/// nothing.
proof fn lemma_filter_all_or_none(content: Seq<Block>, pass: spec_fn(Block) -> bool)
    ensures
        (forall|i: int| 0 <= i < content.len() ==> pass(#[trigger] content[i])) ==> content.filter(
            pass,
        ) == content,
        (forall|i: int| 0 <= i < content.len() ==> !pass(#[trigger] content[i])) ==> content.filter(
            pass,
        ).len() == 0,
    decreases content.len(),
{
    reveal(Seq::filter);
    if content.len() > 0 {
        let front = content.drop_last();
        lemma_filter_all_or_none(front, pass);
        if forall|i: int| 0 <= i < content.len() ==> pass(#[trigger] content[i]) {
            assert forall|i: int| 0 <= i < front.len() implies pass(#[trigger] front[i]) by {
                assert(pass(content[i]));
            }
            assert(pass(content[content.len() - 1]));
            assert(front.push(content.last()) =~= content);
        }
        if forall|i: int| 0 <= i < content.len() ==> !pass(#[trigger] content[i]) {
            assert forall|i: int| 0 <= i < front.len() implies !pass(#[trigger] front[i]) by {
                assert(!pass(content[i]));
            }
            assert(!pass(content[content.len() - 1]));
        }
    }
}

proof fn lemma_filter_joined(a: Seq<Block>, b: Seq<Block>, pass: spec_fn(Block) -> bool)
    ensures
        (a + b).filter(pass) == a.filter(pass) + b.filter(pass),
    decreases b.len(),
{
    reveal(Seq::filter);
    if b.len() == 0 {
        assert(a + b =~= a);
        assert(a.filter(pass) + b.filter(pass) =~= a.filter(pass));
    } else {
        lemma_filter_joined(a, b.drop_last(), pass);
        assert((a + b).drop_last() =~= a + b.drop_last());
        assert((a + b).filter(pass) =~= a.filter(pass) + b.filter(pass));
    }
}

/// The tool calls of a message of the assistant all go out, in their order, with
/// their ids, names and inputs, whether or not the message says something as
/// well; and nothing else goes out as a tool call.
pub proof fn law_assistant_message_keeps_its_calls(message: Message)
    requires
        message.role == MessageRole::Assistant,
    ensures
        turn_of(message).role == "assistant"@,
        turn_of(message).content.filter(|block: Block| block is ToolUse)
            == message.tool_calls@.map_values(
            |call: MessageToolCall|
                Block::ToolUse { id: call.id@, name: call.name@, input: call.input@ },
        ),
{
    let is_call = |block: Block| block is ToolUse;
    let said = assistant_text(message);
    let calls = message.tool_calls@.map_values(|c: MessageToolCall| tool_use(c));
    let content = turn_of(message).content;
    assert(calls =~= message.tool_calls@.map_values(
        |call: MessageToolCall|
            Block::ToolUse { id: call.id@, name: call.name@, input: call.input@ },
    ));
    lemma_filter_all_or_none(said, is_call);
    lemma_filter_all_or_none(calls, is_call);
    lemma_filter_joined(said, calls, is_call);
    lemma_filter_all_or_none(content, is_call);
    assert(said.filter(is_call) + calls.filter(is_call) =~= calls);
    if (said + calls).len() == 0 {
        assert(content.filter(is_call) =~= calls);
    }
}

/// What a message of the assistant says goes out first, as it is and with its
/// caching, unless it is blank; and the tool calls follow. A message that says
/// nothing and calls nothing goes out as its text alone.
pub proof fn law_assistant_message_keeps_its_text(message: Message, k: int)
    requires
        message.role == MessageRole::Assistant,
    ensures
        !text::is_blank(message.content@) ==> {
            &&& turn_of(message).content.len() == message.tool_calls@.len() + 1
            &&& turn_of(message).content[0] == (Block::Text {
                text: message.content@,
                cache_control: message.cache_control,
            })
            &&& 0 <= k < message.tool_calls@.len() ==> turn_of(message).content[k + 1]
                == (Block::ToolUse {
                id: message.tool_calls@[k].id@,
                name: message.tool_calls@[k].name@,
                input: message.tool_calls@[k].input@,
            })
        },
        text::is_blank(message.content@) && message.tool_calls@.len() > 0 ==> {
            &&& turn_of(message).content.len() == message.tool_calls@.len()
            &&& 0 <= k < message.tool_calls@.len() ==> turn_of(message).content[k]
                == (Block::ToolUse {
                id: message.tool_calls@[k].id@,
                name: message.tool_calls@[k].name@,
                input: message.tool_calls@[k].input@,
            })
        },
        text::is_blank(message.content@) && message.tool_calls@.len() == 0 ==> turn_of(
            message,
        ).content == seq![Block::Text { text: message.content@, cache_control: None }],
{
}

/// Every message but those of the system goes out, in the order of the
/// conversation: two parts of a conversation follow each other.
pub proof fn law_messages_keep_their_order(a: Seq<Message>, b: Seq<Message>, message: Message)
    ensures
        turns_of(a + b) == turns_of(a) + turns_of(b),
        turns_of(seq![message]) == if message.role == MessageRole::System {
            Seq::empty()
        } else {
            seq![turn_of(message)]
        },
    decreases b.len(),
{
    assert(seq![message].drop_last() =~= Seq::<Message>::empty());
    assert(turns_of(seq![message].drop_last()) =~= Seq::<Turn>::empty());
    assert(turns_of(seq![message]) =~= if message.role == MessageRole::System {
        Seq::empty()
    } else {
        seq![turn_of(message)]
    });
    if b.len() == 0 {
        assert(a + b =~= a);
        assert(turns_of(a) + turns_of(b) =~= turns_of(a));
    } else {
        law_messages_keep_their_order(a, b.drop_last(), message);
        assert((a + b).drop_last() =~= a + b.drop_last());
        assert(turns_of(a + b) =~= turns_of(a) + turns_of(b));
    }
}

/// The system text holds every system message, in their order, with an empty
/// line between two of them, and nothing of the other messages.
pub proof fn law_system_text_joins_system_messages(
    a: Seq<Message>,
    b: Seq<Message>,
    message: Message,
)
    ensures
        system_text(seq![message]) == if message.role == MessageRole::System {
            Some(message.content@)
        } else {
            None
        },
        system_text(a + b) == match (system_text(a), system_text(b)) {
            (Some(first), Some(second)) => Some(first + "\n\n"@ + second),
            (Some(first), None) => Some(first),
            (None, second) => second,
        },
    decreases b.len(),
{
    assert(seq![message].drop_last() =~= Seq::<Message>::empty());
    assert(system_text(seq![message].drop_last()) is None);
    if b.len() == 0 {
        assert(a + b =~= a);
    } else {
        law_system_text_joins_system_messages(a, b.drop_last(), message);
        assert((a + b).drop_last() =~= a + b.drop_last());
        if let (Some(first), Some(second)) = (system_text(a), system_text(b.drop_last())) {
            let last = b.last().content@;
            assert(first + "\n\n"@ + second + "\n\n"@ + last =~= first + "\n\n"@ + (second
                + "\n\n"@ + last));
        }
    }
}

proof fn lemma_ids_in(content: Seq<Block>, id: Seq<char>)
    ensures
        ids_in(content).contains(id) <==> exists|k: int|
            0 <= k < content.len() && (#[trigger] content[k]) is ToolResult
                && content[k]->tool_use_id == id,
    decreases content.len(),
{
    if content.len() > 0 {
        let front = content.drop_last();
        let before = ids_in(front);
        let after = ids_in(content);
        lemma_ids_in(front, id);
        if after.contains(id) {
            let n = after.index_of(id);
            if n < before.len() {
                assert(before[n] == id);
                let k = choose|k: int|
                    0 <= k < front.len() && (#[trigger] front[k]) is ToolResult
                        && front[k]->tool_use_id == id;
                assert(content[k] == front[k]);
            } else {
                assert(content[content.len() - 1] is ToolResult);
            }
        }
        if exists|k: int|
            0 <= k < content.len() && (#[trigger] content[k]) is ToolResult
                && content[k]->tool_use_id == id {
            let k = choose|k: int|
                0 <= k < content.len() && (#[trigger] content[k]) is ToolResult
                    && content[k]->tool_use_id == id;
            if k < front.len() {
                assert(front[k] == content[k]);
                assert(after[before.index_of(id)] == id);
            } else {
                assert(after[before.len() as int] == id);
            }
        }
    } else {
        assert(!ids_in(content).contains(id));
    }
}

/// A tool call is answered exactly where the next message comes from the user
/// and one of its blocks is the result of that call.
pub proof fn law_answered_iff_result_follows(turns: Seq<Turn>, i: int, id: Seq<char>)
    ensures
        answered_after(turns, i).contains(id) <==> {
            &&& i + 1 < turns.len()
            &&& turns[i + 1].role == "user"@
            &&& exists|k: int|
                0 <= k < turns[i + 1].content.len() && (#[trigger] turns[i + 1].content[k]) is ToolResult
                    && turns[i + 1].content[k]->tool_use_id == id
        },
{
    if i + 1 < turns.len() && turns[i + 1].role == "user"@ {
        lemma_ids_in(turns[i + 1].content, id);
    } else {
        assert(!answered_after(turns, i).contains(id));
    }
}

/// Stripping leaves the blocks of the assistant in their order, without the
/// tool calls that are not answered; where that leaves nothing of a message, one
/// block of text stands in. Other messages stay as they are.
pub proof fn law_stripping_leaves_the_other_blocks(turns: Seq<Turn>, i: int)
    requires
        0 <= i < turns.len(),
    ensures
        turns[i].role != "assistant"@ ==> stripped(turns)[i] == turns[i],
        turns[i].role == "assistant"@ ==> {
            let left = turns[i].content.filter(
                |block: Block|
                    !(block is ToolUse) || answered_after(turns, i).contains(block->ToolUse_id),
            );
            &&& left.len() > 0 || turns[i].content.len() == 0 ==> stripped(turns)[i].content == left
            &&& left.len() == 0 && turns[i].content.len() > 0 ==> stripped(turns)[i].content
                == seq![Block::Text { text: "(continued)"@, cache_control: None }]
        },
{
    lemma_without_orphans_is_filter(turns[i].content, answered_after(turns, i));
}

proof fn lemma_without_orphans_is_filter(content: Seq<Block>, answered: Seq<Seq<char>>)
    ensures
        without_orphans(content, answered) == content.filter(
            |block: Block| !(block is ToolUse) || answered.contains(block->ToolUse_id),
        ),
    decreases content.len(),
{
    reveal(Seq::filter);
    if content.len() > 0 {
        lemma_without_orphans_is_filter(content.drop_last(), answered);
    }
}

/// A tool call without a result is one that is not among those answered.
pub proof fn law_orphan_iff_not_answered(block: Block, answered: Seq<Seq<char>>)
    ensures
        is_orphan(block, answered) <==> block is ToolUse && !answered.contains(block->ToolUse_id),
{
}

/// Where the message at position `j` of a conversation stands in the request.
proof fn lemma_place_of_message(messages: Seq<Message>, j: int) -> (i: int)
    requires
        0 <= j < messages.len(),
        messages[j].role != MessageRole::System,
    ensures
        0 <= i < turns_of(messages).len(),
        turns_of(messages)[i] == turn_of(messages[j]),
        j + 1 < messages.len() && messages[j + 1].role != MessageRole::System ==> i + 1
            < turns_of(messages).len() && turns_of(messages)[i + 1] == turn_of(messages[j + 1]),
{
    let front = messages.take(j);
    let here = seq![messages[j]];
    let rest = messages.skip(j + 1);
    let i = turns_of(front).len() as int;
    assert(messages =~= front + (here + rest));
    law_messages_keep_their_order(front, here + rest, messages[j]);
    law_messages_keep_their_order(here, rest, messages[j]);
    if j + 1 < messages.len() && messages[j + 1].role != MessageRole::System {
        let next = seq![messages[j + 1]];
        assert(rest =~= next + rest.skip(1));
        law_messages_keep_their_order(next, rest.skip(1), messages[j + 1]);
    }
    i
}

/// A tool call of the assistant whose result follows in the next message is in
/// the request, and its result stands in the next message there. The place of
/// the message in the request is given.
pub proof fn law_answered_call_is_in_the_request(messages: Seq<Message>, j: int, k: int) -> (i: int)
    requires
        0 <= j && j + 1 < messages.len(),
        messages[j].role == MessageRole::Assistant,
        0 <= k < messages[j].tool_calls@.len(),
        messages[j + 1].role == MessageRole::User,
        messages[j + 1].tool_result_id matches Some(id) && id@ == messages[j].tool_calls@[k].id@,
    ensures
        0 <= i && i + 1 < stripped(turns_of(messages)).len(),
        stripped(turns_of(messages))[i].role == "assistant"@,
        stripped(turns_of(messages))[i].content.contains(
            Block::ToolUse {
                id: messages[j].tool_calls@[k].id@,
                name: messages[j].tool_calls@[k].name@,
                input: messages[j].tool_calls@[k].input@,
            },
        ),
        stripped(turns_of(messages))[i + 1] == turn_of(messages[j + 1]),
        stripped(turns_of(messages))[i + 1].content[0] is ToolResult,
        stripped(turns_of(messages))[i + 1].content[0]->tool_use_id
            == messages[j].tool_calls@[k].id@,
{
    reveal_strlit("user");
    reveal_strlit("assistant");
    assert("user"@.len() == 4 && "assistant"@.len() == 9);
    let turns = turns_of(messages);
    let i = lemma_place_of_message(messages, j);
    let message = messages[j];
    let call = message.tool_calls@[k];
    let block = Block::ToolUse { id: call.id@, name: call.name@, input: call.input@ };
    law_assistant_message_keeps_its_text(message, k);
    let content = turns[i].content;
    assert(content.contains(block)) by {
        if text::is_blank(message.content@) {
            assert(content[k] == block);
        } else {
            assert(content[k + 1] == block);
        }
    }
    assert(turns[i + 1].content[0] is ToolResult);
    law_answered_iff_result_follows(turns, i, call.id@);
    law_other_blocks_stay(turns, i, block);
    i
}

/// What a message says is in the request: all of it for the user, and its text
/// for the assistant, unless it is blank. The place of the message is given.
pub proof fn law_messages_are_in_the_request(messages: Seq<Message>, j: int) -> (i: int)
    requires
        0 <= j < messages.len(),
        messages[j].role != MessageRole::System,
    ensures
        0 <= i < stripped(turns_of(messages)).len(),
        messages[j].role == MessageRole::User ==> stripped(turns_of(messages))[i] == turn_of(
            messages[j],
        ),
        messages[j].role == MessageRole::Assistant ==> stripped(turns_of(messages))[i].role
            == "assistant"@,
        messages[j].role == MessageRole::Assistant && !text::is_blank(messages[j].content@)
            ==> stripped(turns_of(messages))[i].content.contains(
            Block::Text {
                text: messages[j].content@,
                cache_control: messages[j].cache_control,
            },
        ),
{
    reveal_strlit("user");
    reveal_strlit("assistant");
    assert("user"@.len() == 4 && "assistant"@.len() == 9);
    let turns = turns_of(messages);
    let i = lemma_place_of_message(messages, j);
    let message = messages[j];
    if message.role == MessageRole::Assistant && !text::is_blank(message.content@) {
        let block = Block::Text { text: message.content@, cache_control: message.cache_control };
        law_assistant_message_keeps_its_text(message, 0);
        assert(turns[i].content[0] == block);
        law_other_blocks_stay(turns, i, block);
    }
    i
}

} // verus!
