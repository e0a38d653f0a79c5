//! What an Anthropic Messages stream makes of its events.
use crate::ordered::ascending;
use crate::protocol::{
    ContentModel, ErrorModel, EventModel, ItemModel, StreamItemModel, TokenUsage,
};
use crate::sse::anthropic_events::{
    AnthropicEventModel, AnthropicUsage, BlockModel, ContentBlockModel, DeltaModel,
};
use crate::sse::{count, SseModel};
use crate::text::trimmed;
use vstd::prelude::*;

verus! {

/// The counts before anything was reported.
pub open spec fn no_usage() -> AnthropicUsage {
    AnthropicUsage {
        input_tokens: None,
        output_tokens: None,
        cache_creation_input_tokens: None,
        cache_read_input_tokens: None,
    }
}

/// The larger of a count and a newly reported one. A missing count stands for zero, so that a first
/// report of zero is kept, and a negative report, which counts nothing, is not.
pub open spec fn kept_max(field: Option<i64>, incoming: Option<i64>) -> Option<i64> {
    match incoming {
        Some(value) => if value >= count(field) {
            incoming
        } else {
            field
        },
        None => field,
    }
}

/// The counts after `incoming` was reported: field by field the largest value seen.
pub open spec fn merged(slot: Option<AnthropicUsage>, incoming: AnthropicUsage) -> AnthropicUsage {
    let target = match slot {
        Some(usage) => usage,
        None => no_usage(),
    };
    AnthropicUsage {
        input_tokens: kept_max(target.input_tokens, incoming.input_tokens),
        output_tokens: kept_max(target.output_tokens, incoming.output_tokens),
        cache_creation_input_tokens: kept_max(
            target.cache_creation_input_tokens,
            incoming.cache_creation_input_tokens,
        ),
        cache_read_input_tokens: kept_max(
            target.cache_read_input_tokens,
            incoming.cache_read_input_tokens,
        ),
    }
}

/// The item that a finished block turns into.
pub open spec fn finished_item(block: BlockModel) -> ItemModel {
    match block {
        BlockModel::Text(text) => ItemModel::Message {
            id: None,
            role: "assistant"@,
            content: seq![ContentModel::OutputText { text }],
            phase: None,
        },
        BlockModel::Thinking(text) => ItemModel::Reasoning {
            id: Seq::empty(),
            summary: Seq::empty(),
            content: Some(seq![text]),
            encrypted_content: None,
        },
        BlockModel::ToolUse { id, name, json } => ItemModel::FunctionCall {
            id: None,
            name,
            namespace: None,
            arguments: json,
            call_id: id,
        },
    }
}

/// The model of an [`AnthropicStream`](crate::sse::anthropic::AnthropicStream).
pub struct AnthropicModel {
    /// The open blocks by their index in the stream.
    pub blocks: Map<usize, BlockModel>,
    /// The id of the response, empty until one was reported.
    pub response_id: Seq<char>,
    /// The counts, once any were reported.
    pub usage: Option<AnthropicUsage>,
}

/// A stream of which nothing has come in yet.
pub open spec fn fresh_stream() -> AnthropicModel {
    AnthropicModel { blocks: Map::empty(), response_id: Seq::empty(), usage: None }
}

/// What one step of a stream comes to.
pub struct AnthropicStep {
    pub state: AnthropicModel,
    pub items: Seq<StreamItemModel>,
    pub done: bool,
}

/// A step that leads to `state`, hands `items` on, and is not the last.
pub open spec fn going_on(state: AnthropicModel, items: Seq<StreamItemModel>) -> AnthropicStep {
    AnthropicStep { state, items, done: false }
}

/// A step that ends the stream with an error.
pub open spec fn failing(state: AnthropicModel, message: Seq<char>) -> AnthropicStep {
    AnthropicStep { state, items: seq![Err(ErrorModel::Stream(message))], done: true }
}

/// `message_start`: takes the id of the response and the counts that are known by then.
pub open spec fn after_message_start(
    s: AnthropicModel,
    event: AnthropicEventModel,
) -> AnthropicModel {
    match event.message {
        Some(message) => AnthropicModel {
            response_id: match message.id {
                Some(id) => id,
                None => s.response_id,
            },
            usage: match message.usage {
                Some(usage) => Some(merged(s.usage, usage)),
                None => s.usage,
            },
            ..s
        },
        None => s,
    }
}

/// `message_delta`: takes the counts that it reports.
pub open spec fn after_message_delta(
    s: AnthropicModel,
    event: AnthropicEventModel,
) -> AnthropicModel {
    match event.usage {
        Some(usage) => AnthropicModel { usage: Some(merged(s.usage, usage)), ..s },
        None => s,
    }
}

/// The block that a `content_block_start` opens, where it is of a known kind. A tool call needs
/// an id and a name.
pub open spec fn opened_block(block: ContentBlockModel) -> Option<BlockModel> {
    if block.block_type == "thinking"@ || block.block_type == "redacted_thinking"@ {
        Some(BlockModel::Thinking(Seq::empty()))
    } else if block.block_type == "text"@ {
        Some(BlockModel::Text(Seq::empty()))
    } else if block.block_type == "tool_use"@ {
        match (block.id, block.name) {
            (Some(id), Some(name)) => Some(BlockModel::ToolUse { id, name, json: Seq::empty() }),
            _ => None,
        }
    } else {
        None
    }
}

/// The items that are announced when a block opens: one for text and one for thinking, none for a
/// tool call.
pub open spec fn announced(block: BlockModel) -> Seq<StreamItemModel> {
    match block {
        BlockModel::Thinking(_) => seq![
            Ok(
                EventModel::OutputItemAdded(
                    ItemModel::Reasoning {
                        id: Seq::empty(),
                        summary: Seq::empty(),
                        content: None,
                        encrypted_content: None,
                    },
                ),
            ),
        ],
        BlockModel::Text(_) => seq![
            Ok(
                EventModel::OutputItemAdded(
                    ItemModel::Message {
                        id: None,
                        role: "assistant"@,
                        content: Seq::empty(),
                        phase: None,
                    },
                ),
            ),
        ],
        BlockModel::ToolUse { .. } => Seq::empty(),
    }
}

/// The item with which a block closes.
pub open spec fn closing(block: BlockModel) -> StreamItemModel {
    Ok(EventModel::OutputItemDone(finished_item(block)))
}

/// The items with which the block at `index` closes, if one is open there.
pub open spec fn closing_at(blocks: Map<usize, BlockModel>, index: usize) -> Seq<StreamItemModel> {
    if blocks.contains_key(index) {
        seq![closing(blocks[index])]
    } else {
        Seq::empty()
    }
}

/// `content_block_start`: opens a block at its index and announces its item. A block that is still
/// open there closes first.
pub open spec fn after_block_start(s: AnthropicModel, event: AnthropicEventModel) -> AnthropicStep {
    match (event.index, event.content_block) {
        (Some(index), Some(block)) => match opened_block(block) {
            Some(opened) => going_on(
                AnthropicModel { blocks: s.blocks.insert(index, opened), ..s },
                closing_at(s.blocks, index) + announced(opened),
            ),
            None => going_on(s, Seq::empty()),
        },
        _ => going_on(s, Seq::empty()),
    }
}

/// A fragment of a block.
pub enum Fragment {
    Thinking(Seq<char>),
    Text(Seq<char>),
    Json(Seq<char>),
}

/// The fragment that a delta carries, going by its type.
pub open spec fn fragment(delta: DeltaModel) -> Option<Fragment> {
    let kind = match delta.delta_type {
        Some(kind) => kind,
        None => Seq::empty(),
    };
    if kind == "thinking_delta"@ {
        match delta.thinking {
            Some(thinking) => Some(Fragment::Thinking(thinking)),
            None => None,
        }
    } else if kind == "text_delta"@ {
        match delta.text {
            Some(text) => Some(Fragment::Text(text)),
            None => None,
        }
    } else if kind == "input_json_delta"@ {
        match delta.partial_json {
            Some(json) => Some(Fragment::Json(json)),
            None => None,
        }
    } else {
        None
    }
}

/// Holds of a block and a fragment of the same kind.
pub open spec fn fits(block: BlockModel, fragment: Fragment) -> bool {
    match fragment {
        Fragment::Thinking(_) => block is Thinking,
        Fragment::Text(_) => block is Text,
        Fragment::Json(_) => block is ToolUse,
    }
}

/// Holds where a block of the fragment's kind is open at `index`.
pub open spec fn has_block_for(
    blocks: Map<usize, BlockModel>,
    index: usize,
    fragment: Fragment,
) -> bool {
    blocks.contains_key(index) && fits(blocks[index], fragment)
}

/// The block that a fragment of text or thinking makes by itself.
pub open spec fn own_block(fragment: Fragment) -> Option<BlockModel> {
    match fragment {
        Fragment::Thinking(text) => Some(BlockModel::Thinking(text)),
        Fragment::Text(text) => Some(BlockModel::Text(text)),
        Fragment::Json(_) => None,
    }
}

/// A block with a fragment of its own kind added; a fragment of another kind leaves it as it is.
pub open spec fn extended(block: BlockModel, fragment: Fragment) -> BlockModel {
    match (block, fragment) {
        (BlockModel::Thinking(gathered), Fragment::Thinking(more)) => BlockModel::Thinking(
            gathered + more,
        ),
        (BlockModel::Text(gathered), Fragment::Text(more)) => BlockModel::Text(gathered + more),
        (BlockModel::ToolUse { id, name, json }, Fragment::Json(more)) => BlockModel::ToolUse {
            id,
            name,
            json: json + more,
        },
        _ => block,
    }
}

/// The blocks after a fragment came in for the block at `index`.
pub open spec fn extended_at(
    blocks: Map<usize, BlockModel>,
    index: usize,
    fragment: Fragment,
) -> Map<usize, BlockModel> {
    if blocks.contains_key(index) {
        blocks.insert(index, extended(blocks[index], fragment))
    } else {
        blocks
    }
}

/// What is passed on of a fragment as it comes in: thinking and text, not the arguments of calls.
pub open spec fn passed_on(fragment: Fragment, index: usize) -> Seq<StreamItemModel> {
    match fragment {
        Fragment::Thinking(delta) => seq![
            Ok(EventModel::ReasoningContentDelta { delta, content_index: index as i64 }),
        ],
        Fragment::Text(text) => seq![Ok(EventModel::OutputTextDelta(text))],
        Fragment::Json(_) => Seq::empty(),
    }
}

/// What is handed on of a fragment. Text and thinking always stand within an item: where no block of
/// the fragment's kind takes it, the fragment gets an item of its own.
pub open spec fn handed_on(taken: bool, fragment: Fragment, index: usize) -> Seq<StreamItemModel> {
    match own_block(fragment) {
        Some(block) => if taken {
            passed_on(fragment, index)
        } else {
            announced(block) + passed_on(fragment, index) + seq![closing(block)]
        },
        None => passed_on(fragment, index),
    }
}

/// The index that an event is about; without one it is about the first block.
pub open spec fn block_index(event: AnthropicEventModel) -> usize {
    match event.index {
        Some(index) => index,
        None => 0,
    }
}

/// `content_block_delta`: adds a fragment to its block and hands it on.
pub open spec fn after_block_delta(s: AnthropicModel, event: AnthropicEventModel) -> AnthropicStep {
    let index = block_index(event);
    match event.delta {
        Some(delta) => match fragment(delta) {
            Some(fragment) => going_on(
                AnthropicModel { blocks: extended_at(s.blocks, index, fragment), ..s },
                handed_on(has_block_for(s.blocks, index, fragment), fragment, index),
            ),
            None => going_on(s, Seq::empty()),
        },
        None => going_on(s, Seq::empty()),
    }
}

/// `content_block_stop`: closes the block at its index, if one is open there.
pub open spec fn after_block_stop(s: AnthropicModel, event: AnthropicEventModel) -> AnthropicStep {
    let index = block_index(event);
    if s.blocks.contains_key(index) {
        going_on(
            AnthropicModel { blocks: s.blocks.remove(index), ..s },
            closing_at(s.blocks, index),
        )
    } else {
        going_on(s, Seq::empty())
    }
}

/// The items with which the blocks that are still open close, in the order of their indices.
pub open spec fn closing_all(blocks: Map<usize, BlockModel>) -> Seq<StreamItemModel> {
    ascending(blocks.dom()).map_values(|index: usize| closing(blocks[index]))
}

/// The id that a response goes by: the one that was reported, or a stand-in.
pub open spec fn final_id(response_id: Seq<char>) -> Seq<char> {
    if response_id.len() == 0 {
        "msg-anthropic"@
    } else {
        response_id
    }
}

/// Holds where the total of the counts can be represented.
pub open spec fn total_fits(usage: Option<AnthropicUsage>) -> bool {
    match usage {
        Some(usage) => i64::MIN <= count(usage.input_tokens) + count(usage.output_tokens)
            <= i64::MAX,
        None => true,
    }
}

/// The token usage that the counts come to.
pub open spec fn token_usage(usage: Option<AnthropicUsage>) -> Option<TokenUsage> {
    match usage {
        Some(usage) => Some(
            TokenUsage {
                input_tokens: count(usage.input_tokens),
                cached_input_tokens: count(usage.cache_read_input_tokens),
                output_tokens: count(usage.output_tokens),
                reasoning_output_tokens: 0,
                total_tokens: (count(usage.input_tokens) + count(usage.output_tokens)) as i64,
            },
        ),
        None => None,
    }
}

/// The event that completes a response.
pub open spec fn completion(s: AnthropicModel) -> StreamItemModel {
    Ok(
        EventModel::Completed {
            response_id: final_id(s.response_id),
            token_usage: token_usage(s.usage),
            end_turn: Some(true),
        },
    )
}

/// The end of a stream: closes what is open and completes the response.
pub open spec fn finished(s: AnthropicModel) -> AnthropicStep {
    AnthropicStep {
        state: AnthropicModel {
            blocks: Map::empty(),
            response_id: final_id(s.response_id),
            usage: s.usage,
        },
        items: closing_all(s.blocks).push(completion(s)),
        done: true,
    }
}

/// A decoded event, with the data that it was decoded from.
pub open spec fn after_event(
    s: AnthropicModel,
    data: Seq<char>,
    event: AnthropicEventModel,
) -> AnthropicStep {
    if event.event_type == "message_start"@ {
        going_on(after_message_start(s, event), Seq::empty())
    } else if event.event_type == "content_block_start"@ {
        after_block_start(s, event)
    } else if event.event_type == "content_block_delta"@ {
        after_block_delta(s, event)
    } else if event.event_type == "content_block_stop"@ {
        after_block_stop(s, event)
    } else if event.event_type == "message_delta"@ {
        going_on(after_message_delta(s, event), Seq::empty())
    } else if event.event_type == "message_stop"@ {
        finished(s)
    } else if event.event_type == "error"@ {
        failing(s, "anthropic error event: "@ + data)
    } else {
        going_on(s, Seq::empty())
    }
}

/// What a stream in state `s` makes of `input`.
pub open spec fn after_input(
    s: AnthropicModel,
    input: SseModel<AnthropicEventModel>,
) -> AnthropicStep {
    match input {
        SseModel::Event { data, decoded } => match decoded {
            Ok(event) => after_event(s, trimmed(data), event),
            Err(error) => failing(
                s,
                "failed to parse anthropic event: "@ + error + ": "@ + trimmed(data),
            ),
        },
        SseModel::TransportError(error) => failing(s, "anthropic SSE error: "@ + error),
        SseModel::End => finished(s),
        SseModel::IdleTimeout => failing(s, "anthropic stream idle timeout"@),
    }
}

/// Holds of an input on which a stream completes its response.
pub open spec fn completes(input: SseModel<AnthropicEventModel>) -> bool {
    match input {
        SseModel::Event { decoded: Ok(event), .. } => event.event_type == "message_stop"@,
        SseModel::End => true,
        _ => false,
    }
}

/// What a stream in state `s` makes of inputs, one after the other, up to the one that ends it.
pub open spec fn run(s: AnthropicModel, inputs: Seq<SseModel<AnthropicEventModel>>) -> AnthropicStep
    decreases inputs.len(),
{
    if inputs.len() == 0 {
        going_on(s, Seq::empty())
    } else {
        let before = run(s, inputs.drop_last());
        if before.done {
            before
        } else {
            let last = after_input(before.state, inputs.last());
            AnthropicStep {
                state: last.state,
                items: before.items + last.items,
                done: last.done,
            }
        }
    }
}

} // verus!
