//! The Anthropic Messages stream: from streaming events to the events of a response.
use crate::ordered::{ascending_keys, lemma_next_key, lists};
use crate::protocol::{
    stream_model, ContentItem, ContentModel, EventModel, ReasoningItemContent, ResponseEvent,
    ResponseItem, StreamItem, TokenUsage,
};
use crate::sse::anthropic_events::{
    AnthropicContentBlock, AnthropicDelta, AnthropicEvent, AnthropicUsage, BlockModel, BlockState, ToolCallState,
};
use crate::sse::anthropic_model::{
    after_block_delta, after_block_start, after_block_stop, after_event, after_input,
    after_message_delta, after_message_start, announced, closing, closing_at, completes,
    completion, extended, extended_at, finished, finished_item, fits, fragment, fresh_stream,
    going_on, handed_on, has_block_for, kept_max, merged, opened_block, passed_on, total_fits,
    AnthropicModel, AnthropicStep, Fragment,
};
use crate::sse::{no_items, one_event, stream_error, value_or_zero, SseInput, Step};
use crate::text::{str_eq, str_trim};
use std::collections::BTreeMap;
use vstd::prelude::*;

verus! {

fn keep_max(field: &mut Option<i64>, incoming: Option<i64>)
    ensures
        *final(field) == kept_max(*old(field), incoming),
{
    if let Some(value) = incoming {
        let current: i64 = match *field {
            Some(current) => current,
            None => 0,
        };
        if value >= current {
            *field = Some(value);
        }
    }
}

/// Merges a usage report into `slot`, keeping the largest value seen for each field.
///
/// A stream may split its counts over several reports, or repeat them; with the field-wise
/// maximum no report clobbers what another one gave. A missing count stands for zero.
pub fn merge_usage(slot: &mut Option<AnthropicUsage>, incoming: AnthropicUsage)
    ensures
        *final(slot) == Some(merged(*old(slot), incoming)),
{
    let mut target = match *slot {
        Some(usage) => usage,
        None => AnthropicUsage {
            input_tokens: None,
            output_tokens: None,
            cache_creation_input_tokens: None,
            cache_read_input_tokens: None,
        },
    };
    keep_max(&mut target.input_tokens, incoming.input_tokens);
    keep_max(&mut target.output_tokens, incoming.output_tokens);
    keep_max(&mut target.cache_creation_input_tokens, incoming.cache_creation_input_tokens);
    keep_max(&mut target.cache_read_input_tokens, incoming.cache_read_input_tokens);
    *slot = Some(target);
}

/// The event that closes the item of a finished block.
pub fn finish_block(block: BlockState) -> (event: ResponseEvent)
    ensures
        event.deep_view() == EventModel::OutputItemDone(finished_item(block.deep_view())),
{
    let item = match block {
        BlockState::Text(text) => {
            let mut content: Vec<ContentItem> = Vec::new();
            content.push(ContentItem::OutputText { text });
            assert(content.deep_view() =~= seq![ContentModel::OutputText { text: text@ }]);
            ResponseItem::Message {
                id: None,
                role: "assistant".to_string(),
                content,
                phase: None,
            }
        },
        BlockState::Thinking(text) => {
            let mut content: Vec<ReasoningItemContent> = Vec::new();
            content.push(ReasoningItemContent::ReasoningText { text });
            assert(content.deep_view() =~= seq![text@]);
            let summary: Vec<String> = Vec::new();
            assert(summary.deep_view() =~= Seq::empty());
            ResponseItem::Reasoning {
                id: String::new(),
                summary,
                content: Some(content),
                encrypted_content: None,
            }
        },
        BlockState::ToolUse(call) => ResponseItem::FunctionCall {
            id: None,
            name: call.name,
            namespace: None,
            arguments: call.json_accumulator,
            call_id: call.id,
        },
    };
    ResponseEvent::OutputItemDone(item)
}

/// The state of an Anthropic Messages stream.
pub struct AnthropicStream {
    blocks: BTreeMap<usize, BlockState>,
    response_id: String,
    usage: Option<AnthropicUsage>,
}

impl DeepView for AnthropicStream {
    type V = AnthropicModel;

    closed spec fn deep_view(&self) -> AnthropicModel {
        AnthropicModel {
            blocks: blocks_model(self.blocks@),
            response_id: self.response_id@,
            usage: self.usage,
        }
    }
}

/// The model of open blocks.
spec fn blocks_model(blocks: Map<usize, BlockState>) -> Map<usize, BlockModel> {
    blocks.map_values(|block: BlockState| block.deep_view())
}

impl AnthropicStream {
    /// A stream of which nothing has come in yet.
    pub fn new() -> (stream: Self)
        ensures
            stream.deep_view() == fresh_stream(),
    {
        let stream = AnthropicStream {
            blocks: BTreeMap::new(),
            response_id: String::new(),
            usage: None,
        };
        assert(blocks_model(stream.blocks@) =~= Map::empty());
        stream
    }

    fn message_start(&mut self, event: AnthropicEvent)
        ensures
            final(self).deep_view() == after_message_start(
                old(self).deep_view(),
                event.deep_view(),
            ),
    {
        if let Some(message) = event.message {
            if let Some(id) = message.id {
                self.response_id = id;
            }
            if let Some(usage) = message.usage {
                merge_usage(&mut self.usage, usage);
            }
        }
    }

    fn message_delta(&mut self, event: AnthropicEvent)
        ensures
            final(self).deep_view() == after_message_delta(
                old(self).deep_view(),
                event.deep_view(),
            ),
    {
        if let Some(usage) = event.usage {
            merge_usage(&mut self.usage, usage);
        }
    }

    /// Puts a block in the place of whatever is open at `index`.
    fn open_block(&mut self, index: usize, block: BlockState)
        ensures
            final(self).deep_view() == (AnthropicModel {
                blocks: old(self).deep_view().blocks.insert(index, block.deep_view()),
                ..old(self).deep_view()
            }),
    {
        broadcast use {vstd::std_specs::btree::group_btree_axioms, vstd::laws_cmp::group_laws_cmp};

        let ghost before = self.blocks@;
        self.blocks.insert(index, block);
        assert(blocks_model(self.blocks@) =~= blocks_model(before).insert(
            index,
            block.deep_view(),
        ));
    }

    /// Takes the block that is open at `index` out, if there is one.
    fn take_block(&mut self, index: usize) -> (block: Option<BlockState>)
        ensures
            block.deep_view() == (if old(self).deep_view().blocks.contains_key(index) {
                Some(old(self).deep_view().blocks[index])
            } else {
                None
            }),
            final(self).deep_view() == (AnthropicModel {
                blocks: old(self).deep_view().blocks.remove(index),
                ..old(self).deep_view()
            }),
    {
        broadcast use {vstd::std_specs::btree::group_btree_axioms, vstd::laws_cmp::group_laws_cmp};

        let ghost before = self.blocks@;
        let block = self.blocks.remove(&index);
        assert(blocks_model(self.blocks@) =~= blocks_model(before).remove(index));
        block
    }

    fn block_start(&mut self, event: AnthropicEvent) -> (items: Vec<StreamItem>)
        ensures
            after_block_start(old(self).deep_view(), event.deep_view()) == going_on(
                final(self).deep_view(),
                stream_model(items@),
            ),
    {
        let ghost start = self.deep_view().blocks;
        let mut items = no_items();
        if let (Some(index), Some(content)) = (event.index, event.content_block) {
            if let Some(block) = block_of(content) {
                let ghost opened = block.deep_view();
                if let Some(replaced) = self.take_block(index) {
                    items.push(Ok(finish_block(replaced)));
                }
                assert(stream_model(items@) =~= closing_at(start, index));
                announce(&block, &mut items);
                self.open_block(index, block);
                assert(self.deep_view().blocks =~= start.insert(index, opened));
            }
        }
        items
    }

    fn block_stop(&mut self, event: AnthropicEvent) -> (items: Vec<StreamItem>)
        ensures
            after_block_stop(old(self).deep_view(), event.deep_view()) == going_on(
                final(self).deep_view(),
                stream_model(items@),
            ),
    {
        let index: usize = match event.index {
            Some(index) => index,
            None => 0,
        };
        match self.take_block(index) {
            Some(block) => one_event(finish_block(block)),
            None => {
                assert(self.deep_view().blocks =~= old(self).deep_view().blocks);
                no_items()
            },
        }
    }

    /// Adds a fragment to the block that is open at `index`, where it is of the block's kind, and
    /// says whether it was.
    fn extend_block(&mut self, index: usize, fragment: &DeltaText) -> (taken: bool)
        ensures
            taken == has_block_for(old(self).deep_view().blocks, index, fragment.deep_view()),
            final(self).deep_view() == (AnthropicModel {
                blocks: extended_at(old(self).deep_view().blocks, index, fragment.deep_view()),
                ..old(self).deep_view()
            }),
    {
        let ghost before = self.deep_view().blocks;
        match self.take_block(index) {
            Some(block) => {
                let taken = takes(&block, fragment);
                let extended = extend(block, fragment);
                self.open_block(index, extended);
                assert(self.deep_view().blocks =~= extended_at(
                    before,
                    index,
                    fragment.deep_view(),
                ));
                taken
            },
            None => {
                assert(self.deep_view().blocks =~= before);
                false
            },
        }
    }

    fn block_delta(&mut self, event: AnthropicEvent) -> (items: Vec<StreamItem>)
        ensures
            after_block_delta(old(self).deep_view(), event.deep_view()) == going_on(
                final(self).deep_view(),
                stream_model(items@),
            ),
    {
        let index: usize = match event.index {
            Some(index) => index,
            None => 0,
        };
        if let Some(delta) = event.delta {
            if let Some(fragment) = delta_text(delta) {
                let taken = self.extend_block(index, &fragment);
                return hand_on(taken, fragment, index);
            }
        }
        no_items()
    }

    /// Closes the blocks that never got a stop of their own, and completes the response.
    fn finish(&mut self) -> (items: Vec<StreamItem>)
        requires
            total_fits(old(self).deep_view().usage),
        ensures
            finished(old(self).deep_view()) == (AnthropicStep {
                state: final(self).deep_view(),
                items: stream_model(items@),
                done: true,
            }),
    {
        let ghost start = self.deep_view();
        let keys = ascending_keys(&self.blocks);
        assert(self.blocks@.dom() =~= start.blocks.dom());
        let mut items = no_items();
        let mut i: usize = 0;
        while i < keys.len()
            invariant
                i <= keys.len(),
                lists(keys@, start.blocks.dom()),
                forall|k: usize| #[trigger]
                    self.deep_view().blocks.contains_key(k) <==> start.blocks.contains_key(k)
                        && !keys@.take(i as int).contains(k),
                forall|k: usize| #[trigger]
                    self.deep_view().blocks.contains_key(k) ==> self.deep_view().blocks[k]
                        == start.blocks[k],
                self.deep_view().response_id == start.response_id,
                self.deep_view().usage == start.usage,
                stream_model(items@) == keys@.take(i as int).map_values(
                    |k: usize| closing(start.blocks[k]),
                ),
            decreases keys.len() - i,
        {
            let ghost passed = stream_model(items@);
            proof {
                lemma_next_key(keys@, start.blocks.dom(), i as int);
                assert(start.blocks.contains_key(keys@[i as int]));
                assert(self.deep_view().blocks.contains_key(keys@[i as int]));
            }
            let block = self.take_block(keys[i]);
            if let Some(block) = block {
                let event = finish_block(block);
                items.push(Ok(event));
                assert(stream_model(items@) =~= passed.push(closing(start.blocks[keys@[i as int]])));
            }
            assert(stream_model(items@) =~= keys@.take(i + 1).map_values(
                |k: usize| closing(start.blocks[k]),
            ));
            i += 1;
        }
        proof {
            assert(keys@.take(keys.len() as int) =~= keys@);
            assert forall|k: usize| !self.deep_view().blocks.contains_key(k) by {
                if start.blocks.contains_key(k) {
                    assert(start.blocks.dom().contains(k));
                    assert(keys@.to_set().contains(k));
                }
            }
            assert(self.deep_view().blocks =~= Map::empty());
        }
        let ghost closed = stream_model(items@);
        if self.response_id.as_str().is_empty() {
            self.response_id = "msg-anthropic".to_string();
        }
        let token_usage = match self.usage {
            Some(usage) => {
                let input: i64 = value_or_zero(usage.input_tokens);
                let output: i64 = value_or_zero(usage.output_tokens);
                Some(
                    TokenUsage {
                        input_tokens: input,
                        cached_input_tokens: value_or_zero(usage.cache_read_input_tokens),
                        output_tokens: output,
                        reasoning_output_tokens: 0,
                        total_tokens: input + output,
                    },
                )
            },
            None => None,
        };
        let completed = ResponseEvent::Completed {
            response_id: self.response_id.clone(),
            token_usage,
            end_turn: Some(true),
        };
        items.push(Ok(completed));
        assert(stream_model(items@) =~= closed.push(completion(start)));
        items
    }

    /// Whether the total of the counts that were reported so far can be represented.
    pub fn total_is_representable(&self) -> (fits: bool)
        ensures
            fits == total_fits(self.deep_view().usage),
    {
        match self.usage {
            Some(usage) => value_or_zero(usage.input_tokens).checked_add(
                value_or_zero(usage.output_tokens),
            ).is_some(),
            None => true,
        }
    }

    fn decoded_event(&mut self, data: &str, event: AnthropicEvent) -> (step: Step)
        requires
            event.event_type@ == "message_stop"@ ==> total_fits(old(self).deep_view().usage),
        ensures
            after_event(old(self).deep_view(), data@, event.deep_view()) == (AnthropicStep {
                state: final(self).deep_view(),
                items: step.items_model(),
                done: step.done,
            }),
    {
        let kind = event.event_type.as_str();
        if str_eq(kind, "message_start") {
            self.message_start(event);
            Step { items: no_items(), done: false }
        } else if str_eq(kind, "content_block_start") {
            Step { items: self.block_start(event), done: false }
        } else if str_eq(kind, "content_block_delta") {
            Step { items: self.block_delta(event), done: false }
        } else if str_eq(kind, "content_block_stop") {
            Step { items: self.block_stop(event), done: false }
        } else if str_eq(kind, "message_delta") {
            self.message_delta(event);
            Step { items: no_items(), done: false }
        } else if str_eq(kind, "message_stop") {
            Step { items: self.finish(), done: true }
        } else if str_eq(kind, "error") {
            let mut message = "anthropic error event: ".to_string();
            message.append(data);
            Step { items: stream_error(message), done: true }
        } else {
            Step { items: no_items(), done: false }
        }
    }

    /// Takes the next input: the items to hand on, in order, and whether the stream is over.
    pub fn step(&mut self, input: SseInput<AnthropicEvent>) -> (step: Step)
        requires
            completes(input.deep_view()) ==> total_fits(old(self).deep_view().usage),
        ensures
            after_input(old(self).deep_view(), input.deep_view()) == (AnthropicStep {
                state: final(self).deep_view(),
                items: step.items_model(),
                done: step.done,
            }),
    {
        match input {
            SseInput::Event { data, decoded } => {
                let payload = str_trim(data.as_str());
                match decoded {
                    Ok(event) => self.decoded_event(payload, event),
                    Err(error) => {
                        let mut message = "failed to parse anthropic event: ".to_string();
                        message.append(error.as_str());
                        message.append(": ");
                        message.append(payload);
                        Step { items: stream_error(message), done: true }
                    },
                }
            },
            SseInput::TransportError(error) => {
                let mut message = "anthropic SSE error: ".to_string();
                message.append(error.as_str());
                Step { items: stream_error(message), done: true }
            },
            SseInput::End => Step { items: self.finish(), done: true },
            SseInput::IdleTimeout => Step {
                items: stream_error("anthropic stream idle timeout".to_string()),
                done: true,
            },
        }
    }

    /// Takes the next input as [`step`](Self::step) does, or gives `None`, and stays as it is, where
    /// the input completes the response and the total of the counts cannot be represented.
    pub fn checked_step(&mut self, input: SseInput<AnthropicEvent>) -> (step: Option<Step>)
        ensures
            step is None <==> completes(input.deep_view()) && !total_fits(
                old(self).deep_view().usage,
            ),
            step is None ==> *final(self) == *old(self),
            step matches Some(step) ==> after_input(old(self).deep_view(), input.deep_view()) == (
            AnthropicStep {
                state: final(self).deep_view(),
                items: step.items_model(),
                done: step.done,
            }),
    {
        let last = match &input {
            SseInput::Event { decoded: Ok(event), .. } => str_eq(
                event.event_type.as_str(),
                "message_stop",
            ),
            SseInput::End => true,
            _ => false,
        };
        if last && !self.total_is_representable() {
            None
        } else {
            Some(self.step(input))
        }
    }
}

/// The text that a delta carries, with its kind.
enum DeltaText {
    Thinking(String),
    Text(String),
    Json(String),
}

impl DeepView for DeltaText {
    type V = Fragment;

    closed spec fn deep_view(&self) -> Fragment {
        match self {
            DeltaText::Thinking(text) => Fragment::Thinking(text@),
            DeltaText::Text(text) => Fragment::Text(text@),
            DeltaText::Json(text) => Fragment::Json(text@),
        }
    }
}

/// The text that `delta` carries, going by its type.
fn delta_text(delta: AnthropicDelta) -> (text: Option<DeltaText>)
    ensures
        text.deep_view() == fragment(delta.deep_view()),
{
    let kind = match delta.delta_type {
        Some(kind) => kind,
        None => String::new(),
    };
    if str_eq(kind.as_str(), "thinking_delta") {
        match delta.thinking {
            Some(thinking) => Some(DeltaText::Thinking(thinking)),
            None => None,
        }
    } else if str_eq(kind.as_str(), "text_delta") {
        match delta.text {
            Some(text) => Some(DeltaText::Text(text)),
            None => None,
        }
    } else if str_eq(kind.as_str(), "input_json_delta") {
        match delta.partial_json {
            Some(json) => Some(DeltaText::Json(json)),
            None => None,
        }
    } else {
        None
    }
}

/// The block that opens with `content`, where it is of a known kind.
fn block_of(content: AnthropicContentBlock) -> (block: Option<BlockState>)
    ensures
        block.deep_view() == opened_block(content.deep_view()),
{
    let kind = content.block_type.as_str();
    if str_eq(kind, "thinking") || str_eq(kind, "redacted_thinking") {
        Some(BlockState::Thinking(String::new()))
    } else if str_eq(kind, "text") {
        Some(BlockState::Text(String::new()))
    } else if str_eq(kind, "tool_use") {
        match (content.id, content.name) {
            (Some(id), Some(name)) => Some(
                BlockState::ToolUse(ToolCallState { id, name, json_accumulator: String::new() }),
            ),
            _ => None,
        }
    } else {
        None
    }
}

/// Announces the item of a block, where it is of a kind that is announced.
fn announce(block: &BlockState, items: &mut Vec<StreamItem>)
    ensures
        stream_model(final(items)@) == stream_model(old(items)@) + announced(block.deep_view()),
{
    let ghost before = stream_model(items@);
    match block {
        BlockState::Thinking(_) => {
            let summary: Vec<String> = Vec::new();
            assert(summary.deep_view() =~= Seq::empty());
            let item = ResponseItem::Reasoning {
                id: String::new(),
                summary,
                content: None,
                encrypted_content: None,
            };
            items.push(Ok(ResponseEvent::OutputItemAdded(item)));
        },
        BlockState::Text(_) => {
            let content: Vec<ContentItem> = Vec::new();
            assert(content.deep_view() =~= Seq::empty());
            let item = ResponseItem::Message {
                id: None,
                role: "assistant".to_string(),
                content,
                phase: None,
            };
            items.push(Ok(ResponseEvent::OutputItemAdded(item)));
        },
        BlockState::ToolUse(_) => {},
    }
    assert(stream_model(items@) =~= before + announced(block.deep_view()));
}

/// Whether the fragment is of the block's kind.
fn takes(block: &BlockState, fragment: &DeltaText) -> (yes: bool)
    ensures
        yes == fits(block.deep_view(), fragment.deep_view()),
{
    match (block, fragment) {
        (BlockState::Thinking(_), DeltaText::Thinking(_)) => true,
        (BlockState::Text(_), DeltaText::Text(_)) => true,
        (BlockState::ToolUse(_), DeltaText::Json(_)) => true,
        _ => false,
    }
}

/// The items that hand a fragment on: within the item of the block that took it, or within an item
/// of its own.
fn hand_on(taken: bool, fragment: DeltaText, index: usize) -> (items: Vec<StreamItem>)
    ensures
        stream_model(items@) == handed_on(taken, fragment.deep_view(), index),
{
    let ghost model = fragment.deep_view();
    let (own, event) = match fragment {
        DeltaText::Thinking(delta) => (
            BlockState::Thinking(delta.clone()),
            ResponseEvent::ReasoningContentDelta { delta, content_index: index as i64 },
        ),
        DeltaText::Text(text) => (
            BlockState::Text(text.clone()),
            ResponseEvent::OutputTextDelta(text),
        ),
        DeltaText::Json(_) => {
            return no_items();
        },
    };
    let mut items = no_items();
    if taken {
        items.push(Ok(event));
        assert(stream_model(items@) =~= passed_on(model, index));
    } else {
        announce(&own, &mut items);
        let ghost opened = stream_model(items@);
        items.push(Ok(event));
        assert(stream_model(items@) =~= opened + passed_on(model, index));
        items.push(Ok(finish_block(own)));
        assert(stream_model(items@) =~= handed_on(taken, model, index));
    }
    items
}

/// `block` with the fragment added, where it is of the block's kind.
fn extend(block: BlockState, fragment: &DeltaText) -> (longer: BlockState)
    ensures
        longer.deep_view() == extended(block.deep_view(), fragment.deep_view()),
{
    match (block, fragment) {
        (BlockState::Thinking(gathered), DeltaText::Thinking(more)) => {
            let mut gathered = gathered;
            gathered.append(more.as_str());
            BlockState::Thinking(gathered)
        },
        (BlockState::Text(gathered), DeltaText::Text(more)) => {
            let mut gathered = gathered;
            gathered.append(more.as_str());
            BlockState::Text(gathered)
        },
        (BlockState::ToolUse(call), DeltaText::Json(more)) => {
            let mut call = call;
            call.json_accumulator.append(more.as_str());
            BlockState::ToolUse(call)
        },
        (block, _) => block,
    }
}

} // verus!
