//! What an Anthropic Messages stream makes of each field of its events.
use crate::ordered::{ascending, lemma_ascending_lists};
use crate::protocol::{
    ContentModel, ErrorModel, EventModel, ItemModel, StreamItemModel, TokenUsage,
};
use crate::sse::anthropic_events::{
    AnthropicEventModel, AnthropicUsage, BlockModel, ContentBlockModel, DeltaModel, MessageModel,
};
use crate::sse::anthropic_model::{
    after_input, completes, finished_item, fresh_stream, merged, run, total_fits, AnthropicModel,
    AnthropicStep,
};
use crate::sse::SseModel;
use crate::text::trimmed;
use vstd::prelude::*;

verus! {

/// A message of the assistant.
pub open spec fn assistant_message(content: Seq<ContentModel>) -> ItemModel {
    ItemModel::Message { id: None, role: "assistant"@, content, phase: None }
}

/// Reasoning.
pub open spec fn reasoning(content: Option<Seq<Seq<char>>>) -> ItemModel {
    ItemModel::Reasoning {
        id: Seq::empty(),
        summary: Seq::empty(),
        content,
        encrypted_content: None,
    }
}

/// Hands on the announcement of an item.
pub open spec fn added(item: ItemModel) -> StreamItemModel {
    Ok(EventModel::OutputItemAdded(item))
}

/// Hands on the close of an item.
pub open spec fn done(item: ItemModel) -> StreamItemModel {
    Ok(EventModel::OutputItemDone(item))
}

/// The close of the item of a block, with all that the block gathered.
pub open spec fn done_block(block: BlockModel) -> StreamItemModel {
    match block {
        BlockModel::Text(text) => done(assistant_message(seq![ContentModel::OutputText { text }])),
        BlockModel::Thinking(text) => done(reasoning(Some(seq![text]))),
        BlockModel::ToolUse { id, name, json } => done(
            ItemModel::FunctionCall {
                id: None,
                name,
                namespace: None,
                arguments: json,
                call_id: id,
            },
        ),
    }
}

/// The close of the block at `index`, if one is open there.
pub open spec fn done_at(blocks: Map<usize, BlockModel>, index: usize) -> Seq<StreamItemModel> {
    if blocks.contains_key(index) {
        seq![done_block(blocks[index])]
    } else {
        Seq::empty()
    }
}

/// What a stream makes of a decoded event.
pub open spec fn step_of(
    s: AnthropicModel,
    data: Seq<char>,
    event: AnthropicEventModel,
) -> AnthropicStep {
    after_input(s, SseModel::Event { data, decoded: Ok(event) })
}

/// Holds where a step goes on with `blocks` open and hands `items` on, and nothing else changes.
pub open spec fn leads_to(
    step: AnthropicStep,
    s: AnthropicModel,
    blocks: Map<usize, BlockModel>,
    items: Seq<StreamItemModel>,
) -> bool {
    &&& !step.done
    &&& step.state.blocks == blocks
    &&& step.state.response_id == s.response_id
    &&& step.state.usage == s.usage
    &&& step.items == items
}

/// The types of events are different texts.
proof fn lemma_types()
    ensures
        "message_delta"@ != "message_start"@,
        "message_delta"@ != "content_block_start"@,
        "message_delta"@ != "content_block_delta"@,
        "message_delta"@ != "content_block_stop"@,
        "error"@ != "message_start"@,
        "error"@ != "content_block_start"@,
        "error"@ != "content_block_delta"@,
        "error"@ != "content_block_stop"@,
        "error"@ != "message_delta"@,
        "error"@ != "message_stop"@,
{
    reveal_strlit("message_start");
    reveal_strlit("message_delta");
    reveal_strlit("message_stop");
    reveal_strlit("content_block_start");
    reveal_strlit("content_block_delta");
    reveal_strlit("content_block_stop");
    reveal_strlit("error");
    assert("error"@.len() == 5);
    assert("message_start"@.len() == 13 && "message_delta"@.len() == 13);
    assert("message_stop"@.len() == 12);
    assert("content_block_start"@.len() == 19 && "content_block_delta"@.len() == 19);
    assert("content_block_stop"@.len() == 18);
    assert("message_start"@[8] == 's' && "message_delta"@[8] == 'd');
}

/// The types of deltas are different texts.
proof fn lemma_delta_types()
    ensures
        "text_delta"@ != "thinking_delta"@,
        "input_json_delta"@ != "thinking_delta"@,
        "input_json_delta"@ != "text_delta"@,
        "text_delta"@.len() > 0,
        "thinking_delta"@.len() > 0,
        "input_json_delta"@.len() > 0,
{
    reveal_strlit("text_delta");
    reveal_strlit("thinking_delta");
    reveal_strlit("input_json_delta");
    assert("text_delta"@.len() == 10 && "thinking_delta"@.len() == 14);
    assert("input_json_delta"@.len() == 16);
}

/// The types of blocks are different texts.
proof fn lemma_block_types()
    ensures
        "text"@ != "thinking"@,
        "text"@ != "redacted_thinking"@,
        "tool_use"@ != "thinking"@,
        "tool_use"@ != "redacted_thinking"@,
        "tool_use"@ != "text"@,
{
    reveal_strlit("text");
    reveal_strlit("thinking");
    reveal_strlit("redacted_thinking");
    reveal_strlit("tool_use");
    assert("text"@.len() == 4 && "thinking"@.len() == 8 && "tool_use"@.len() == 8);
    assert("redacted_thinking"@.len() == 17);
    assert("thinking"@[1] == 'h' && "tool_use"@[1] == 'o');
}

/// A text delta is handed on with exactly its text, and a text block that is open at its index grows
/// by exactly that text. Where none is, the delta gets a message of its own with that text. A delta
/// without an index is about the block at zero.
pub proof fn law_text_delta(
    s: AnthropicModel,
    data: Seq<char>,
    event: AnthropicEventModel,
    delta: DeltaModel,
    text: Seq<char>,
    index: usize,
)
    requires
        event.event_type == "content_block_delta"@,
        event.index == Some(index) || (event.index is None && index == 0),
        event.delta == Some(delta),
        delta.delta_type == Some("text_delta"@),
        delta.text == Some(text),
    ensures
        s.blocks.contains_key(index) && s.blocks[index] is Text ==> leads_to(
            step_of(s, data, event),
            s,
            s.blocks.insert(index, BlockModel::Text(s.blocks[index]->Text_0 + text)),
            seq![Ok(EventModel::OutputTextDelta(text))],
        ),
        !(s.blocks.contains_key(index) && s.blocks[index] is Text) ==> leads_to(
            step_of(s, data, event),
            s,
            s.blocks,
            seq![
                added(assistant_message(Seq::empty())),
                Ok(EventModel::OutputTextDelta(text)),
                done(assistant_message(seq![ContentModel::OutputText { text }])),
            ],
        ),
{
    crate::sse::anthropic_laws::lemma_event_types();
    lemma_delta_types();
    let step = step_of(s, data, event);
    if s.blocks.contains_key(index) && !(s.blocks[index] is Text) {
        assert(step.state.blocks =~= s.blocks);
    }
    if !(s.blocks.contains_key(index) && s.blocks[index] is Text) {
        assert(step.items =~= seq![
            added(assistant_message(Seq::empty())),
            Ok(EventModel::OutputTextDelta(text)),
            done(assistant_message(seq![ContentModel::OutputText { text }])),
        ]);
    }
}

/// A thinking delta is handed on with exactly its text and its index, and a thinking block that is
/// open at its index grows by exactly that text. Where none is, the delta gets an item of its own.
pub proof fn law_thinking_delta(
    s: AnthropicModel,
    data: Seq<char>,
    event: AnthropicEventModel,
    delta: DeltaModel,
    text: Seq<char>,
    index: usize,
)
    requires
        event.event_type == "content_block_delta"@,
        event.index == Some(index) || (event.index is None && index == 0),
        event.delta == Some(delta),
        delta.delta_type == Some("thinking_delta"@),
        delta.thinking == Some(text),
    ensures
        s.blocks.contains_key(index) && s.blocks[index] is Thinking ==> leads_to(
            step_of(s, data, event),
            s,
            s.blocks.insert(index, BlockModel::Thinking(s.blocks[index]->Thinking_0 + text)),
            seq![
                Ok(EventModel::ReasoningContentDelta { delta: text, content_index: index as i64 }),
            ],
        ),
        !(s.blocks.contains_key(index) && s.blocks[index] is Thinking) ==> leads_to(
            step_of(s, data, event),
            s,
            s.blocks,
            seq![
                added(reasoning(None)),
                Ok(EventModel::ReasoningContentDelta { delta: text, content_index: index as i64 }),
                done(reasoning(Some(seq![text]))),
            ],
        ),
{
    crate::sse::anthropic_laws::lemma_event_types();
    lemma_delta_types();
    let step = step_of(s, data, event);
    if s.blocks.contains_key(index) && !(s.blocks[index] is Thinking) {
        assert(step.state.blocks =~= s.blocks);
    }
    if !(s.blocks.contains_key(index) && s.blocks[index] is Thinking) {
        assert(step.items =~= seq![
            added(reasoning(None)),
            Ok(EventModel::ReasoningContentDelta { delta: text, content_index: index as i64 }),
            done(reasoning(Some(seq![text]))),
        ]);
    }
}

/// A piece of JSON goes to the arguments of the tool call that is open at its index, exactly as it
/// is, and is not handed on. Where no call is open there, nothing happens.
pub proof fn law_json_delta(
    s: AnthropicModel,
    data: Seq<char>,
    event: AnthropicEventModel,
    delta: DeltaModel,
    json: Seq<char>,
    index: usize,
)
    requires
        event.event_type == "content_block_delta"@,
        event.index == Some(index) || (event.index is None && index == 0),
        event.delta == Some(delta),
        delta.delta_type == Some("input_json_delta"@),
        delta.partial_json == Some(json),
    ensures
        s.blocks.contains_key(index) && s.blocks[index] is ToolUse ==> leads_to(
            step_of(s, data, event),
            s,
            s.blocks.insert(
                index,
                BlockModel::ToolUse {
                    id: s.blocks[index]->id,
                    name: s.blocks[index]->name,
                    json: s.blocks[index]->json + json,
                },
            ),
            Seq::empty(),
        ),
        !(s.blocks.contains_key(index) && s.blocks[index] is ToolUse) ==> leads_to(
            step_of(s, data, event),
            s,
            s.blocks,
            Seq::empty(),
        ),
{
    crate::sse::anthropic_laws::lemma_event_types();
    lemma_delta_types();
    let step = step_of(s, data, event);
    if s.blocks.contains_key(index) && !(s.blocks[index] is ToolUse) {
        assert(step.state.blocks =~= s.blocks);
    }
}

/// A delta of any other type, without a type, or without the field that its type calls for, changes
/// nothing and is not handed on.
pub proof fn law_other_delta(s: AnthropicModel, data: Seq<char>, event: AnthropicEventModel)
    requires
        event.event_type == "content_block_delta"@,
        event.delta matches Some(delta) ==> {
            &&& delta.delta_type == Some("text_delta"@) ==> delta.text is None
            &&& delta.delta_type == Some("thinking_delta"@) ==> delta.thinking is None
            &&& delta.delta_type == Some("input_json_delta"@) ==> delta.partial_json is None
        },
    ensures
        leads_to(step_of(s, data, event), s, s.blocks, Seq::empty()),
{
    crate::sse::anthropic_laws::lemma_event_types();
    lemma_delta_types();
}

/// A block that starts is open at its index with nothing gathered, and its item is announced, unless
/// it is a tool call, which keeps its id and its name. What was open there closes first.
pub proof fn law_block_start(
    s: AnthropicModel,
    data: Seq<char>,
    event: AnthropicEventModel,
    content: ContentBlockModel,
    index: usize,
    id: Seq<char>,
    name: Seq<char>,
)
    requires
        event.event_type == "content_block_start"@,
        event.index == Some(index),
        event.content_block == Some(content),
    ensures
        content.block_type == "text"@ ==> leads_to(
            step_of(s, data, event),
            s,
            s.blocks.insert(index, BlockModel::Text(Seq::empty())),
            done_at(s.blocks, index).push(added(assistant_message(Seq::empty()))),
        ),
        content.block_type == "thinking"@ || content.block_type == "redacted_thinking"@
            ==> leads_to(
            step_of(s, data, event),
            s,
            s.blocks.insert(index, BlockModel::Thinking(Seq::empty())),
            done_at(s.blocks, index).push(added(reasoning(None))),
        ),
        content.block_type == "tool_use"@ && content.id == Some(id) && content.name == Some(name)
            ==> leads_to(
            step_of(s, data, event),
            s,
            s.blocks.insert(index, BlockModel::ToolUse { id, name, json: Seq::empty() }),
            done_at(s.blocks, index),
        ),
{
    crate::sse::anthropic_laws::lemma_event_types();
    lemma_block_types();
    let step = step_of(s, data, event);
    if content.block_type == "text"@ {
        assert(step.items =~= done_at(s.blocks, index).push(
            added(assistant_message(Seq::empty())),
        ));
    }
    if content.block_type == "thinking"@ || content.block_type == "redacted_thinking"@ {
        assert(step.items =~= done_at(s.blocks, index).push(added(reasoning(None))));
    }
    if content.block_type == "tool_use"@ && content.id == Some(id) && content.name == Some(name) {
        assert(step.items =~= done_at(s.blocks, index));
    }
}

/// The start of a block without an index or without a block, of a block of an unknown type, or of a
/// tool call without an id or a name, changes nothing.
pub proof fn law_no_block_start(s: AnthropicModel, data: Seq<char>, event: AnthropicEventModel)
    requires
        event.event_type == "content_block_start"@,
        event.index is Some && event.content_block is Some ==> {
            let content = event.content_block->0;
            &&& content.block_type != "text"@
            &&& content.block_type != "thinking"@
            &&& content.block_type != "redacted_thinking"@
            &&& content.block_type == "tool_use"@ ==> content.id is None || content.name is None
        },
    ensures
        leads_to(step_of(s, data, event), s, s.blocks, Seq::empty()),
{
    crate::sse::anthropic_laws::lemma_event_types();
}

/// A block that stops closes with all that it gathered, and is open no more. A stop without an index
/// is about the block at zero; where no block is open, nothing happens.
pub proof fn law_block_stop(
    s: AnthropicModel,
    data: Seq<char>,
    event: AnthropicEventModel,
    index: usize,
)
    requires
        event.event_type == "content_block_stop"@,
        event.index == Some(index) || (event.index is None && index == 0),
    ensures
        leads_to(step_of(s, data, event), s, s.blocks.remove(index), done_at(s.blocks, index)),
{
    crate::sse::anthropic_laws::lemma_event_types();
    if !s.blocks.contains_key(index) {
        assert(s.blocks.remove(index) =~= s.blocks);
    }
}

/// A finished text block is a message of the assistant with its text, a finished thinking block
/// reasoning with its text, and a finished tool call a call with its id, its name and its arguments.
pub proof fn law_finished_item(block: BlockModel)
    ensures
        done(finished_item(block)) == done_block(block),
{
}

/// The start of the message gives the response its id, and takes the counts that it reports.
pub proof fn law_message_start(
    s: AnthropicModel,
    data: Seq<char>,
    event: AnthropicEventModel,
    message: MessageModel,
)
    requires
        event.event_type == "message_start"@,
        event.message == Some(message),
    ensures
        ({
            let step = step_of(s, data, event);
            &&& !step.done
            &&& step.items.len() == 0
            &&& step.state.blocks == s.blocks
            &&& message.id matches Some(id) ==> step.state.response_id == id
            &&& message.id is None ==> step.state.response_id == s.response_id
            &&& message.usage matches Some(usage) ==> step.state.usage == Some(
                merged(s.usage, usage),
            )
            &&& message.usage is None ==> step.state.usage == s.usage
        }),
{
}

/// A message delta takes the counts that it reports, and does nothing else.
pub proof fn law_message_delta(s: AnthropicModel, data: Seq<char>, event: AnthropicEventModel)
    requires
        event.event_type == "message_delta"@,
    ensures
        ({
            let step = step_of(s, data, event);
            &&& !step.done
            &&& step.items.len() == 0
            &&& step.state.blocks == s.blocks
            &&& step.state.response_id == s.response_id
            &&& event.usage matches Some(usage) ==> step.state.usage == Some(
                merged(s.usage, usage),
            )
            &&& event.usage is None ==> step.state.usage == s.usage
        }),
{
    lemma_types();
}

/// A message start without a message, and an event of any other type, such as a ping, changes
/// nothing.
pub proof fn law_other_event(s: AnthropicModel, data: Seq<char>, event: AnthropicEventModel)
    requires
        event.event_type == "message_start"@ ==> event.message is None,
        event.event_type != "message_delta"@,
        event.event_type != "message_stop"@,
        event.event_type != "content_block_start"@,
        event.event_type != "content_block_delta"@,
        event.event_type != "content_block_stop"@,
        event.event_type != "error"@,
    ensures
        leads_to(step_of(s, data, event), s, s.blocks, Seq::empty()),
{
}

/// Holds where `after` is a count of which `before` was known, once `report` has come in: the larger
/// of the two, a missing one standing for zero.
pub open spec fn is_largest(before: Option<i64>, report: Option<i64>, after: Option<i64>) -> bool {
    match (before, report) {
        (_, None) => after == before,
        (None, Some(value)) => after == (if value >= 0 {
            Some(value)
        } else {
            None
        }),
        (Some(known), Some(value)) => after == (if value > known {
            Some(value)
        } else {
            Some(known)
        }),
    }
}

/// Each count goes by itself: a report of one count changes no other.
pub proof fn law_merged_fields(slot: Option<AnthropicUsage>, report: AnthropicUsage)
    ensures
        ({
            let after = merged(slot, report);
            let before = slot->0;
            &&& slot is Some ==> {
                &&& is_largest(before.input_tokens, report.input_tokens, after.input_tokens)
                &&& is_largest(before.output_tokens, report.output_tokens, after.output_tokens)
                &&& is_largest(
                    before.cache_creation_input_tokens,
                    report.cache_creation_input_tokens,
                    after.cache_creation_input_tokens,
                )
                &&& is_largest(
                    before.cache_read_input_tokens,
                    report.cache_read_input_tokens,
                    after.cache_read_input_tokens,
                )
            }
            &&& slot is None ==> {
                &&& is_largest(None, report.input_tokens, after.input_tokens)
                &&& is_largest(None, report.output_tokens, after.output_tokens)
                &&& is_largest(
                    None,
                    report.cache_creation_input_tokens,
                    after.cache_creation_input_tokens,
                )
                &&& is_largest(None, report.cache_read_input_tokens, after.cache_read_input_tokens)
            }
        }),
{
}

/// A count, with a missing one read as zero.
pub open spec fn or_zero(count: Option<i64>) -> int {
    match count {
        Some(value) => value as int,
        None => 0,
    }
}

/// Holds of the usage that is reported for counts: the input, the input that was cached, the output,
/// and the total of input and output. Without counts none is reported.
pub open spec fn reports(usage: Option<AnthropicUsage>, reported: Option<TokenUsage>) -> bool {
    match usage {
        Some(usage) => {
            &&& reported is Some
            &&& reported->0.input_tokens == or_zero(usage.input_tokens)
            &&& reported->0.cached_input_tokens == or_zero(usage.cache_read_input_tokens)
            &&& reported->0.output_tokens == or_zero(usage.output_tokens)
            &&& reported->0.reasoning_output_tokens == 0
            &&& reported->0.total_tokens == or_zero(usage.input_tokens) + or_zero(
                usage.output_tokens,
            )
        },
        None => reported is None,
    }
}

/// The end of the message, and the end of the stream, close every open block with all that it
/// gathered, the one at the lower index first, and then complete the response with its id and the
/// counts.
pub proof fn law_end(s: AnthropicModel, input: SseModel<AnthropicEventModel>)
    requires
        s.blocks.dom().finite(),
        input is End || (input matches SseModel::Event { decoded: Ok(event), .. }
            && event.event_type == "message_stop"@),
        s.usage matches Some(usage) ==> i64::MIN <= or_zero(usage.input_tokens) + or_zero(
            usage.output_tokens,
        ) <= i64::MAX,
    ensures
        ({
            let step = after_input(s, input);
            let order = ascending(s.blocks.dom());
            let n = order.len() as int;
            &&& step.done
            &&& step.state.blocks == Map::<usize, BlockModel>::empty()
            &&& forall|x: usize| order.contains(x) <==> s.blocks.contains_key(x)
            &&& forall|i: int, j: int| 0 <= i < j < n ==> order[i] < order[j]
            &&& step.items.len() == n + 1
            &&& forall|i: int|
                0 <= i < n ==> #[trigger] step.items[i] == done_block(s.blocks[order[i]])
            &&& step.items[n] matches Ok(EventModel::Completed { response_id, token_usage, end_turn })
                && response_id == (if s.response_id.len() == 0 {
                "msg-anthropic"@
            } else {
                s.response_id
            }) && reports(s.usage, token_usage) && end_turn == Some(true)
        }),
{
    crate::sse::anthropic_laws::lemma_event_types();
    lemma_ascending_lists(s.blocks.dom());
    let order = ascending(s.blocks.dom());
    assert forall|x: usize| order.contains(x) <==> s.blocks.contains_key(x) by {
        assert(order.to_set().contains(x) <==> s.blocks.dom().contains(x));
    }
}

/// What a stream fails with, and when: an error event gives its data, data that could not be decoded
/// gives the error and the data, and a broken stream gives its error; white space round the data is
/// left out. A failure changes nothing, hands nothing else on, and ends the stream.
pub proof fn law_failures(
    s: AnthropicModel,
    data: Seq<char>,
    event: AnthropicEventModel,
    error: Seq<char>,
)
    requires
        event.event_type == "error"@,
    ensures
        fails_with(step_of(s, data, event), s, "anthropic error event: "@ + trimmed(data)),
        fails_with(
            after_input(s, SseModel::Event { data, decoded: Err(error) }),
            s,
            "failed to parse anthropic event: "@ + error + ": "@ + trimmed(data),
        ),
        fails_with(
            after_input(s, SseModel::TransportError(error)),
            s,
            "anthropic SSE error: "@ + error,
        ),
        fails_with(after_input(s, SseModel::IdleTimeout), s, "anthropic stream idle timeout"@),
{
    lemma_types();
}

/// Holds of a step that ends the stream with an error and does nothing else.
pub open spec fn fails_with(step: AnthropicStep, s: AnthropicModel, message: Seq<char>) -> bool {
    &&& step.done
    &&& step.state == s
    &&& step.items == seq![Err::<EventModel, ErrorModel>(ErrorModel::Stream(message))]
}

/// A response is completed by the end of its message and by the end of the stream, and by nothing
/// else; and its total can be represented where input and output add up to a number that can.
pub proof fn law_completes(
    input: SseModel<AnthropicEventModel>,
    usage: Option<AnthropicUsage>,
)
    ensures
        completes(input) <==> input is End || (input matches SseModel::Event {
            decoded: Ok(event),
            ..
        } && event.event_type == "message_stop"@),
        total_fits(usage) <==> (usage matches Some(usage) ==> i64::MIN <= or_zero(
            usage.input_tokens,
        ) + or_zero(usage.output_tokens) <= i64::MAX),
{
}

/// A run takes its inputs one after the other: each from the state that those before it led to, as
/// long as none of them ended the stream, and what is handed on adds up. A stream starts with nothing.
pub proof fn law_run(
    s: AnthropicModel,
    inputs: Seq<SseModel<AnthropicEventModel>>,
    input: SseModel<AnthropicEventModel>,
)
    ensures
        run(s, Seq::empty()).state == s,
        run(s, Seq::empty()).items.len() == 0,
        !run(s, Seq::empty()).done,
        fresh_stream().blocks == Map::<usize, BlockModel>::empty(),
        fresh_stream().response_id.len() == 0 && fresh_stream().usage is None,
        run(s, inputs).done ==> run(s, inputs.push(input)) == run(s, inputs),
        !run(s, inputs).done ==> {
            let last = after_input(run(s, inputs).state, input);
            let all = run(s, inputs.push(input));
            all.state == last.state && all.done == last.done && all.items == run(s, inputs).items
                + last.items
        },
{
    assert(inputs.push(input).drop_last() =~= inputs);
}

} // verus!
