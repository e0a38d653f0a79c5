//! What models keep of the values that they stand for: every text character for character, every
//! number and every flag, and lists in their order.
use crate::protocol::{
    result_model, stream_model, ApiError, ContentItem, ContentModel, ErrorModel, EventModel,
    FunctionCallOutputBody, FunctionCallOutputPayload, ItemModel, ReasoningItemContent,
    ResponseEvent, ResponseItem, ResponsesApiRequest, StreamItem, TokenUsage,
};
use crate::sse::anthropic_events::{
    AnthropicContentBlock, AnthropicDelta, AnthropicEvent, AnthropicEventModel, AnthropicMessage,
    BlockModel, BlockState, ToolCallState,
};
use crate::sse::chat_events::{
    ChatChoice, ChatCompletionChunk, ChatFunctionDelta, ChatToolCallDelta, ChunkModel,
    ToolCallAccumulator,
};
use crate::sse::{SseInput, SseModel, Step};
use vstd::prelude::*;

verus! {

/// Holds where `model` is the text that `text` has, or neither is there.
pub open spec fn same_text(model: Option<Seq<char>>, text: Option<String>) -> bool {
    match text {
        Some(text) => model == Some(text@),
        None => model is None,
    }
}

/// The model of a content item is of its kind and holds its text or its image.
pub proof fn law_content_view(text: String)
    ensures
        (ContentItem::InputText { text }).deep_view() == (ContentModel::InputText { text: text@ }),
        (ContentItem::OutputText { text }).deep_view() == (ContentModel::OutputText {
            text: text@,
        }),
        (ContentItem::InputImage { image_url: text }).deep_view() == (ContentModel::InputImage {
            image_url: text@,
        }),
        (ReasoningItemContent::ReasoningText { text }).deep_view() == text@,
{
}

/// The model of a tool's output is its text.
pub proof fn law_output_view(text: String, other: Option<String>)
    ensures
        FunctionCallOutputBody::Text(text).deep_view() == Some(text@),
        same_text((FunctionCallOutputBody::ContentItems { text: other }).deep_view(), other),
{
}

/// The model of a message holds its role, its content item by item, its id and its phase.
pub proof fn law_message_view(
    id: Option<String>,
    role: String,
    content: Vec<ContentItem>,
    phase: Option<String>,
)
    ensures
        (ResponseItem::Message { id, role, content, phase }).deep_view() matches ItemModel::Message {
            id: id_model,
            role: role_model,
            content: content_model,
            phase: phase_model,
        } && same_text(id_model, id) && role_model == role@ && same_text(phase_model, phase)
            && content_model.len() == content@.len() && forall|i: int|
            0 <= i < content@.len() ==> #[trigger] content_model[i] == content@[i].deep_view(),
{
}

/// The model of reasoning holds its texts one by one, its id and its encrypted form.
pub proof fn law_reasoning_view(
    id: String,
    summary: Vec<String>,
    content: Vec<ReasoningItemContent>,
    encrypted_content: Option<String>,
)
    ensures
        (ResponseItem::Reasoning {
            id,
            summary,
            content: Some(content),
            encrypted_content,
        }).deep_view() matches ItemModel::Reasoning {
            id: id_model,
            summary: summary_model,
            content: Some(content_model),
            encrypted_content: encrypted_model,
        } && id_model == id@ && same_text(encrypted_model, encrypted_content)
            && summary_model.len() == summary@.len() && (forall|i: int|
            0 <= i < summary@.len() ==> #[trigger] summary_model[i] == summary@[i]@)
            && content_model.len() == content@.len() && forall|i: int|
            0 <= i < content@.len() ==> #[trigger] content_model[i] == content@[i]->text@,
        (ResponseItem::Reasoning {
            id,
            summary,
            content: None,
            encrypted_content,
        }).deep_view() matches ItemModel::Reasoning { content: None, .. },
{
}

/// The model of a tool call holds its name, its arguments and its ids.
pub proof fn law_call_view(
    id: Option<String>,
    name: String,
    namespace: Option<String>,
    arguments: String,
    call_id: String,
)
    ensures
        (ResponseItem::FunctionCall { id, name, namespace, arguments, call_id }).deep_view() matches
            ItemModel::FunctionCall {
            id: id_model,
            name: name_model,
            namespace: namespace_model,
            arguments: arguments_model,
            call_id: call_model,
        } && same_text(id_model, id) && name_model == name@ && same_text(
            namespace_model,
            namespace,
        ) && arguments_model == arguments@ && call_model == call_id@,
{
}

/// The model of a tool's result holds the id of its call and the text of its output.
pub proof fn law_result_view(call_id: String, output: FunctionCallOutputPayload)
    ensures
        (ResponseItem::FunctionCallOutput { call_id, output }).deep_view() == (
        ItemModel::FunctionCallOutput {
            call_id: call_id@,
            text: output.body.deep_view(),
            success: output.success,
        }),
        ResponseItem::Other.deep_view() == ItemModel::Other,
{
}

/// The model of a response event is of its kind and holds what the event holds.
pub proof fn law_event_view(
    item: ResponseItem,
    text: String,
    index: i64,
    usage: Option<TokenUsage>,
    end_turn: Option<bool>,
)
    ensures
        ResponseEvent::Created.deep_view() == EventModel::Created,
        ResponseEvent::OutputItemAdded(item).deep_view() == EventModel::OutputItemAdded(
            item.deep_view(),
        ),
        ResponseEvent::OutputItemDone(item).deep_view() == EventModel::OutputItemDone(
            item.deep_view(),
        ),
        ResponseEvent::OutputTextDelta(text).deep_view() == EventModel::OutputTextDelta(text@),
        (ResponseEvent::ReasoningContentDelta { delta: text, content_index: index }).deep_view()
            == (EventModel::ReasoningContentDelta { delta: text@, content_index: index }),
        (ResponseEvent::Completed { response_id: text, token_usage: usage, end_turn }).deep_view()
            == (EventModel::Completed { response_id: text@, token_usage: usage, end_turn }),
{
}

/// The model of what a step hands on has an event for each event and an error for each error, in
/// their order.
pub proof fn law_step_view(step: Step, i: int)
    requires
        0 <= i < step.items@.len(),
    ensures
        step.items_model().len() == step.items@.len(),
        step.items@[i] matches Ok(event) ==> step.items_model()[i] == Ok::<EventModel, ErrorModel>(
            event.deep_view(),
        ),
        step.items@[i] matches Err(ApiError::Stream(message)) ==> step.items_model()[i] == Err::<
            EventModel,
            ErrorModel,
        >(ErrorModel::Stream(message@)),
        stream_model(step.items@)[i] == step.items_model()[i],
{
}

/// The model of a result is a success where the result is one, with its value, and an error where
/// it is one, with its message.
pub proof fn law_result_model(item: StreamItem)
    ensures
        item matches Ok(event) ==> result_model(item) == Ok::<EventModel, ErrorModel>(
            event.deep_view(),
        ),
        item matches Err(ApiError::Stream(message)) ==> result_model(item) == Err::<
            EventModel,
            ErrorModel,
        >(ErrorModel::Stream(message@)),
{
}

/// The model of a request holds its texts, its flags, and its items and tools one by one.
pub proof fn law_request_view(request: ResponsesApiRequest)
    ensures
        ({
            let model = request.deep_view();
            &&& model.model == request.model@
            &&& model.instructions == request.instructions@
            &&& model.tool_choice == request.tool_choice@
            &&& model.parallel_tool_calls == request.parallel_tool_calls
            &&& model.store == request.store
            &&& model.input.len() == request.input@.len()
            &&& forall|i: int|
                0 <= i < request.input@.len() ==> #[trigger] model.input[i]
                    == request.input@[i].deep_view()
            &&& model.tools.len() == request.tools@.len()
            &&& forall|i: int|
                0 <= i < request.tools@.len() ==> #[trigger] model.tools[i]
                    == request.tools@[i].deep_view()
        }),
{
}

/// The model of an input is of its kind, and holds the data as it came and the text of the error.
pub proof fn law_input_view(data: String, event: AnthropicEvent, chunk: ChatCompletionChunk)
    ensures
        (SseInput::Event { data, decoded: Ok(event) }).deep_view() == (SseModel::<
            AnthropicEventModel,
        >::Event { data: data@, decoded: Ok(event.deep_view()) }),
        (SseInput::Event { data, decoded: Ok(chunk) }).deep_view() == (SseModel::<
            ChunkModel,
        >::Event { data: data@, decoded: Ok(chunk.deep_view()) }),
        SseInput::<AnthropicEvent>::TransportError(data).deep_view() == SseModel::<
            AnthropicEventModel,
        >::TransportError(data@),
        SseInput::<AnthropicEvent>::End.deep_view() is End,
        SseInput::<AnthropicEvent>::IdleTimeout.deep_view() is IdleTimeout,
        SseInput::<ChatCompletionChunk>::TransportError(data).deep_view() == SseModel::<
            ChunkModel,
        >::TransportError(data@),
        SseInput::<ChatCompletionChunk>::End.deep_view() is End,
        SseInput::<ChatCompletionChunk>::IdleTimeout.deep_view() is IdleTimeout,
{
}

/// The model of an event that could not be decoded holds its data and the text of the error.
pub proof fn law_failed_input_view(data: String, error: String)
    ensures
        (SseInput::<AnthropicEvent>::Event { data, decoded: Err(error) }).deep_view() == (
        SseModel::<AnthropicEventModel>::Event { data: data@, decoded: Err(error@) }),
        (SseInput::<ChatCompletionChunk>::Event { data, decoded: Err(error) }).deep_view() == (
        SseModel::<ChunkModel>::Event { data: data@, decoded: Err(error@) }),
{
}

/// The model of a streaming event holds all its fields.
pub proof fn law_anthropic_event_view(event: AnthropicEvent)
    ensures
        event.deep_view().event_type == event.event_type@,
        event.deep_view().index == event.index,
        event.deep_view().usage == event.usage,
        event.message is Some <==> event.deep_view().message is Some,
        event.message matches Some(message) ==> event.deep_view().message->0 == message.deep_view(),
        event.delta is Some <==> event.deep_view().delta is Some,
        event.delta matches Some(delta) ==> event.deep_view().delta->0 == delta.deep_view(),
        event.content_block is Some <==> event.deep_view().content_block is Some,
        event.content_block matches Some(block) ==> event.deep_view().content_block->0
            == block.deep_view(),
{
}

/// The models of the parts of a streaming event hold all their fields.
pub proof fn law_anthropic_part_views(
    message: AnthropicMessage,
    delta: AnthropicDelta,
    block: AnthropicContentBlock,
)
    ensures
        same_text(message.deep_view().id, message.id),
        message.deep_view().usage == message.usage,
        same_text(delta.deep_view().delta_type, delta.delta_type),
        same_text(delta.deep_view().text, delta.text),
        same_text(delta.deep_view().thinking, delta.thinking),
        same_text(delta.deep_view().partial_json, delta.partial_json),
        block.deep_view().block_type == block.block_type@,
        same_text(block.deep_view().id, block.id),
        same_text(block.deep_view().name, block.name),
{
}

/// The model of a block is of its kind and holds what it gathered.
pub proof fn law_block_view(text: String, call: ToolCallState)
    ensures
        BlockState::Text(text).deep_view() == BlockModel::Text(text@),
        BlockState::Thinking(text).deep_view() == BlockModel::Thinking(text@),
        BlockState::ToolUse(call).deep_view() == (BlockModel::ToolUse {
            id: call.id@,
            name: call.name@,
            json: call.json_accumulator@,
        }),
{
}

/// The model of a chunk holds its id, its counts, and its choices one by one.
pub proof fn law_chunk_view(chunk: ChatCompletionChunk)
    ensures
        same_text(chunk.deep_view().id, chunk.id),
        chunk.deep_view().usage == chunk.usage,
        chunk.deep_view().choices.len() == chunk.choices@.len(),
        forall|i: int|
            0 <= i < chunk.choices@.len() ==> #[trigger] chunk.deep_view().choices[i]
                == chunk.choices@[i].deep_view(),
{
}

/// The model of a choice holds its texts, and what it adds to tool calls one by one.
pub proof fn law_choice_view(choice: ChatChoice)
    ensures
        same_text(choice.deep_view().content, choice.delta.content),
        same_text(choice.deep_view().reasoning_content, choice.delta.reasoning_content),
        choice.delta.tool_calls is Some <==> choice.deep_view().tool_calls is Some,
        choice.delta.tool_calls matches Some(calls) ==> choice.deep_view().tool_calls->0.len()
            == calls@.len() && forall|i: int|
            0 <= i < calls@.len() ==> #[trigger] choice.deep_view().tool_calls->0[i]
                == calls@[i].deep_view(),
{
}

/// The model of what is added to a tool call, and that of the call itself, hold all their fields.
pub proof fn law_call_part_views(
    delta: ChatToolCallDelta,
    function: ChatFunctionDelta,
    call: ToolCallAccumulator,
)
    ensures
        delta.deep_view().index == delta.index,
        same_text(delta.deep_view().id, delta.id),
        delta.function is Some <==> delta.deep_view().function is Some,
        delta.function matches Some(f) ==> delta.deep_view().function->0 == f.deep_view(),
        same_text(function.deep_view().name, function.name),
        same_text(function.deep_view().arguments, function.arguments),
        same_text(call.deep_view().id, call.id),
        same_text(call.deep_view().name, call.name),
        call.deep_view().arguments == call.arguments@,
{
}

} // verus!
