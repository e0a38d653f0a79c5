//! What a chat completions stream makes of its chunks.
use crate::ordered::ascending;
use crate::protocol::{
    ContentModel, ErrorModel, EventModel, ItemModel, StreamItemModel, TokenUsage,
};
use crate::reasoning::remembered;
use crate::sse::chat_events::{CallDeltaModel, CallModel, ChatUsage, ChoiceModel, ChunkModel};
use crate::sse::{count, SseModel};
use crate::text::trimmed;
use vstd::prelude::*;

verus! {

/// The model of a [`ChatStream`](crate::sse::chat_completions::ChatStream).
pub struct ChatModel {
    /// Whether the message was announced.
    pub message_started: bool,
    /// The text of the message so far.
    pub message_text: Seq<char>,
    /// The reasoning so far.
    pub reasoning_content: Seq<char>,
    /// The tool calls so far, by their index.
    pub tool_calls: Map<usize, CallModel>,
    /// The id of the response, empty until one was reported.
    pub response_id: Seq<char>,
    /// The counts, once any were reported.
    pub usage: Option<TokenUsage>,
}

/// What one step of a stream comes to. A stream remembers reasoning in a store.
pub struct ChatStep {
    pub state: ChatModel,
    pub store: Map<Seq<char>, Seq<char>>,
    pub items: Seq<StreamItemModel>,
    pub done: bool,
}

/// A stream of which nothing has come in yet.
pub open spec fn fresh_chat() -> ChatModel {
    ChatModel {
        message_started: false,
        message_text: Seq::empty(),
        reasoning_content: Seq::empty(),
        tool_calls: Map::empty(),
        response_id: Seq::empty(),
        usage: None,
    }
}

/// The token usage that a report comes to.
pub open spec fn chat_token_usage(usage: ChatUsage) -> TokenUsage {
    TokenUsage {
        input_tokens: count(usage.prompt_tokens),
        cached_input_tokens: 0,
        output_tokens: count(usage.completion_tokens),
        reasoning_output_tokens: 0,
        total_tokens: count(usage.total_tokens),
    }
}

/// A call of which nothing has come in yet.
pub open spec fn fresh_call() -> CallModel {
    CallModel { id: None, name: None, arguments: Seq::empty() }
}

/// A call after a delta: the latest id and name count, arguments add up.
pub open spec fn extended_call(call: CallModel, delta: CallDeltaModel) -> CallModel {
    CallModel {
        id: match delta.id {
            Some(id) => Some(id),
            None => call.id,
        },
        name: match delta.function {
            Some(function) => match function.name {
                Some(name) => Some(name),
                None => call.name,
            },
            None => call.name,
        },
        arguments: match delta.function {
            Some(function) => match function.arguments {
                Some(arguments) => call.arguments + arguments,
                None => call.arguments,
            },
            None => call.arguments,
        },
    }
}

/// The call at `index`, or a fresh one.
pub open spec fn call_at(calls: Map<usize, CallModel>, index: usize) -> CallModel {
    if calls.contains_key(index) {
        calls[index]
    } else {
        fresh_call()
    }
}

/// The calls after a delta to one of them.
pub open spec fn with_delta(calls: Map<usize, CallModel>, delta: CallDeltaModel) -> Map<
    usize,
    CallModel,
> {
    calls.insert(delta.index, extended_call(call_at(calls, delta.index), delta))
}

/// The calls after deltas, one after the other.
pub open spec fn with_deltas(calls: Map<usize, CallModel>, deltas: Seq<CallDeltaModel>) -> Map<
    usize,
    CallModel,
>
    decreases deltas.len(),
{
    if deltas.len() == 0 {
        calls
    } else {
        with_delta(with_deltas(calls, deltas.drop_last()), deltas.last())
    }
}

/// The event that announces the message.
pub open spec fn message_added() -> StreamItemModel {
    Ok(
        EventModel::OutputItemAdded(
            ItemModel::Message {
                id: None,
                role: "assistant"@,
                content: Seq::empty(),
                phase: None,
            },
        ),
    )
}

/// The text that a choice adds to the message, if it adds any.
pub open spec fn choice_text(choice: ChoiceModel) -> Seq<char> {
    match choice.content {
        Some(content) => content,
        None => Seq::empty(),
    }
}

/// The reasoning that a choice adds.
pub open spec fn choice_reasoning(choice: ChoiceModel) -> Seq<char> {
    match choice.reasoning_content {
        Some(reasoning) => reasoning,
        None => Seq::empty(),
    }
}

/// The deltas that a choice holds for tool calls.
pub open spec fn choice_deltas(choice: ChoiceModel) -> Seq<CallDeltaModel> {
    match choice.tool_calls {
        Some(deltas) => deltas,
        None => Seq::empty(),
    }
}

/// The state after a choice.
pub open spec fn state_after_choice(s: ChatModel, choice: ChoiceModel) -> ChatModel {
    ChatModel {
        message_started: s.message_started || choice_text(choice).len() > 0,
        message_text: s.message_text + choice_text(choice),
        reasoning_content: s.reasoning_content + choice_reasoning(choice),
        tool_calls: with_deltas(s.tool_calls, choice_deltas(choice)),
        ..s
    }
}

/// What is handed on of a choice: its text as it comes in, behind the announcement of the message
/// where it is the first text.
pub open spec fn items_of_choice(s: ChatModel, choice: ChoiceModel) -> Seq<StreamItemModel> {
    let delta = seq![Ok::<EventModel, ErrorModel>(EventModel::OutputTextDelta(choice_text(choice)))];
    if choice_text(choice).len() == 0 {
        Seq::empty()
    } else if s.message_started {
        delta
    } else {
        seq![message_added()] + delta
    }
}

/// The state after choices, one after the other.
pub open spec fn state_after_choices(s: ChatModel, choices: Seq<ChoiceModel>) -> ChatModel
    decreases choices.len(),
{
    if choices.len() == 0 {
        s
    } else {
        state_after_choice(state_after_choices(s, choices.drop_last()), choices.last())
    }
}

/// What is handed on of choices, one after the other.
pub open spec fn items_of_choices(s: ChatModel, choices: Seq<ChoiceModel>) -> Seq<StreamItemModel>
    decreases choices.len(),
{
    if choices.len() == 0 {
        Seq::empty()
    } else {
        items_of_choices(s, choices.drop_last()) + items_of_choice(
            state_after_choices(s, choices.drop_last()),
            choices.last(),
        )
    }
}

/// The state after the id and the counts of a chunk were taken.
pub open spec fn after_chunk_head(s: ChatModel, chunk: ChunkModel) -> ChatModel {
    ChatModel {
        response_id: match chunk.id {
            Some(id) => id,
            None => s.response_id,
        },
        usage: match chunk.usage {
            Some(usage) => Some(chat_token_usage(usage)),
            None => s.usage,
        },
        ..s
    }
}

/// The state after a chunk.
pub open spec fn state_after_chunk(s: ChatModel, chunk: ChunkModel) -> ChatModel {
    state_after_choices(after_chunk_head(s, chunk), chunk.choices)
}

/// What is handed on of a chunk.
pub open spec fn items_of_chunk(s: ChatModel, chunk: ChunkModel) -> Seq<StreamItemModel> {
    items_of_choices(after_chunk_head(s, chunk), chunk.choices)
}

/// The item of a finished message.
pub open spec fn message_item(text: Seq<char>) -> ItemModel {
    ItemModel::Message {
        id: None,
        role: "assistant"@,
        content: seq![ContentModel::OutputText { text }],
        phase: None,
    }
}

/// The items that close the message, where it was announced.
pub open spec fn closing_message(s: ChatModel) -> Seq<StreamItemModel> {
    if s.message_started {
        seq![Ok(EventModel::OutputItemDone(message_item(s.message_text)))]
    } else {
        Seq::empty()
    }
}

/// Holds of a call that has both an id and a name.
pub open spec fn is_complete(call: CallModel) -> bool {
    call.id is Some && call.name is Some
}

/// Those of the calls at `indices` that are complete, in that order.
pub open spec fn complete_calls(calls: Map<usize, CallModel>, indices: Seq<usize>) -> Seq<CallModel>
    decreases indices.len(),
{
    if indices.len() == 0 {
        Seq::empty()
    } else {
        let before = complete_calls(calls, indices.drop_last());
        if is_complete(calls[indices.last()]) {
            before.push(calls[indices.last()])
        } else {
            before
        }
    }
}

/// The complete calls in the order of their indices.
pub open spec fn finished_calls(calls: Map<usize, CallModel>) -> Seq<CallModel> {
    complete_calls(calls, ascending(calls.dom()))
}

/// The event that hands a complete call on.
pub open spec fn call_done(call: CallModel) -> StreamItemModel {
    Ok(
        EventModel::OutputItemDone(
            ItemModel::FunctionCall {
                id: None,
                name: call.name->0,
                namespace: None,
                arguments: call.arguments,
                call_id: call.id->0,
            },
        ),
    )
}

/// The events that hand complete calls on.
pub open spec fn calls_done(calls: Seq<CallModel>) -> Seq<StreamItemModel> {
    calls.map_values(|call: CallModel| call_done(call))
}

/// A store after it was told that `reasoning` led to each of the calls.
pub open spec fn remembered_for_all(
    store: Map<Seq<char>, Seq<char>>,
    calls: Seq<CallModel>,
    reasoning: Seq<char>,
) -> Map<Seq<char>, Seq<char>>
    decreases calls.len(),
{
    if calls.len() == 0 {
        store
    } else {
        remembered(
            remembered_for_all(store, calls.drop_last(), reasoning),
            calls.last().id->0,
            reasoning,
        )
    }
}

/// The id that a response goes by: the one that was reported, or a stand-in.
pub open spec fn final_chat_id(response_id: Seq<char>) -> Seq<char> {
    if response_id.len() == 0 {
        "chatcmpl-codex"@
    } else {
        response_id
    }
}

/// The event that completes a response.
pub open spec fn chat_completion(s: ChatModel) -> StreamItemModel {
    Ok(
        EventModel::Completed {
            response_id: final_chat_id(s.response_id),
            token_usage: s.usage,
            end_turn: Some(true),
        },
    )
}

/// The end of a stream: closes the message, hands the complete calls on, remembers the reasoning
/// behind each of them, and completes the response.
pub open spec fn chat_finished(s: ChatModel, store: Map<Seq<char>, Seq<char>>) -> ChatStep {
    let calls = finished_calls(s.tool_calls);
    ChatStep {
        state: ChatModel {
            message_started: false,
            message_text: Seq::empty(),
            tool_calls: Map::empty(),
            response_id: final_chat_id(s.response_id),
            ..s
        },
        store: remembered_for_all(store, calls, s.reasoning_content),
        items: (closing_message(s) + calls_done(calls)).push(chat_completion(s)),
        done: true,
    }
}

/// A step that ends the stream with an error.
pub open spec fn chat_failing(
    s: ChatModel,
    store: Map<Seq<char>, Seq<char>>,
    message: Seq<char>,
) -> ChatStep {
    ChatStep { state: s, store, items: seq![Err(ErrorModel::Stream(message))], done: true }
}

/// What a stream in state `s` makes of `input`.
pub open spec fn chat_after_input(
    s: ChatModel,
    store: Map<Seq<char>, Seq<char>>,
    input: SseModel<ChunkModel>,
) -> ChatStep {
    match input {
        SseModel::Event { data, decoded } => if trimmed(data) == "[DONE]"@ {
            chat_finished(s, store)
        } else {
            match decoded {
                Ok(chunk) => ChatStep {
                    state: state_after_chunk(s, chunk),
                    store,
                    items: items_of_chunk(s, chunk),
                    done: false,
                },
                Err(error) => chat_failing(
                    s,
                    store,
                    "failed to parse chat completions chunk: "@ + error + ": "@ + trimmed(data),
                ),
            }
        },
        SseModel::TransportError(error) => chat_failing(
            s,
            store,
            "chat completions SSE error: "@ + error,
        ),
        SseModel::End => chat_finished(s, store),
        SseModel::IdleTimeout => chat_failing(s, store, "chat completions stream idle timeout"@),
    }
}

/// What a stream in state `s` makes of inputs, one after the other, up to the one that ends it.
pub open spec fn chat_run(
    s: ChatModel,
    store: Map<Seq<char>, Seq<char>>,
    inputs: Seq<SseModel<ChunkModel>>,
) -> ChatStep
    decreases inputs.len(),
{
    if inputs.len() == 0 {
        ChatStep { state: s, store, items: Seq::empty(), done: false }
    } else {
        let before = chat_run(s, store, inputs.drop_last());
        if before.done {
            before
        } else {
            let last = chat_after_input(before.state, before.store, inputs.last());
            ChatStep { items: before.items + last.items, ..last }
        }
    }
}

/// Holds of an input on which a stream completes its response.
pub open spec fn chat_completes(input: SseModel<ChunkModel>) -> bool {
    match input {
        SseModel::Event { data, .. } => trimmed(data) == "[DONE]"@,
        SseModel::End => true,
        _ => false,
    }
}

} // verus!
