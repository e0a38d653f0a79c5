//! The chat completions stream: from chunks to the events of a response.
use crate::ordered::{ascending_keys, lemma_next_key, lists};
use crate::protocol::{
    stream_model, ContentItem, ContentModel, ErrorModel, EventModel, ResponseEvent, ResponseItem,
    StreamItem, TokenUsage,
};
use crate::reasoning::{remember_reasoning_content_for_tool_call, ReasoningStore};
use crate::sse::chat_events::{
    CallModel, ChatChoice, ChatCompletionChunk, ChatToolCallDelta, ChatUsage, ToolCallAccumulator,
};
use crate::sse::chat_model::{
    call_at, call_done, calls_done, chat_after_input, chat_completion, chat_finished,
    chat_token_usage, choice_reasoning, choice_text, closing_message, complete_calls,
    extended_call, fresh_chat, items_of_choice, items_of_choices, items_of_chunk, message_added,
    message_item, remembered_for_all, state_after_choice, state_after_choices, state_after_chunk,
    with_delta, with_deltas, ChatModel, ChatStep,
};
use crate::sse::{no_items, stream_error, value_or_zero, SseInput, Step};
use crate::text::{str_eq, str_trim};
use std::collections::BTreeMap;
use vstd::prelude::*;

verus! {

/// The state of a chat completions stream.
pub struct ChatStream {
    message_started: bool,
    message_text: String,
    reasoning_content: String,
    tool_calls: BTreeMap<usize, ToolCallAccumulator>,
    response_id: String,
    usage: Option<TokenUsage>,
}

/// The model of tool calls.
spec fn calls_model(calls: Map<usize, ToolCallAccumulator>) -> Map<usize, CallModel> {
    calls.map_values(|call: ToolCallAccumulator| call.deep_view())
}

impl DeepView for ChatStream {
    type V = ChatModel;

    closed spec fn deep_view(&self) -> ChatModel {
        ChatModel {
            message_started: self.message_started,
            message_text: self.message_text@,
            reasoning_content: self.reasoning_content@,
            tool_calls: calls_model(self.tool_calls@),
            response_id: self.response_id@,
            usage: self.usage,
        }
    }
}

/// The token usage that a report comes to.
fn usage_of(usage: ChatUsage) -> (tokens: TokenUsage)
    ensures
        tokens == chat_token_usage(usage),
{
    TokenUsage {
        input_tokens: value_or_zero(usage.prompt_tokens),
        cached_input_tokens: 0,
        output_tokens: value_or_zero(usage.completion_tokens),
        reasoning_output_tokens: 0,
        total_tokens: value_or_zero(usage.total_tokens),
    }
}

/// `call` with `delta` taken in.
fn extend_call(call: ToolCallAccumulator, delta: ChatToolCallDelta) -> (longer: ToolCallAccumulator)
    ensures
        longer.deep_view() == extended_call(call.deep_view(), delta.deep_view()),
{
    let mut call = call;
    if let Some(id) = delta.id {
        call.id = Some(id);
    }
    if let Some(function) = delta.function {
        if let Some(name) = function.name {
            call.name = Some(name);
        }
        if let Some(arguments) = function.arguments {
            call.arguments.append(arguments.as_str());
        }
    }
    call
}

/// The event that closes the message.
fn finish_message(text: String) -> (event: ResponseEvent)
    ensures
        event.deep_view() == EventModel::OutputItemDone(message_item(text@)),
{
    let mut content: Vec<ContentItem> = Vec::new();
    content.push(ContentItem::OutputText { text });
    assert(content.deep_view() =~= seq![ContentModel::OutputText { text: text@ }]);
    ResponseEvent::OutputItemDone(
        ResponseItem::Message { id: None, role: "assistant".to_string(), content, phase: None },
    )
}

/// The event that announces the message.
fn start_message() -> (event: ResponseEvent)
    ensures
        Ok::<EventModel, ErrorModel>(event.deep_view()) == message_added(),
{
    let content: Vec<ContentItem> = Vec::new();
    assert(content.deep_view() =~= Seq::empty());
    ResponseEvent::OutputItemAdded(
        ResponseItem::Message { id: None, role: "assistant".to_string(), content, phase: None },
    )
}

impl ChatStream {
    /// A stream of which nothing has come in yet.
    pub fn new() -> (stream: Self)
        ensures
            stream.deep_view() == fresh_chat(),
    {
        let stream = ChatStream {
            message_started: false,
            message_text: String::new(),
            reasoning_content: String::new(),
            tool_calls: BTreeMap::new(),
            response_id: String::new(),
            usage: None,
        };
        assert(calls_model(stream.tool_calls@) =~= Map::empty());
        stream
    }

    /// Takes the call at `index` out, or a fresh one.
    fn take_call(&mut self, index: usize) -> (call: ToolCallAccumulator)
        ensures
            call.deep_view() == call_at(old(self).deep_view().tool_calls, index),
            final(self).deep_view() == (ChatModel {
                tool_calls: old(self).deep_view().tool_calls.remove(index),
                ..old(self).deep_view()
            }),
    {
        broadcast use {vstd::std_specs::btree::group_btree_axioms, vstd::laws_cmp::group_laws_cmp};

        let ghost before = self.tool_calls@;
        let taken = self.tool_calls.remove(&index);
        assert(calls_model(self.tool_calls@) =~= calls_model(before).remove(index));
        match taken {
            Some(call) => call,
            None => ToolCallAccumulator { id: None, name: None, arguments: String::new() },
        }
    }

    /// Takes in what a chunk adds to one tool call.
    fn take_delta(&mut self, delta: ChatToolCallDelta)
        ensures
            final(self).deep_view() == (ChatModel {
                tool_calls: with_delta(old(self).deep_view().tool_calls, delta.deep_view()),
                ..old(self).deep_view()
            }),
    {
        broadcast use {vstd::std_specs::btree::group_btree_axioms, vstd::laws_cmp::group_laws_cmp};

        let ghost start = self.deep_view().tool_calls;
        let index = delta.index;
        let ghost model = delta.deep_view();
        let call = self.take_call(index);
        let call = extend_call(call, delta);
        let ghost longer = call.deep_view();
        self.tool_calls.insert(index, call);
        assert(calls_model(self.tool_calls@) =~= start.remove(index).insert(index, longer));
        assert(calls_model(self.tool_calls@) =~= with_delta(start, model));
    }

    /// Takes in what a chunk adds to tool calls.
    fn take_deltas(&mut self, deltas: Vec<ChatToolCallDelta>)
        ensures
            final(self).deep_view() == (ChatModel {
                tool_calls: with_deltas(old(self).deep_view().tool_calls, deltas.deep_view()),
                ..old(self).deep_view()
            }),
    {
        let ghost start = self.deep_view();
        let ghost all = deltas.deep_view();
        assert(all.take(0) =~= Seq::empty());
        for delta in it: deltas.into_iter()
            invariant
                it.seq() == deltas@,
                all == deltas.deep_view(),
                self.deep_view() == (ChatModel {
                    tool_calls: with_deltas(start.tool_calls, all.take(it.index())),
                    ..start
                }),
        {
            proof {
                assert(all.take(it.index() + 1).drop_last() =~= all.take(it.index()));
            }
            self.take_delta(delta);
        }
        assert(all.take(all.len() as int) =~= all);
    }

    /// Takes a choice in, handing on what there is of it.
    fn take_choice(&mut self, choice: ChatChoice, items: &mut Vec<StreamItem>)
        ensures
            final(self).deep_view() == state_after_choice(
                old(self).deep_view(),
                choice.deep_view(),
            ),
            stream_model(final(items)@) == stream_model(old(items)@) + items_of_choice(
                old(self).deep_view(),
                choice.deep_view(),
            ),
    {
        let ghost before = stream_model(items@);
        let ghost start = self.deep_view();
        let ghost model = choice.deep_view();
        if let Some(reasoning) = choice.delta.reasoning_content {
            self.reasoning_content.append(reasoning.as_str());
        } else {
            assert(start.reasoning_content + choice_reasoning(model) =~= start.reasoning_content);
        }
        if let Some(content) = choice.delta.content {
            if !content.as_str().is_empty() {
                if !self.message_started {
                    self.message_started = true;
                    items.push(Ok(start_message()));
                }
                self.message_text.append(content.as_str());
                items.push(Ok(ResponseEvent::OutputTextDelta(content)));
            }
        }
        assert(self.message_text@ =~= start.message_text + choice_text(model));
        assert(stream_model(items@) =~= before + items_of_choice(start, model));
        if let Some(deltas) = choice.delta.tool_calls {
            self.take_deltas(deltas);
        }
    }

    /// Takes a chunk in, giving what is handed on of it.
    fn take_chunk(&mut self, chunk: ChatCompletionChunk) -> (items: Vec<StreamItem>)
        ensures
            final(self).deep_view() == state_after_chunk(old(self).deep_view(), chunk.deep_view()),
            stream_model(items@) == items_of_chunk(old(self).deep_view(), chunk.deep_view()),
    {
        let ghost model = chunk.deep_view();
        if let Some(id) = chunk.id {
            self.response_id = id;
        }
        if let Some(usage) = chunk.usage {
            self.usage = Some(usage_of(usage));
        }
        let ghost head = self.deep_view();
        let choices = chunk.choices;
        let ghost all = choices.deep_view();
        let mut items = no_items();
        assert(all.take(0) =~= Seq::empty());
        for choice in it: choices.into_iter()
            invariant
                it.seq() == choices@,
                all == choices.deep_view(),
                self.deep_view() == state_after_choices(head, all.take(it.index())),
                stream_model(items@) == items_of_choices(head, all.take(it.index())),
        {
            proof {
                assert(all.take(it.index() + 1).drop_last() =~= all.take(it.index()));
            }
            self.take_choice(choice, &mut items);
        }
        assert(all.take(all.len() as int) =~= all);
        items
    }

    /// Closes the message, hands the complete calls on, remembers the reasoning behind each of
    /// them in `store`, and completes the response.
    fn finish(&mut self, store: &mut ReasoningStore) -> (items: Vec<StreamItem>)
        ensures
            chat_finished(old(self).deep_view(), old(store)@) == (ChatStep {
                state: final(self).deep_view(),
                store: final(store)@,
                items: stream_model(items@),
                done: true,
            }),
    {
        let ghost start = self.deep_view();
        let ghost known = store@;
        let mut items = no_items();
        let mut text = String::new();
        std::mem::swap(&mut text, &mut self.message_text);
        if self.message_started {
            self.message_started = false;
            items.push(Ok(finish_message(text)));
        }
        assert(stream_model(items@) =~= closing_message(start));
        assert(self.deep_view().tool_calls == start.tool_calls);

        let keys = ascending_keys(&self.tool_calls);
        assert(self.tool_calls@.dom() =~= start.tool_calls.dom());
        let mut i: usize = 0;
        while i < keys.len()
            invariant
                i <= keys.len(),
                lists(keys@, start.tool_calls.dom()),
                forall|k: usize| #[trigger]
                    self.deep_view().tool_calls.contains_key(k) <==> start.tool_calls.contains_key(
                        k,
                    ) && !keys@.take(i as int).contains(k),
                forall|k: usize| #[trigger]
                    self.deep_view().tool_calls.contains_key(k) ==> self.deep_view().tool_calls[k]
                        == start.tool_calls[k],
                self.deep_view() == (ChatModel {
                    message_started: false,
                    message_text: Seq::empty(),
                    tool_calls: self.deep_view().tool_calls,
                    ..start
                }),
                store@ == remembered_for_all(
                    known,
                    complete_calls(start.tool_calls, keys@.take(i as int)),
                    start.reasoning_content,
                ),
                stream_model(items@) == closing_message(start) + calls_done(
                    complete_calls(start.tool_calls, keys@.take(i as int)),
                ),
            decreases keys.len() - i,
        {
            let ghost done = keys@.take(i as int);
            let ghost next = keys@.take(i + 1);
            let ghost passed = stream_model(items@);
            let ghost before = complete_calls(start.tool_calls, done);
            let ghost model = start.tool_calls[keys@[i as int]];
            proof {
                lemma_next_key(keys@, start.tool_calls.dom(), i as int);
                assert(next.drop_last() =~= done);
                assert(start.tool_calls.contains_key(keys@[i as int]));
                assert(self.deep_view().tool_calls.contains_key(keys@[i as int]));
            }
            let call = self.take_call(keys[i]);
            assert(call.deep_view() == model);
            if let (Some(call_id), Some(name)) = (call.id, call.name) {
                proof {
                    assert(complete_calls(start.tool_calls, next) == before.push(model));
                    assert(before.push(model).drop_last() =~= before);
                }
                remember_reasoning_content_for_tool_call(
                    store,
                    call_id.as_str(),
                    self.reasoning_content.as_str(),
                );
                let item = ResponseItem::FunctionCall {
                    id: None,
                    name,
                    namespace: None,
                    arguments: call.arguments,
                    call_id,
                };
                items.push(Ok(ResponseEvent::OutputItemDone(item)));
                assert(stream_model(items@) =~= passed.push(call_done(model)));
                assert(calls_done(before.push(model)) =~= calls_done(before).push(
                    call_done(model),
                ));
                assert(stream_model(items@) =~= closing_message(start) + calls_done(
                    before.push(model),
                ));
            }
            i += 1;
        }
        proof {
            assert(keys@.take(keys.len() as int) =~= keys@);
            assert forall|k: usize| !self.deep_view().tool_calls.contains_key(k) by {
                if start.tool_calls.contains_key(k) {
                    assert(start.tool_calls.dom().contains(k));
                    assert(keys@.to_set().contains(k));
                }
            }
            assert(self.deep_view().tool_calls =~= Map::empty());
        }
        let ghost closed = stream_model(items@);
        if self.response_id.as_str().is_empty() {
            self.response_id = "chatcmpl-codex".to_string();
        }
        let completed = ResponseEvent::Completed {
            response_id: self.response_id.clone(),
            token_usage: self.usage,
            end_turn: Some(true),
        };
        items.push(Ok(completed));
        assert(stream_model(items@) =~= closed.push(chat_completion(start)));
        items
    }

    /// Takes the next input: the items to hand on, in order, and whether the stream is over. The
    /// reasoning behind finished tool calls goes into `store`.
    pub fn step(
        &mut self,
        input: SseInput<ChatCompletionChunk>,
        store: &mut ReasoningStore,
    ) -> (step: Step)
        ensures
            chat_after_input(old(self).deep_view(), old(store)@, input.deep_view()) == (ChatStep {
                state: final(self).deep_view(),
                store: final(store)@,
                items: step.items_model(),
                done: step.done,
            }),
    {
        match input {
            SseInput::Event { data, decoded } => {
                let payload = str_trim(data.as_str());
                if str_eq(payload, "[DONE]") {
                    return Step { items: self.finish(store), done: true };
                }
                match decoded {
                    Ok(chunk) => Step { items: self.take_chunk(chunk), done: false },
                    Err(error) => {
                        let mut message = "failed to parse chat completions chunk: ".to_string();
                        message.append(error.as_str());
                        message.append(": ");
                        message.append(payload);
                        Step { items: stream_error(message), done: true }
                    },
                }
            },
            SseInput::TransportError(error) => {
                let mut message = "chat completions SSE error: ".to_string();
                message.append(error.as_str());
                Step { items: stream_error(message), done: true }
            },
            SseInput::End => Step { items: self.finish(store), done: true },
            SseInput::IdleTimeout => Step {
                items: stream_error("chat completions stream idle timeout".to_string()),
                done: true,
            },
        }
    }
}

} // verus!
