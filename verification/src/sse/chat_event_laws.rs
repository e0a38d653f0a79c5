//! What a chat completions stream makes of each field of its chunks.
use crate::ordered::{ascending, lemma_ascending_lists};
use crate::protocol::{
    ContentModel, ErrorModel, EventModel, ItemModel, StreamItemModel, TokenUsage,
};
use crate::sse::anthropic_event_laws::{added, assistant_message, done, or_zero};
use crate::sse::chat_events::{CallDeltaModel, CallModel, ChatUsage, ChoiceModel, ChunkModel};
use crate::sse::chat_laws::law_reasoning_is_recalled;
use crate::sse::chat_model::{
    after_chunk_head, chat_after_input, chat_completes, chat_finished, chat_run, complete_calls,
    finished_calls, fresh_chat, items_of_choice, items_of_choices, state_after_choice,
    state_after_choices, with_deltas, ChatModel, ChatStep,
};
use crate::sse::tally::{lemma_streamed_text_concat, streamed_text};
use crate::sse::SseModel;
use crate::text::{is_blank, trimmed};
use vstd::prelude::*;

verus! {

/// Holds of a choice that has text.
pub open spec fn has_text(choice: ChoiceModel) -> bool {
    choice.content matches Some(text) && text.len() > 0
}

/// The text of a choice is handed on exactly as it is, as one delta, and goes to the end of the
/// message. The first text of a response is preceded by the announcement of the message. A choice
/// without text, or with an empty one, hands nothing on and leaves the message as it is.
pub proof fn law_choice_text(s: ChatModel, choice: ChoiceModel)
    ensures
        has_text(choice) ==> {
            &&& state_after_choice(s, choice).message_text == s.message_text + choice.content->0
            &&& state_after_choice(s, choice).message_started
            &&& s.message_started ==> items_of_choice(s, choice) == seq![
                Ok::<EventModel, ErrorModel>(EventModel::OutputTextDelta(choice.content->0)),
            ]
            &&& !s.message_started ==> items_of_choice(s, choice) == seq![
                added(assistant_message(Seq::empty())),
                Ok::<EventModel, ErrorModel>(EventModel::OutputTextDelta(choice.content->0)),
            ]
        },
        !has_text(choice) ==> {
            &&& state_after_choice(s, choice).message_text == s.message_text
            &&& state_after_choice(s, choice).message_started == s.message_started
            &&& items_of_choice(s, choice) == Seq::<StreamItemModel>::empty()
        },
{
    if has_text(choice) && !s.message_started {
        assert(items_of_choice(s, choice) =~= seq![
            added(assistant_message(Seq::empty())),
            Ok::<EventModel, ErrorModel>(EventModel::OutputTextDelta(choice.content->0)),
        ]);
    }
    if !has_text(choice) {
        assert(state_after_choice(s, choice).message_text =~= s.message_text);
    }
}

/// The reasoning of a choice goes to the end of the reasoning, exactly as it is, and is not handed
/// on. A choice changes neither the id of the response nor the counts.
pub proof fn law_choice_reasoning(s: ChatModel, choice: ChoiceModel)
    ensures
        choice.reasoning_content matches Some(text) ==> state_after_choice(
            s,
            choice,
        ).reasoning_content == s.reasoning_content + text,
        choice.reasoning_content is None ==> state_after_choice(s, choice).reasoning_content
            == s.reasoning_content,
        state_after_choice(s, choice).response_id == s.response_id,
        state_after_choice(s, choice).usage == s.usage,
{
    if choice.reasoning_content is None {
        assert(state_after_choice(s, choice).reasoning_content =~= s.reasoning_content);
    }
}

/// What a choice adds to tool calls is taken in one after the other: the call at the index of a delta
/// gets its id and its name, where the delta has them, and its arguments go to the end of those that
/// the call has. A call of which nothing was known starts empty. No other call changes.
pub proof fn law_choice_calls(
    s: ChatModel,
    choice: ChoiceModel,
    calls: Map<usize, CallModel>,
    deltas: Seq<CallDeltaModel>,
    delta: CallDeltaModel,
)
    ensures
        choice.tool_calls is None ==> state_after_choice(s, choice).tool_calls == s.tool_calls,
        choice.tool_calls == Some(deltas) ==> state_after_choice(s, choice).tool_calls
            == with_deltas(s.tool_calls, deltas),
        with_deltas(calls, Seq::empty()) == calls,
        ({
            let before = with_deltas(calls, deltas);
            let after = with_deltas(calls, deltas.push(delta));
            let known = before.contains_key(delta.index);
            let call = before[delta.index];
            let new = after[delta.index];
            &&& after.contains_key(delta.index)
            &&& delta.id is Some ==> new.id == delta.id
            &&& delta.id is None ==> new.id == (if known {
                call.id
            } else {
                None
            })
            &&& delta.function is Some && delta.function->0.name is Some ==> new.name
                == delta.function->0.name
            &&& delta.function is None || delta.function->0.name is None ==> new.name == (if known {
                call.name
            } else {
                None
            })
            &&& delta.function is Some && delta.function->0.arguments is Some ==> new.arguments == (
            if known {
                call.arguments
            } else {
                Seq::empty()
            }) + delta.function->0.arguments->0
            &&& delta.function is None || delta.function->0.arguments is None ==> new.arguments == (
            if known {
                call.arguments
            } else {
                Seq::empty()
            })
            &&& forall|other: usize|
                other != delta.index ==> #[trigger] after.contains_key(other)
                    == before.contains_key(other) && after[other] == before[other]
        }),
{
    assert(deltas.push(delta).drop_last() =~= deltas);
}

/// The choices of a chunk are taken one after the other, and what is handed on of them adds up.
pub proof fn law_choices(s: ChatModel, choices: Seq<ChoiceModel>, choice: ChoiceModel)
    ensures
        state_after_choices(s, Seq::empty()) == s,
        items_of_choices(s, Seq::empty()).len() == 0,
        ({
            let before = state_after_choices(s, choices);
            &&& state_after_choices(s, choices.push(choice)) == state_after_choice(before, choice)
            &&& items_of_choices(s, choices.push(choice)) == items_of_choices(s, choices)
                + items_of_choice(before, choice)
        }),
{
    assert(choices.push(choice).drop_last() =~= choices);
}

/// A chunk gives the response its id, where it has one, and its counts in the place of those before,
/// where it reports any. The rest of what it does is what its choices do.
pub proof fn law_chunk(
    s: ChatModel,
    store: Map<Seq<char>, Seq<char>>,
    data: Seq<char>,
    chunk: ChunkModel,
)
    requires
        trimmed(data) != "[DONE]"@,
    ensures
        ({
            let head = after_chunk_head(s, chunk);
            let step = chat_after_input(s, store, SseModel::Event { data, decoded: Ok(chunk) });
            &&& !step.done
            &&& step.store == store
            &&& step.state == state_after_choices(head, chunk.choices)
            &&& step.items == items_of_choices(head, chunk.choices)
            &&& head.response_id == (if chunk.id is Some {
                chunk.id->0
            } else {
                s.response_id
            })
            &&& chunk.usage is None ==> head.usage == s.usage
            &&& chunk.usage matches Some(usage) ==> head.usage matches Some(tokens)
                && tells_usage(usage, tokens)
            &&& head.message_started == s.message_started
            &&& head.message_text == s.message_text
            &&& head.reasoning_content == s.reasoning_content
            &&& head.tool_calls == s.tool_calls
        }),
{
}

/// Holds where `tokens` tells what a chunk reported: the prompt as input, the completion as output,
/// and the total as it was reported.
pub open spec fn tells_usage(usage: ChatUsage, tokens: TokenUsage) -> bool {
    &&& tokens.input_tokens == or_zero(usage.prompt_tokens)
    &&& tokens.cached_input_tokens == 0
    &&& tokens.output_tokens == or_zero(usage.completion_tokens)
    &&& tokens.reasoning_output_tokens == 0
    &&& tokens.total_tokens == or_zero(usage.total_tokens)
}

/// The texts of choices, one after the other, as they are.
pub open spec fn contents(choices: Seq<ChoiceModel>) -> Seq<char>
    decreases choices.len(),
{
    if choices.len() == 0 {
        Seq::empty()
    } else {
        contents(choices.drop_last()) + match choices.last().content {
            Some(text) => text,
            None => Seq::empty(),
        }
    }
}

/// The reasoning of choices, one after the other, as it is.
pub open spec fn reasonings(choices: Seq<ChoiceModel>) -> Seq<char>
    decreases choices.len(),
{
    if choices.len() == 0 {
        Seq::empty()
    } else {
        reasonings(choices.drop_last()) + match choices.last().reasoning_content {
            Some(text) => text,
            None => Seq::empty(),
        }
    }
}

/// All the choices of chunks, in order.
pub open spec fn all_choices(inputs: Seq<SseModel<ChunkModel>>) -> Seq<ChoiceModel>
    decreases inputs.len(),
{
    if inputs.len() == 0 {
        Seq::empty()
    } else {
        all_choices(inputs.drop_last()) + match inputs.last() {
            SseModel::Event { decoded: Ok(chunk), .. } => chunk.choices,
            _ => Seq::empty(),
        }
    }
}

/// Holds of an input that is a chunk.
pub open spec fn is_chunk(input: SseModel<ChunkModel>) -> bool {
    input matches SseModel::Event { data, decoded: Ok(_) } && trimmed(data) != "[DONE]"@
}

proof fn lemma_choices_add_up(first: Seq<ChoiceModel>, second: Seq<ChoiceModel>)
    ensures
        contents(first + second) == contents(first) + contents(second),
        reasonings(first + second) == reasonings(first) + reasonings(second),
    decreases second.len(),
{
    if second.len() == 0 {
        assert(first + second =~= first);
        assert(contents(first) + contents(second) =~= contents(first));
        assert(reasonings(first) + reasonings(second) =~= reasonings(first));
    } else {
        lemma_choices_add_up(first, second.drop_last());
        assert((first + second).drop_last() =~= first + second.drop_last());
        assert(contents(first + second) =~= contents(first) + contents(second));
        assert(reasonings(first + second) =~= reasonings(first) + reasonings(second));
    }
}

proof fn lemma_choice_streams(s: ChatModel, choice: ChoiceModel)
    ensures
        streamed_text(items_of_choice(s, choice)) == match choice.content {
            Some(text) => text,
            None => Seq::empty(),
        },
{
    law_choice_text(s, choice);
    reveal_with_fuel(streamed_text, 3);
    let items = items_of_choice(s, choice);
    if has_text(choice) {
        let delta = Ok::<EventModel, ErrorModel>(EventModel::OutputTextDelta(choice.content->0));
        assert(seq![delta].drop_last() =~= Seq::empty());
        let first = added(assistant_message(Seq::empty()));
        assert(seq![first, delta].drop_last() =~= seq![first]);
        assert(seq![first].drop_last() =~= Seq::empty());
        assert(streamed_text(items) =~= choice.content->0);
    } else {
        assert(streamed_text(items) =~= Seq::empty());
        if choice.content is Some {
            assert(choice.content->0 =~= Seq::empty());
        }
    }
}

/// What choices stream and add to the message is their texts, one after the other, character for
/// character; and what they add to the reasoning is their reasoning.
pub proof fn law_choices_stream_their_texts(s: ChatModel, choices: Seq<ChoiceModel>)
    ensures
        streamed_text(items_of_choices(s, choices)) == contents(choices),
        state_after_choices(s, choices).message_text == s.message_text + contents(choices),
        state_after_choices(s, choices).reasoning_content == s.reasoning_content + reasonings(
            choices,
        ),
    decreases choices.len(),
{
    if choices.len() == 0 {
        assert(s.message_text + contents(choices) =~= s.message_text);
        assert(s.reasoning_content + reasonings(choices) =~= s.reasoning_content);
    } else {
        let front = choices.drop_last();
        law_choices_stream_their_texts(s, front);
        let before = state_after_choices(s, front);
        let last = choices.last();
        law_choice_text(before, last);
        law_choice_reasoning(before, last);
        lemma_choice_streams(before, last);
        lemma_streamed_text_concat(items_of_choices(s, front), items_of_choice(before, last));
        assert(state_after_choices(s, choices).message_text =~= s.message_text + contents(
            choices,
        ));
        assert(state_after_choices(s, choices).reasoning_content =~= s.reasoning_content
            + reasonings(choices));
    }
}

/// The text that a stream hands on is the text of all choices of all its chunks, in order, character
/// for character; its message holds that text, and its reasoning the reasoning of all of them.
pub proof fn law_stream_is_the_texts_of_its_chunks(
    store: Map<Seq<char>, Seq<char>>,
    inputs: Seq<SseModel<ChunkModel>>,
)
    requires
        forall|i: int| 0 <= i < inputs.len() ==> is_chunk(#[trigger] inputs[i]),
    ensures
        ({
            let step = chat_run(fresh_chat(), store, inputs);
            &&& !step.done
            &&& step.store == store
            &&& streamed_text(step.items) == contents(all_choices(inputs))
            &&& step.state.message_text == contents(all_choices(inputs))
            &&& step.state.message_started == (contents(all_choices(inputs)).len() > 0)
            &&& step.state.reasoning_content == reasonings(all_choices(inputs))
        }),
    decreases inputs.len(),
{
    if inputs.len() > 0 {
        let front = inputs.drop_last();
        assert forall|i: int| 0 <= i < front.len() implies is_chunk(#[trigger] front[i]) by {
            assert(front[i] == inputs[i]);
        }
        law_stream_is_the_texts_of_its_chunks(store, front);
        let before = chat_run(fresh_chat(), store, front);
        assert(is_chunk(inputs[inputs.len() - 1]));
        match inputs.last() {
            SseModel::Event { data, decoded: Ok(chunk) } => {
                let head = after_chunk_head(before.state, chunk);
                law_chunk(before.state, store, data, chunk);
                law_choices_stream_their_texts(head, chunk.choices);
                lemma_started(head, chunk.choices);
                lemma_choices_add_up(all_choices(front), chunk.choices);
                lemma_streamed_text_concat(
                    before.items,
                    items_of_choices(head, chunk.choices),
                );
            },
            _ => {},
        }
    }
}

proof fn lemma_started(s: ChatModel, choices: Seq<ChoiceModel>)
    ensures
        state_after_choices(s, choices).message_started == (s.message_started || contents(
            choices,
        ).len() > 0),
    decreases choices.len(),
{
    if choices.len() > 0 {
        lemma_started(s, choices.drop_last());
        law_choice_text(state_after_choices(s, choices.drop_last()), choices.last());
    }
}

/// The close of a tool call, with its id, its name and its arguments.
pub open spec fn done_call(call: CallModel) -> StreamItemModel {
    done(
        ItemModel::FunctionCall {
            id: None,
            name: call.name->0,
            namespace: None,
            arguments: call.arguments,
            call_id: call.id->0,
        },
    )
}

/// The calls that a stream hands on at its end are those that have an id and a name, the one at the
/// lower index first, each once and as it is. `indices` are the indices of these calls.
pub proof fn law_finished_calls(calls: Map<usize, CallModel>) -> (indices: Seq<usize>)
    requires
        calls.dom().finite(),
    ensures
        indices.len() == finished_calls(calls).len(),
        forall|i: int, j: int| 0 <= i < j < indices.len() ==> indices[i] < indices[j],
        forall|i: int|
            0 <= i < indices.len() ==> calls.contains_key(#[trigger] indices[i])
                && finished_calls(calls)[i] == calls[indices[i]],
        forall|x: usize| #[trigger]
            indices.contains(x) <==> calls.contains_key(x) && calls[x].id is Some
                && calls[x].name is Some,
{
    lemma_ascending_lists(calls.dom());
    let order = ascending(calls.dom());
    assert forall|i: int| 0 <= i < order.len() implies calls.contains_key(#[trigger] order[i]) by {
        assert(order.to_set().contains(order[i]));
    }
    let indices = lemma_complete_indices(calls, order);
    assert forall|x: usize| #[trigger]
        indices.contains(x) <==> calls.contains_key(x) && calls[x].id is Some
            && calls[x].name is Some by {
        assert(order.to_set().contains(x) <==> calls.dom().contains(x));
    }
    indices
}

proof fn lemma_complete_indices(calls: Map<usize, CallModel>, order: Seq<usize>) -> (indices: Seq<
    usize,
>)
    requires
        forall|i: int, j: int| 0 <= i < j < order.len() ==> order[i] < order[j],
        forall|i: int| 0 <= i < order.len() ==> calls.contains_key(#[trigger] order[i]),
    ensures
        indices.len() == complete_calls(calls, order).len(),
        forall|i: int, j: int| 0 <= i < j < indices.len() ==> indices[i] < indices[j],
        forall|i: int|
            0 <= i < indices.len() ==> order.contains(#[trigger] indices[i])
                && calls.contains_key(indices[i]) && complete_calls(calls, order)[i]
                == calls[indices[i]],
        forall|x: usize| #[trigger]
            indices.contains(x) <==> order.contains(x) && calls[x].id is Some
                && calls[x].name is Some,
    decreases order.len(),
{
    if order.len() == 0 {
        Seq::empty()
    } else {
        let front = order.drop_last();
        let last = order.last();
        assert forall|i: int| 0 <= i < front.len() implies calls.contains_key(
            #[trigger] front[i],
        ) by {
            assert(front[i] == order[i]);
        }
        let before = lemma_complete_indices(calls, front);
        assert forall|x: usize| #[trigger] order.contains(x) <==> front.contains(x) || x == last by {
            if front.contains(x) {
                let i = choose|i: int| 0 <= i < front.len() && front[i] == x;
                assert(order[i] == x);
            }
            if x == last {
                assert(order[order.len() - 1] == x);
            }
            if order.contains(x) && x != last {
                let i = choose|i: int| 0 <= i < order.len() && order[i] == x;
                assert(front[i] == x);
            }
        }
        assert(order.contains(last));
        assert(calls.contains_key(order[order.len() - 1]));
        if calls[last].id is Some && calls[last].name is Some {
            let indices = before.push(last);
            assert forall|i: int, j: int| 0 <= i < j < indices.len() implies indices[i]
                < indices[j] by {
                if j == before.len() {
                    assert(front.contains(before[i]));
                    let m = choose|m: int| 0 <= m < front.len() && front[m] == before[i];
                    assert(order[m] < order[order.len() - 1]);
                }
            }
            assert forall|x: usize| #[trigger]
                indices.contains(x) <==> before.contains(x) || x == last by {
                if before.contains(x) {
                    let i = choose|i: int| 0 <= i < before.len() && before[i] == x;
                    assert(indices[i] == x);
                }
                if x == last {
                    assert(indices[before.len() as int] == x);
                }
                if indices.contains(x) && x != last {
                    let i = choose|i: int| 0 <= i < indices.len() && indices[i] == x;
                    assert(before[i] == x);
                }
            }
            assert forall|i: int| 0 <= i < indices.len() implies order.contains(
                #[trigger] indices[i],
            ) && calls.contains_key(indices[i]) && complete_calls(calls, order)[i]
                == calls[indices[i]] by {
                if i < before.len() {
                    assert(before[i] == indices[i]);
                    assert(front.contains(before[i]));
                }
            }
            indices
        } else {
            assert forall|i: int| 0 <= i < before.len() implies order.contains(
                #[trigger] before[i],
            ) by {
                assert(front.contains(before[i]));
            }
            before
        }
    }
}

/// The end marker, and the end of the stream, close the message with all its text where it has any,
/// hand the finished calls on, and complete the response with its id and the counts. The reasoning is
/// remembered for each of these calls, unless it is blank, and for no other.
pub proof fn law_chat_end(
    s: ChatModel,
    store: Map<Seq<char>, Seq<char>>,
    input: SseModel<ChunkModel>,
)
    requires
        input is End || (input matches SseModel::Event { data, .. } && trimmed(data) == "[DONE]"@),
    ensures
        ({
            let step = chat_after_input(s, store, input);
            let calls = finished_calls(s.tool_calls);
            let m: int = if s.message_started {
                1
            } else {
                0
            };
            let n = calls.len() as int;
            &&& step.done
            &&& step.items.len() == m + n + 1
            &&& s.message_started ==> step.items[0] == done(
                assistant_message(seq![ContentModel::OutputText { text: s.message_text }]),
            )
            &&& forall|i: int| 0 <= i < n ==> step.items[m + i] == done_call(#[trigger] calls[i])
            &&& step.items[m + n] == Ok::<EventModel, ErrorModel>(
                EventModel::Completed {
                    response_id: if s.response_id.len() == 0 {
                        "chatcmpl-codex"@
                    } else {
                        s.response_id
                    },
                    token_usage: s.usage,
                    end_turn: Some(true),
                },
            )
            &&& is_blank(s.reasoning_content) ==> step.store == store
            &&& !is_blank(s.reasoning_content) ==> forall|i: int|
                0 <= i < n ==> step.store.contains_key((#[trigger] calls[i]).id->0)
                    && step.store[calls[i].id->0] == s.reasoning_content
            &&& forall|id: Seq<char>|
                (forall|i: int| 0 <= i < n ==> (#[trigger] calls[i]).id->0 != id)
                    ==> #[trigger] step.store.contains_key(id) == store.contains_key(id) && (
                store.contains_key(id) ==> step.store[id] == store[id])
        }),
{
    let step = chat_after_input(s, store, input);
    let calls = finished_calls(s.tool_calls);
    assert(step == chat_finished(s, store));
    law_reasoning_is_recalled(store, calls, s.reasoning_content);
    if !is_blank(s.reasoning_content) {
        assert forall|i: int| 0 <= i < calls.len() implies step.store.contains_key(
            (#[trigger] calls[i]).id->0,
        ) && step.store[calls[i].id->0] == s.reasoning_content by {
            assert(crate::reasoning::recalled(step.store, calls[i].id->0) == Some(
                s.reasoning_content,
            ));
        }
    }
    assert forall|id: Seq<char>|
        (forall|i: int| 0 <= i < calls.len() ==> (#[trigger] calls[i]).id->0 != id) implies
    #[trigger] step.store.contains_key(id) == store.contains_key(id) && (store.contains_key(id)
        ==> step.store[id] == store[id]) by {
        assert(crate::reasoning::recalled(step.store, id) == crate::reasoning::recalled(store, id));
    }
}

/// What a stream fails with, and when: data that could not be decoded gives the error and the data
/// without the white space round it, a broken stream gives its error. A failure changes nothing,
/// hands nothing else on, and ends the stream.
pub proof fn law_chat_failures(
    s: ChatModel,
    store: Map<Seq<char>, Seq<char>>,
    data: Seq<char>,
    error: Seq<char>,
)
    ensures
        trimmed(data) != "[DONE]"@ ==> chat_fails_with(
            chat_after_input(s, store, SseModel::Event { data, decoded: Err(error) }),
            s,
            store,
            "failed to parse chat completions chunk: "@ + error + ": "@ + trimmed(data),
        ),
        chat_fails_with(
            chat_after_input(s, store, SseModel::TransportError(error)),
            s,
            store,
            "chat completions SSE error: "@ + error,
        ),
        chat_fails_with(
            chat_after_input(s, store, SseModel::IdleTimeout),
            s,
            store,
            "chat completions stream idle timeout"@,
        ),
{
}

/// Holds of a step that ends the stream with an error and does nothing else.
pub open spec fn chat_fails_with(
    step: ChatStep,
    s: ChatModel,
    store: Map<Seq<char>, Seq<char>>,
    message: Seq<char>,
) -> bool {
    &&& step.done
    &&& step.state == s
    &&& step.store == store
    &&& step.items == seq![Err::<EventModel, ErrorModel>(ErrorModel::Stream(message))]
}

/// A run takes its inputs one after the other: each from the state and the store that those before it
/// led to, as long as none of them ended the stream, and what is handed on adds up. A stream starts
/// with nothing.
pub proof fn law_chat_run(
    s: ChatModel,
    store: Map<Seq<char>, Seq<char>>,
    inputs: Seq<SseModel<ChunkModel>>,
    input: SseModel<ChunkModel>,
)
    ensures
        chat_run(s, store, inputs).done ==> chat_run(s, store, inputs.push(input)) == chat_run(
            s,
            store,
            inputs,
        ),
        !chat_run(s, store, inputs).done ==> {
            let before = chat_run(s, store, inputs);
            let last = chat_after_input(before.state, before.store, input);
            let all = chat_run(s, store, inputs.push(input));
            all.state == last.state && all.store == last.store && all.done == last.done && all.items
                == before.items + last.items
        },
        chat_run(s, store, Seq::empty()).state == s,
        chat_run(s, store, Seq::empty()).items.len() == 0,
        !fresh_chat().message_started && fresh_chat().message_text.len() == 0,
        fresh_chat().reasoning_content.len() == 0 && fresh_chat().response_id.len() == 0,
        fresh_chat().tool_calls == Map::<usize, CallModel>::empty() && fresh_chat().usage is None,
        chat_completes(input) <==> input is End || (input matches SseModel::Event { data, .. }
            && trimmed(data) == "[DONE]"@),
{
    assert(inputs.push(input).drop_last() =~= inputs);
}

} // verus!
