//! What holds of every chat completions stream.
use crate::ordered::{ascending, lemma_ascending_lists};
use crate::protocol::{ErrorModel, EventModel, StreamItemModel};
use crate::reasoning::recalled;
use crate::sse::SseModel;
use crate::sse::chat_events::{CallDeltaModel, CallModel, ChoiceModel, ChunkModel};
use crate::sse::chat_model::{
    after_chunk_head, call_at, call_done, calls_done, chat_after_input, chat_completes,
    chat_completion, chat_finished, chat_run, choice_text, closing_message, complete_calls,
    finished_calls, fresh_chat, is_complete, items_of_choice, items_of_choices, message_added,
    message_item, remembered_for_all, state_after_choice, state_after_choices, with_deltas,
    ChatModel,
};
use crate::sse::tally::{
    announces, closes_announced, ends_once, has_no_end, lemma_streamed_text_concat,
    lemma_tally_concat, lemma_tally_one, streamed_text, tally,
};
use crate::text::is_blank;
use vstd::prelude::*;

verus! {

/// What choices hand on ends no stream.
proof fn lemma_choices_have_no_end(s: ChatModel, choices: Seq<ChoiceModel>)
    ensures
        has_no_end(items_of_choices(s, choices)),
    decreases choices.len(),
{
    if choices.len() > 0 {
        lemma_choices_have_no_end(s, choices.drop_last());
    }
}

/// A step that is not the last hands on neither an error nor a completion. The last step hands on
/// an error alone, or completes the response at the very end.
pub proof fn law_chat_one_end(
    s: ChatModel,
    store: Map<Seq<char>, Seq<char>>,
    input: SseModel<ChunkModel>,
)
    ensures
        ({
            let step = chat_after_input(s, store, input);
            &&& !step.done ==> has_no_end(step.items)
            &&& step.done ==> ends_once(step.items)
            &&& step.done && step.items.last() is Err ==> step.items.len() == 1 && step.state == s
                && step.store == store
            &&& step.done && step.items.last() is Ok <==> chat_completes(input)
        }),
{
    if chat_completes(input) {
        let step = chat_finished(s, store);
        let front = closing_message(s) + calls_done(finished_calls(s.tool_calls));
        assert(step.items.drop_last() =~= front);
    } else {
        match input {
            SseModel::Event { decoded: Ok(chunk), .. } => {
                lemma_choices_have_no_end(after_chunk_head(s, chunk), chunk.choices);
            },
            _ => {},
        }
    }
}

/// However a stream runs, it hands on at most one end, and nothing behind it; and it has ended
/// exactly when it has handed one on.
pub proof fn law_chat_run_ends_once(
    s: ChatModel,
    store: Map<Seq<char>, Seq<char>>,
    inputs: Seq<SseModel<ChunkModel>>,
)
    ensures
        ({
            let step = chat_run(s, store, inputs);
            &&& !step.done ==> has_no_end(step.items)
            &&& step.done ==> ends_once(step.items)
        }),
    decreases inputs.len(),
{
    if inputs.len() > 0 {
        let before = chat_run(s, store, inputs.drop_last());
        law_chat_run_ends_once(s, store, inputs.drop_last());
        if !before.done {
            let last = chat_after_input(before.state, before.store, inputs.last());
            law_chat_one_end(before.state, before.store, inputs.last());
            let items = before.items + last.items;
            if last.done {
                assert(items.drop_last() =~= before.items + last.items.drop_last());
            }
        }
    }
}

/// The response that a stream completes always has an id, and the turn always ends.
pub proof fn law_chat_completion_has_an_id(s: ChatModel)
    ensures
        chat_completion(s) matches Ok(EventModel::Completed { response_id, end_turn, .. })
            && response_id.len() > 0 && end_turn == Some(true),
        s.response_id.len() > 0 ==> chat_completion(s)->Ok_0->response_id == s.response_id,
{
    reveal_strlit("chatcmpl-codex");
}

/// Holds of a state and of what was handed on up to it: the message holds the text that was
/// streamed, it was announced once if there is any, and it is still open.
pub open spec fn accords(s: ChatModel, items: Seq<StreamItemModel>) -> bool {
    &&& s.message_text == streamed_text(items)
    &&& s.message_started == (s.message_text.len() > 0)
    &&& tally(items, announces()) == if s.message_started {
        1nat
    } else {
        0nat
    }
    &&& tally(items, closes_announced()) == 0
}

proof fn lemma_choice_accords(s: ChatModel, items: Seq<StreamItemModel>, choice: ChoiceModel)
    requires
        accords(s, items),
    ensures
        accords(state_after_choice(s, choice), items + items_of_choice(s, choice)),
{
    let added = items_of_choice(s, choice);
    let text = choice_text(choice);
    let delta = Ok::<EventModel, ErrorModel>(EventModel::OutputTextDelta(text));
    lemma_streamed_text_concat(items, added);
    lemma_tally_concat(items, added, announces());
    lemma_tally_concat(items, added, closes_announced());
    lemma_tally_one(delta, announces());
    lemma_tally_one(delta, closes_announced());
    lemma_tally_one(message_added(), announces());
    lemma_tally_one(message_added(), closes_announced());
    lemma_tally_concat(seq![message_added()], seq![delta], announces());
    lemma_tally_concat(seq![message_added()], seq![delta], closes_announced());
    lemma_streamed_text_concat(seq![message_added()], seq![delta]);
    reveal_with_fuel(streamed_text, 2);
    assert(seq![delta].drop_last() =~= Seq::empty());
    assert(seq![message_added()].drop_last() =~= Seq::empty());
    assert(streamed_text(seq![delta]) =~= text);
    assert(streamed_text(seq![message_added()]) =~= Seq::empty());
    if text.len() == 0 {
        assert(text =~= Seq::empty());
        assert(streamed_text(added) =~= text);
    } else {
        assert(streamed_text(added) =~= text);
    }
}

proof fn lemma_choices_accord(s: ChatModel, items: Seq<StreamItemModel>, choices: Seq<ChoiceModel>)
    requires
        accords(s, items),
    ensures
        accords(state_after_choices(s, choices), items + items_of_choices(s, choices)),
    decreases choices.len(),
{
    if choices.len() == 0 {
        assert(items + items_of_choices(s, choices) =~= items);
    } else {
        let front = choices.drop_last();
        lemma_choices_accord(s, items, front);
        let middle = state_after_choices(s, front);
        lemma_choice_accords(middle, items + items_of_choices(s, front), choices.last());
        assert(items + items_of_choices(s, choices) =~= items + items_of_choices(s, front)
            + items_of_choice(middle, choices.last()));
    }
}

/// As long as a stream goes on, its message holds exactly the text that was streamed, was announced
/// once if there is any text, and has not closed.
pub proof fn law_chat_message_is_what_was_streamed(
    store: Map<Seq<char>, Seq<char>>,
    inputs: Seq<SseModel<ChunkModel>>,
)
    requires
        !chat_run(fresh_chat(), store, inputs).done,
    ensures
        ({
            let step = chat_run(fresh_chat(), store, inputs);
            accords(step.state, step.items) && step.store == store
        }),
    decreases inputs.len(),
{
    if inputs.len() > 0 {
        law_chat_message_is_what_was_streamed(store, inputs.drop_last());
        let before = chat_run(fresh_chat(), store, inputs.drop_last());
        match inputs.last() {
            SseModel::Event { decoded: Ok(chunk), .. } => {
                let head = after_chunk_head(before.state, chunk);
                assert(accords(head, before.items));
                lemma_choices_accord(head, before.items, chunk.choices);
            },
            _ => {},
        }
    }
}

/// The events that hand calls on neither announce nor close a message, and stream no text.
proof fn lemma_calls_done(calls: Seq<CallModel>)
    ensures
        tally(calls_done(calls), announces()) == 0,
        tally(calls_done(calls), closes_announced()) == 0,
        streamed_text(calls_done(calls)) == Seq::<char>::empty(),
    decreases calls.len(),
{
    if calls.len() > 0 {
        lemma_calls_done(calls.drop_last());
        assert(calls_done(calls).drop_last() =~= calls_done(calls.drop_last()));
        assert(calls_done(calls).last() == call_done(calls.last()));
    }
}

/// A response that is completed has its message closed exactly if it was announced, once, and with
/// all the text that was streamed.
pub proof fn law_chat_message_closes(
    store: Map<Seq<char>, Seq<char>>,
    inputs: Seq<SseModel<ChunkModel>>,
    last: SseModel<ChunkModel>,
)
    requires
        !chat_run(fresh_chat(), store, inputs).done,
        chat_completes(last),
    ensures
        ({
            let step = chat_run(fresh_chat(), store, inputs.push(last));
            let text = streamed_text(step.items);
            &&& step.done
            &&& tally(step.items, announces()) == if text.len() > 0 {
                1nat
            } else {
                0nat
            }
            &&& tally(step.items, closes_announced()) == tally(step.items, announces())
            &&& text.len() > 0 ==> step.items.contains(
                Ok(EventModel::OutputItemDone(message_item(text))),
            )
        }),
{
    law_chat_message_is_what_was_streamed(store, inputs);
    assert(inputs.push(last).drop_last() =~= inputs);
    let before = chat_run(fresh_chat(), store, inputs);
    let s = before.state;
    let calls = calls_done(finished_calls(s.tool_calls));
    let end = chat_completion(s);
    let closed = Ok::<EventModel, ErrorModel>(
        EventModel::OutputItemDone(message_item(s.message_text)),
    );
    let added = chat_finished(s, store).items;
    assert(added =~= closing_message(s) + calls + seq![end]);
    lemma_calls_done(finished_calls(s.tool_calls));
    lemma_tally_one(closed, announces());
    lemma_tally_one(closed, closes_announced());
    lemma_tally_one(end, announces());
    lemma_tally_one(end, closes_announced());
    lemma_tally_concat(closing_message(s), calls, announces());
    lemma_tally_concat(closing_message(s), calls, closes_announced());
    lemma_tally_concat(closing_message(s) + calls, seq![end], announces());
    lemma_tally_concat(closing_message(s) + calls, seq![end], closes_announced());
    lemma_tally_concat(before.items, added, announces());
    lemma_tally_concat(before.items, added, closes_announced());
    lemma_streamed_text_concat(closing_message(s), calls);
    lemma_streamed_text_concat(closing_message(s) + calls, seq![end]);
    lemma_streamed_text_concat(before.items, added);
    reveal_with_fuel(streamed_text, 2);
    assert(seq![end].drop_last() =~= Seq::empty());
    assert(seq![closed].drop_last() =~= Seq::empty());
    assert(streamed_text(added) =~= Seq::empty());
    assert(streamed_text(before.items + added) =~= s.message_text);
    if s.message_started {
        assert(added[0] == closed);
        assert((before.items + added)[before.items.len() as int] == closed);
    }
}

/// Holds of a delta of text.
pub open spec fn is_text_delta(item: StreamItemModel) -> bool {
    item matches Ok(EventModel::OutputTextDelta(_))
}

/// Holds where the message is announced before the place `i`.
pub open spec fn announced_before(items: Seq<StreamItemModel>, i: int) -> bool {
    exists|j: int| 0 <= j < i && #[trigger] items[j] == message_added()
}

/// Holds of a state and of what was handed on up to it: every delta comes behind the announcement of
/// the message, and a message that was started was announced.
pub open spec fn deltas_follow(s: ChatModel, items: Seq<StreamItemModel>) -> bool {
    &&& s.message_started ==> announced_before(items, items.len() as int)
    &&& forall|i: int|
        0 <= i < items.len() && is_text_delta(#[trigger] items[i]) ==> announced_before(items, i)
}

/// What was announced stays announced, whatever comes behind it.
proof fn lemma_announced_before(items: Seq<StreamItemModel>, more: Seq<StreamItemModel>)
    ensures
        forall|i: int|
            0 <= i <= items.len() && #[trigger] announced_before(items, i) ==> announced_before(
                items + more,
                i,
            ),
        announced_before(items, items.len() as int) ==> forall|i: int|
            items.len() <= i <= items.len() + more.len() ==> #[trigger] announced_before(
                items + more,
                i,
            ),
{
    assert forall|i: int|
        0 <= i <= items.len() && #[trigger] announced_before(items, i) implies announced_before(
        items + more,
        i,
    ) by {
        let j = choose|j: int| 0 <= j < i && #[trigger] items[j] == message_added();
        assert((items + more)[j] == message_added());
    }
    if announced_before(items, items.len() as int) {
        let j = choose|j: int| 0 <= j < items.len() && #[trigger] items[j] == message_added();
        assert((items + more)[j] == message_added());
    }
}

proof fn lemma_choice_follows(s: ChatModel, items: Seq<StreamItemModel>, choice: ChoiceModel)
    requires
        deltas_follow(s, items),
    ensures
        deltas_follow(state_after_choice(s, choice), items + items_of_choice(s, choice)),
{
    let added = items_of_choice(s, choice);
    let all = items + added;
    lemma_announced_before(items, added);
    if choice_text(choice).len() > 0 && !s.message_started {
        assert(all[items.len() as int] == message_added());
    }
    assert forall|i: int| 0 <= i < all.len() && is_text_delta(#[trigger] all[i]) implies
        announced_before(all, i) by {
        if i < items.len() {
            assert(all[i] == items[i]);
        } else {
            assert(all[i] == added[i - items.len()]);
        }
    }
}

proof fn lemma_choices_follow(s: ChatModel, items: Seq<StreamItemModel>, choices: Seq<ChoiceModel>)
    requires
        deltas_follow(s, items),
    ensures
        deltas_follow(state_after_choices(s, choices), items + items_of_choices(s, choices)),
    decreases choices.len(),
{
    if choices.len() == 0 {
        assert(items + items_of_choices(s, choices) =~= items);
    } else {
        let front = choices.drop_last();
        lemma_choices_follow(s, items, front);
        let middle = state_after_choices(s, front);
        lemma_choice_follows(middle, items + items_of_choices(s, front), choices.last());
        assert(items + items_of_choices(s, choices) =~= items + items_of_choices(s, front)
            + items_of_choice(middle, choices.last()));
    }
}

proof fn lemma_run_follows(
    store: Map<Seq<char>, Seq<char>>,
    inputs: Seq<SseModel<ChunkModel>>,
)
    requires
        !chat_run(fresh_chat(), store, inputs).done,
    ensures
        deltas_follow(
            chat_run(fresh_chat(), store, inputs).state,
            chat_run(fresh_chat(), store, inputs).items,
        ),
    decreases inputs.len(),
{
    if inputs.len() > 0 {
        lemma_run_follows(store, inputs.drop_last());
        let before = chat_run(fresh_chat(), store, inputs.drop_last());
        match inputs.last() {
            SseModel::Event { decoded: Ok(chunk), .. } => {
                let head = after_chunk_head(before.state, chunk);
                assert(deltas_follow(head, before.items));
                lemma_choices_follow(head, before.items, chunk.choices);
            },
            _ => {},
        }
    }
}

/// In every run that completes its response, each delta of text stands between the announcement of
/// the message and its close, which brings all the text that was streamed.
pub proof fn law_chat_deltas_are_bracketed(
    store: Map<Seq<char>, Seq<char>>,
    inputs: Seq<SseModel<ChunkModel>>,
    last: SseModel<ChunkModel>,
)
    requires
        !chat_run(fresh_chat(), store, inputs).done,
        chat_completes(last),
    ensures
        ({
            let items = chat_run(fresh_chat(), store, inputs.push(last)).items;
            let done = Ok::<EventModel, ErrorModel>(
                EventModel::OutputItemDone(message_item(streamed_text(items))),
            );
            forall|i: int|
                0 <= i < items.len() && is_text_delta(#[trigger] items[i]) ==> announced_before(
                    items,
                    i,
                ) && exists|k: int| i < k < items.len() && #[trigger] items[k] == done
        }),
{
    law_chat_message_is_what_was_streamed(store, inputs);
    law_chat_message_closes(store, inputs, last);
    lemma_run_follows(store, inputs);
    assert(inputs.push(last).drop_last() =~= inputs);
    let before = chat_run(fresh_chat(), store, inputs);
    let s = before.state;
    let calls = calls_done(finished_calls(s.tool_calls));
    let added = chat_finished(s, before.store).items;
    let items = chat_run(fresh_chat(), store, inputs.push(last)).items;
    assert(items == before.items + added);
    lemma_announced_before(before.items, added);
    lemma_calls_done(finished_calls(s.tool_calls));
    lemma_streamed_text_concat(closing_message(s), calls);
    lemma_streamed_text_concat(closing_message(s) + calls, seq![chat_completion(s)]);
    lemma_streamed_text_concat(before.items, added);
    reveal_with_fuel(streamed_text, 2);
    assert(added =~= closing_message(s) + calls + seq![chat_completion(s)]);
    assert(seq![chat_completion(s)].drop_last() =~= Seq::empty());
    if s.message_started {
        let closed = closing_message(s)[0];
        assert(closing_message(s) =~= seq![closed]);
        assert(seq![closed].drop_last() =~= Seq::empty());
    }
    assert(streamed_text(added) =~= Seq::empty());
    assert(streamed_text(items) =~= s.message_text);
    assert forall|i: int| 0 <= i < items.len() && is_text_delta(#[trigger] items[i]) implies
        announced_before(items, i) && exists|k: int|
        i < k < items.len() && #[trigger] items[k] == Ok::<EventModel, ErrorModel>(
            EventModel::OutputItemDone(message_item(streamed_text(items))),
        ) by {
        if i < before.items.len() {
            assert(items[i] == before.items[i]);
            let j = choose|j: int| 0 <= j < i && #[trigger] before.items[j] == message_added();
            assert(s.message_started) by {
                lemma_announced_is_counted(before.items, j);
            }
            assert(items[before.items.len() as int] == added[0]);
        } else {
            assert(items[i] == added[i - before.items.len()]);
        }
    }
}

/// An announcement is counted.
proof fn lemma_announced_is_counted(items: Seq<StreamItemModel>, j: int)
    requires
        0 <= j < items.len(),
        items[j] == message_added(),
    ensures
        tally(items, announces()) > 0,
    decreases items.len(),
{
    if j < items.len() - 1 {
        lemma_announced_is_counted(items.drop_last(), j);
    }
}

/// What deltas add to the arguments of the call at `index`, one after the other.
pub open spec fn arguments_for(deltas: Seq<CallDeltaModel>, index: usize) -> Seq<char>
    decreases deltas.len(),
{
    if deltas.len() == 0 {
        Seq::empty()
    } else {
        arguments_for(deltas.drop_last(), index) + match deltas.last().function {
            Some(function) => match function.arguments {
                Some(arguments) => if deltas.last().index == index {
                    arguments
                } else {
                    Seq::empty()
                },
                None => Seq::empty(),
            },
            None => Seq::empty(),
        }
    }
}

/// A call gathers the arguments that are meant for it, and those alone, however the deltas of
/// several calls are interleaved; and no call goes away.
pub proof fn law_interleaved_calls_gather(
    calls: Map<usize, CallModel>,
    deltas: Seq<CallDeltaModel>,
    index: usize,
)
    ensures
        call_at(with_deltas(calls, deltas), index).arguments == call_at(calls, index).arguments
            + arguments_for(deltas, index),
        with_deltas(calls, deltas).contains_key(index) <==> calls.contains_key(index) || exists|
            i: int,
        |
            0 <= i < deltas.len() && (#[trigger] deltas[i]).index == index,
    decreases deltas.len(),
{
    if deltas.len() == 0 {
        assert(call_at(calls, index).arguments + arguments_for(deltas, index) =~= call_at(
            calls,
            index,
        ).arguments);
    } else {
        let front = deltas.drop_last();
        law_interleaved_calls_gather(calls, front, index);
        assert(call_at(with_deltas(calls, deltas), index).arguments =~= call_at(
            calls,
            index,
        ).arguments + arguments_for(deltas, index));
        if deltas.last().index == index {
            assert(deltas[deltas.len() - 1].index == index);
        }
        if exists|i: int| 0 <= i < front.len() && (#[trigger] front[i]).index == index {
            let i = choose|i: int| 0 <= i < front.len() && (#[trigger] front[i]).index == index;
            assert(deltas[i].index == index);
        }
        if exists|i: int| 0 <= i < deltas.len() && (#[trigger] deltas[i]).index == index {
            let i = choose|i: int| 0 <= i < deltas.len() && (#[trigger] deltas[i]).index == index;
            if i < front.len() {
                assert(front[i].index == index);
            }
        }
    }
}

/// Reasoning that is remembered for calls is recalled for each of them, and for no other call does
/// anything change. Blank reasoning changes nothing at all.
pub proof fn law_reasoning_is_recalled(
    store: Map<Seq<char>, Seq<char>>,
    calls: Seq<CallModel>,
    reasoning: Seq<char>,
)
    ensures
        is_blank(reasoning) ==> remembered_for_all(store, calls, reasoning) == store,
        !is_blank(reasoning) ==> forall|i: int|
            0 <= i < calls.len() ==> recalled(
                remembered_for_all(store, calls, reasoning),
                (#[trigger] calls[i]).id->0,
            ) == Some(reasoning),
        forall|id: Seq<char>|
            (forall|i: int| 0 <= i < calls.len() ==> (#[trigger] calls[i]).id->0 != id)
                ==> #[trigger] recalled(remembered_for_all(store, calls, reasoning), id)
                == recalled(store, id),
    decreases calls.len(),
{
    if calls.len() > 0 {
        let front = calls.drop_last();
        law_reasoning_is_recalled(store, front, reasoning);
        assert forall|i: int| 0 <= i < calls.len() && !is_blank(reasoning) implies recalled(
            remembered_for_all(store, calls, reasoning),
            (#[trigger] calls[i]).id->0,
        ) == Some(reasoning) by {
            if i < front.len() {
                assert(front[i] == calls[i]);
            }
        }
        assert forall|id: Seq<char>|
            (forall|i: int| 0 <= i < calls.len() ==> (#[trigger] calls[i]).id->0 != id) implies
        #[trigger] recalled(remembered_for_all(store, calls, reasoning), id) == recalled(
            store,
            id,
        ) by {
            assert(calls[calls.len() - 1].id->0 != id);
            assert forall|i: int| 0 <= i < front.len() implies (#[trigger] front[i]).id->0 != id by {
                assert(front[i] == calls[i]);
            }
            assert(recalled(remembered_for_all(store, front, reasoning), id) == recalled(
                store,
                id,
            ));
        }
    }
}

/// At the end of a stream, a call is handed on if it has both an id and a name, and only then.
pub proof fn law_complete_calls_are_handed_on(calls: Map<usize, CallModel>)
    requires
        calls.dom().finite(),
    ensures
        forall|k: usize|
            calls.contains_key(k) && is_complete(#[trigger] calls[k]) ==> finished_calls(
                calls,
            ).contains(calls[k]),
        forall|i: int|
            0 <= i < finished_calls(calls).len() ==> is_complete(
                #[trigger] finished_calls(calls)[i],
            ) && calls.contains_value(finished_calls(calls)[i]),
{
    lemma_ascending_lists(calls.dom());
    let indices = ascending(calls.dom());
    assert forall|i: int| 0 <= i < indices.len() implies calls.contains_key(
        #[trigger] indices[i],
    ) by {
        assert(indices.to_set().contains(indices[i]));
    }
    lemma_complete_calls(calls, indices);
    assert forall|k: usize|
        calls.contains_key(k) && is_complete(#[trigger] calls[k]) implies finished_calls(
        calls,
    ).contains(calls[k]) by {
        assert(calls.dom().contains(k));
        assert(indices.to_set().contains(k));
        assert(indices.contains(k));
    }
}

proof fn lemma_complete_calls(calls: Map<usize, CallModel>, indices: Seq<usize>)
    requires
        forall|i: int| 0 <= i < indices.len() ==> calls.contains_key(#[trigger] indices[i]),
    ensures
        forall|k: usize|
            indices.contains(k) && is_complete(#[trigger] calls[k]) ==> complete_calls(
                calls,
                indices,
            ).contains(calls[k]),
        forall|i: int|
            0 <= i < complete_calls(calls, indices).len() ==> is_complete(
                #[trigger] complete_calls(calls, indices)[i],
            ) && calls.contains_value(complete_calls(calls, indices)[i]),
    decreases indices.len(),
{
    if indices.len() > 0 {
        let front = indices.drop_last();
        let last = indices.last();
        lemma_complete_calls(calls, front);
        let before = complete_calls(calls, front);
        let all = complete_calls(calls, indices);
        assert(calls.contains_key(indices[indices.len() - 1]));
        assert forall|k: usize| indices.contains(k) && is_complete(#[trigger] calls[k]) implies
            all.contains(calls[k]) by {
            let i = choose|i: int| 0 <= i < indices.len() && indices[i] == k;
            if i < front.len() {
                assert(front[i] == k);
                let j = choose|j: int| 0 <= j < before.len() && before[j] == calls[k];
                assert(all[j] == calls[k]);
            } else {
                assert(all[all.len() - 1] == calls[k]);
            }
        }
        assert forall|i: int| 0 <= i < all.len() implies is_complete(#[trigger] all[i])
            && calls.contains_value(all[i]) by {
            if i < before.len() {
                assert(all[i] == before[i]);
            } else {
                assert(all[i] == calls[last]);
            }
        }
    }
}

} // verus!
