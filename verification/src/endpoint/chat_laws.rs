//! What holds of every request to a chat completions endpoint.
use crate::endpoint::chat_body::{
    all_chat_messages, calls_message, chat_completions_body, chat_message, chat_messages,
    first_reasoning, group_message, item_call_tree, lemma_leading_calls,
};
use crate::endpoint::tools::chat_tools;
use crate::json::{lemma_key_index, lemma_key_index_is, member, JsonTree};
use crate::protocol::{ItemModel, RequestModel};
use crate::sse::chat_events::CallModel;
use crate::sse::chat_laws::law_reasoning_is_recalled;
use crate::sse::chat_model::{chat_finished, finished_calls, ChatModel};
use crate::text::is_blank;
use vstd::prelude::*;

verus! {

/// Holds of items all of which are tool calls.
pub open spec fn are_calls(items: Seq<ItemModel>) -> bool {
    forall|i: int| 0 <= i < items.len() ==> #[trigger] items[i] is FunctionCall
}

/// Tool calls that follow on one another go into one message, between the messages of what comes
/// before and of what comes after.
pub proof fn law_parallel_calls_share_a_message(
    before: Seq<ItemModel>,
    calls: Seq<ItemModel>,
    after: Seq<ItemModel>,
    store: Map<Seq<char>, Seq<char>>,
)
    requires
        before.len() > 0 ==> !(before.last() is FunctionCall),
        calls.len() > 0,
        are_calls(calls),
        after.len() > 0 ==> !(after[0] is FunctionCall),
    ensures
        chat_messages(before + calls + after, store) == chat_messages(before, store) + seq![
            group_message(calls, store),
        ] + chat_messages(after, store),
    decreases before.len(),
{
    let all = before + calls + after;
    if before.len() == 0 {
        assert(all =~= calls + after);
        lemma_leading_calls(all, calls.len() as int);
        assert(all.take(calls.len() as int) =~= calls);
        assert(all.skip(calls.len() as int) =~= after);
        assert(all[0] == calls[0]);
        assert(chat_messages(all, store) =~= chat_messages(before, store) + seq![
            group_message(calls, store),
        ] + chat_messages(after, store));
    } else if before[0] is FunctionCall {
        let n = first_other(before);
        assert forall|j: int| 0 <= j < n implies #[trigger] all[j] is FunctionCall by {
            assert(all[j] == before[j]);
        }
        assert(all[n] == before[n]);
        lemma_leading_calls(before, n);
        lemma_leading_calls(all, n);
        assert(all.take(n) =~= before.take(n));
        assert(all.skip(n) =~= before.skip(n) + calls + after);
        assert(before.skip(n).last() == before.last());
        law_parallel_calls_share_a_message(before.skip(n), calls, after, store);
        assert(chat_messages(all, store) =~= chat_messages(before, store) + seq![
            group_message(calls, store),
        ] + chat_messages(after, store));
    } else {
        let rest = before.drop_first();
        assert(all.drop_first() =~= rest + calls + after);
        assert(all[0] == before[0]);
        if rest.len() > 0 {
            assert(rest.last() == before.last());
        }
        law_parallel_calls_share_a_message(rest, calls, after, store);
        assert(chat_messages(all, store) =~= chat_messages(before, store) + seq![
            group_message(calls, store),
        ] + chat_messages(after, store));
    }
}

/// The position of the first item that is no tool call, in items that end with such an item.
proof fn first_other(items: Seq<ItemModel>) -> (n: int)
    requires
        items.len() > 0,
        !(items.last() is FunctionCall),
    ensures
        0 <= n < items.len(),
        forall|j: int| 0 <= j < n ==> #[trigger] items[j] is FunctionCall,
        !(items[n] is FunctionCall),
    decreases items.len(),
{
    if items[0] is FunctionCall {
        let rest = items.drop_first();
        assert(rest.last() == items.last());
        let m = first_other(rest);
        assert forall|j: int| 0 <= j < m + 1 implies #[trigger] items[j] is FunctionCall by {
            if j > 0 {
                assert(items[j] == rest[j - 1]);
            }
        }
        m + 1
    } else {
        0
    }
}

/// An item that is no tool call is a message of its own, or none, between the messages of what comes
/// before and of what comes after.
pub proof fn law_other_items_stand_alone(
    before: Seq<ItemModel>,
    item: ItemModel,
    after: Seq<ItemModel>,
    store: Map<Seq<char>, Seq<char>>,
)
    requires
        !(item is FunctionCall),
    ensures
        chat_messages(before + seq![item] + after, store) == chat_messages(before, store) + (
        match chat_message(item) {
            Some(message) => seq![message],
            None => Seq::empty(),
        }) + chat_messages(after, store),
    decreases before.len(),
{
    let all = before + seq![item] + after;
    let own = match chat_message(item) {
        Some(message) => seq![message],
        None => Seq::empty(),
    };
    let whole = chat_messages(before, store) + own + chat_messages(after, store);
    if before.len() == 0 {
        assert(all.drop_first() =~= after);
        assert(all[0] == item);
        assert(chat_messages(all, store) =~= whole);
    } else if before[0] is FunctionCall {
        let items = before + seq![item];
        assert(items.last() == item);
        let n = first_other(items);
        assert forall|j: int| 0 <= j < n implies #[trigger] all[j] is FunctionCall by {
            assert(all[j] == items[j]);
        }
        assert forall|j: int| 0 <= j < n implies #[trigger] before[j] is FunctionCall by {
            assert(before[j] == items[j]);
        }
        assert(all[n] == items[n]);
        if n < before.len() {
            assert(before[n] == items[n]);
        }
        lemma_leading_calls(before, n);
        lemma_leading_calls(all, n);
        assert(items[0] == before[0]);
        assert(n > 0);
        assert(all.take(n) =~= before.take(n));
        assert(all.skip(n) =~= before.skip(n) + seq![item] + after);
        law_other_items_stand_alone(before.skip(n), item, after, store);
        assert(chat_messages(all, store) =~= whole);
    } else {
        let rest = before.drop_first();
        assert(all.drop_first() =~= rest + seq![item] + after);
        assert(all[0] == before[0]);
        law_other_items_stand_alone(rest, item, after, store);
        assert(chat_messages(all, store) =~= whole);
    }
}

/// The item that a finished call of a stream becomes in the conversation.
pub open spec fn call_item(call: CallModel) -> ItemModel {
    ItemModel::FunctionCall {
        id: None,
        name: call.name->0,
        namespace: None,
        arguments: call.arguments,
        call_id: call.id->0,
    }
}

/// The calls that a stream hands on, sent back as they came, go out in one message together with the
/// reasoning that the stream brought; where that was blank, with what was known before.
pub proof fn law_reasoning_goes_back_with_its_calls(
    s: ChatModel,
    store: Map<Seq<char>, Seq<char>>,
)
    requires
        finished_calls(s.tool_calls).len() > 0,
    ensures
        ({
            let items = finished_calls(s.tool_calls).map_values(|call: CallModel| call_item(call));
            let trees = items.map_values(|item: ItemModel| item_call_tree(item));
            chat_messages(items, chat_finished(s, store).store) == seq![
                calls_message(
                    trees,
                    if is_blank(s.reasoning_content) {
                        first_reasoning(items, store)
                    } else {
                        Some(s.reasoning_content)
                    },
                ),
            ]
        }),
{
    let calls = finished_calls(s.tool_calls);
    let items = calls.map_values(|call: CallModel| call_item(call));
    let told = chat_finished(s, store).store;
    law_reasoning_is_recalled(store, calls, s.reasoning_content);
    lemma_leading_calls(items, items.len() as int);
    assert(items.take(items.len() as int) =~= items);
    assert(items.skip(items.len() as int) =~= Seq::empty());
    assert(items[0] == call_item(calls[0]));
    assert(chat_messages(Seq::empty(), told) =~= Seq::empty());
    assert(chat_messages(items, told) =~= seq![group_message(items, told)]);
}

/// Every request states its model and its messages, and asks for a stream with usage reports; it has
/// tools exactly where there are any to offer, and nothing else.
pub proof fn law_chat_body_members(request: RequestModel, store: Map<Seq<char>, Seq<char>>)
    ensures
        ({
            let body = chat_completions_body(request, store);
            let tools = chat_tools(request.tools);
            &&& member(body, "model"@) == Some(JsonTree::String(request.model))
            &&& member(body, "messages"@) == Some(
                JsonTree::Array(all_chat_messages(request, store)),
            )
            &&& member(body, "stream"@) == Some(JsonTree::Bool(true))
            &&& member(body, "stream_options"@) == Some(
                JsonTree::Object(seq![("include_usage"@, JsonTree::Bool(true))]),
            )
            &&& member(body, "tools"@) == if tools.len() > 0 {
                Some(JsonTree::Array(tools))
            } else {
                None
            }
            &&& member(body, "tool_choice"@) == if tools.len() > 0 {
                Some(JsonTree::String(request.tool_choice))
            } else {
                None
            }
            &&& member(body, "parallel_tool_calls"@) == if tools.len() > 0 {
                Some(JsonTree::Bool(request.parallel_tool_calls))
            } else {
                None
            }
            &&& body->Object_0.len() == if tools.len() > 0 {
                7int
            } else {
                4
            }
        }),
{
    reveal_strlit("model");
    reveal_strlit("messages");
    reveal_strlit("stream");
    reveal_strlit("stream_options");
    reveal_strlit("tools");
    reveal_strlit("tool_choice");
    reveal_strlit("parallel_tool_calls");
    assert("model"@[0] == 'm' && "tools"@[0] == 't');
    assert("model"@.len() == 5 && "messages"@.len() == 8 && "stream"@.len() == 6);
    assert("stream_options"@.len() == 14 && "tools"@.len() == 5 && "tool_choice"@.len() == 11);
    assert("parallel_tool_calls"@.len() == 19);
    let members = chat_completions_body(request, store)->Object_0;
    lemma_key_index_is(members, "model"@, 0);
    lemma_key_index_is(members, "messages"@, 1);
    lemma_key_index_is(members, "stream"@, 2);
    lemma_key_index_is(members, "stream_options"@, 3);
    lemma_key_index(members, "tools"@);
    lemma_key_index(members, "tool_choice"@);
    lemma_key_index(members, "parallel_tool_calls"@);
    if chat_tools(request.tools).len() > 0 {
        lemma_key_index_is(members, "tools"@, 4);
        lemma_key_index_is(members, "tool_choice"@, 5);
        lemma_key_index_is(members, "parallel_tool_calls"@, 6);
    }
}

} // verus!
