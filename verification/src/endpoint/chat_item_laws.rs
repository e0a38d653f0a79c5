//! What the items of a conversation become in a chat completions request.
use crate::endpoint::chat_body::{
    all_chat_messages, chat_content, chat_message, chat_messages, group_message, texts_of,
};
use crate::endpoint::chat_laws::are_calls;
use crate::json::{lemma_key_index_is, member, JsonTree};
use crate::protocol::{ContentModel, ItemModel, RequestModel};
use crate::roles::chat_role;
use crate::seqs::lemma_present_push;
use crate::text::{is_blank, joined};
use vstd::prelude::*;

verus! {

/// The text or the image of a content item.
pub open spec fn written(item: ContentModel) -> Seq<char> {
    match item {
        ContentModel::InputText { text } => text,
        ContentModel::OutputText { text } => text,
        ContentModel::InputImage { image_url } => image_url,
    }
}

/// Every text of a message counts, whether it was read or written, as it is and in its order; an
/// image has none.
pub proof fn law_texts(content: Seq<ContentModel>, text: Seq<char>)
    ensures
        texts_of(Seq::empty()).len() == 0,
        texts_of(content.push(ContentModel::InputText { text })) == texts_of(content).push(text),
        texts_of(content.push(ContentModel::OutputText { text })) == texts_of(content).push(text),
        texts_of(content.push(ContentModel::InputImage { image_url: text })) == texts_of(content),
{
    let f = |item: ContentModel| crate::endpoint::chat_body::text_of(item);
    let input = ContentModel::InputText { text };
    let output = ContentModel::OutputText { text };
    let image = ContentModel::InputImage { image_url: text };
    assert(content.push(input).map_values(f) =~= content.map_values(f).push(Some(text)));
    assert(content.push(output).map_values(f) =~= content.map_values(f).push(Some(text)));
    assert(content.push(image).map_values(f) =~= content.map_values(f).push(None));
    lemma_present_push(content.map_values(f), Some(text));
    lemma_present_push(content.map_values(f), None);
}

/// A message without images has as many texts as content items, and each is the text of its item.
pub proof fn law_texts_of_plain_content(content: Seq<ContentModel>)
    requires
        forall|i: int| 0 <= i < content.len() ==> !(#[trigger] content[i] is InputImage),
    ensures
        texts_of(content).len() == content.len(),
        forall|i: int|
            0 <= i < content.len() ==> #[trigger] texts_of(content)[i] == written(content[i]),
    decreases content.len(),
{
    law_texts(Seq::empty(), Seq::empty());
    if content.len() > 0 {
        let front = content.drop_last();
        assert forall|i: int| 0 <= i < front.len() implies !(#[trigger] front[i] is InputImage) by {
            assert(front[i] == content[i]);
        }
        law_texts_of_plain_content(front);
        law_texts(front, written(content.last()));
        assert(!(content[content.len() - 1] is InputImage));
        assert(content =~= front.push(content.last()));
        assert forall|i: int| 0 <= i < content.len() implies #[trigger] texts_of(content)[i]
            == written(content[i]) by {
            if i < front.len() {
                assert(texts_of(front)[i] == written(front[i]));
            }
        }
    } else {
        assert(content =~= Seq::empty());
    }
}

/// Content without images is one string, its texts on lines of their own; a single text is that text.
pub proof fn law_plain_content(content: Seq<ContentModel>)
    requires
        forall|i: int| 0 <= i < content.len() ==> !(#[trigger] content[i] is InputImage),
    ensures
        chat_content(content) == JsonTree::String(joined(texts_of(content), "\n"@)),
        content.len() == 1 ==> chat_content(content) == JsonTree::String(written(content[0])),
        content.len() == 0 ==> chat_content(content) == JsonTree::String(Seq::empty()),
{
    law_texts_of_plain_content(content);
}

/// Content with an image is a list with a part for each content item, in order: a text as text, an
/// image by its address.
pub proof fn law_content_with_an_image(content: Seq<ContentModel>, image: int)
    requires
        0 <= image < content.len(),
        content[image] is InputImage,
    ensures
        chat_content(content) matches JsonTree::Array(parts) && parts.len() == content.len()
            && forall|i: int|
            0 <= i < content.len() ==> #[trigger] parts[i] == if content[i] is InputImage {
                JsonTree::Object(
                    seq![
                        ("type"@, JsonTree::String("image_url"@)),
                        (
                            "image_url"@,
                            JsonTree::Object(
                                seq![("url"@, JsonTree::String(written(content[i])))],
                            ),
                        ),
                    ],
                )
            } else {
                JsonTree::Object(
                    seq![
                        ("type"@, JsonTree::String("text"@)),
                        ("text"@, JsonTree::String(written(content[i]))),
                    ],
                )
            },
{
}

/// The result of a tool is a message of the tool: it names the call, and its content is the text of
/// the output, as it is. An output without text is an empty one.
pub proof fn law_tool_result(call_id: Seq<char>, text: Option<Seq<char>>, success: Option<bool>)
    ensures
        ({
            let message = chat_message(ItemModel::FunctionCallOutput { call_id, text, success });
            &&& message is Some
            &&& message->0 is Object
            &&& message->0->Object_0.len() == 3
            &&& member(message->0, "role"@) == Some(JsonTree::String("tool"@))
            &&& member(message->0, "tool_call_id"@) == Some(JsonTree::String(call_id))
            &&& text matches Some(t) ==> member(message->0, "content"@) == Some(JsonTree::String(t))
            &&& text is None ==> member(message->0, "content"@) == Some(
                JsonTree::String(Seq::empty()),
            )
        }),
{
    lemma_message_names();
    let message = chat_message(ItemModel::FunctionCallOutput { call_id, text, success });
    let members = message->0->Object_0;
    lemma_key_index_is(members, "role"@, 0);
    lemma_key_index_is(members, "tool_call_id"@, 1);
    lemma_key_index_is(members, "content"@, 2);
}

/// A message has the role that the endpoint takes for its own, and its own content; its id and its
/// phase are not sent. An item that is neither a message nor about a tool is no message.
pub proof fn law_message(
    id: Option<Seq<char>>,
    role: Seq<char>,
    content: Seq<ContentModel>,
    phase: Option<Seq<char>>,
    other: ItemModel,
)
    ensures
        ({
            let message = chat_message(ItemModel::Message { id, role, content, phase });
            &&& message is Some
            &&& message->0 is Object
            &&& message->0->Object_0.len() == 2
            &&& member(message->0, "role"@) == Some(JsonTree::String(chat_role(role)))
            &&& member(message->0, "content"@) == Some(chat_content(content))
        }),
        other is Reasoning || other is Other ==> chat_message(other) is None,
{
    lemma_message_names();
    let message = chat_message(ItemModel::Message { id, role, content, phase });
    let members = message->0->Object_0;
    lemma_key_index_is(members, "role"@, 0);
    lemma_key_index_is(members, "content"@, 1);
}

/// A tool call as it is sent: its id, its kind, and the name and the arguments of the function.
pub open spec fn sent_call(call: ItemModel) -> JsonTree {
    JsonTree::Object(
        seq![
            ("id"@, JsonTree::String(call->FunctionCall_call_id)),
            ("type"@, JsonTree::String("function"@)),
            (
                "function"@,
                JsonTree::Object(
                    seq![
                        ("name"@, JsonTree::String(call->FunctionCall_name)),
                        ("arguments"@, JsonTree::String(call->FunctionCall_arguments)),
                    ],
                ),
            ),
        ],
    )
}

/// Tool calls are sent in a message of the assistant without content: each with its own id, name and
/// arguments, in their order.
pub proof fn law_sent_calls(calls: Seq<ItemModel>, store: Map<Seq<char>, Seq<char>>)
    ensures
        ({
            let message = group_message(calls, store);
            &&& message is Object
            &&& member(message, "role"@) == Some(JsonTree::String("assistant"@))
            &&& member(message, "content"@) == Some(JsonTree::Null)
            &&& member(message, "tool_calls"@) matches Some(JsonTree::Array(sent)) && sent.len()
                == calls.len() && forall|i: int|
                0 <= i < calls.len() ==> #[trigger] sent[i] == sent_call(calls[i])
        }),
        forall|call: ItemModel|
            call is FunctionCall ==> #[trigger] chat_message(call) == Some(
                JsonTree::Object(
                    seq![
                        ("role"@, JsonTree::String("assistant"@)),
                        ("content"@, JsonTree::Null),
                        ("tool_calls"@, JsonTree::Array(seq![sent_call(call)])),
                    ],
                ),
            ),
{
    lemma_message_names();
    let members = group_message(calls, store)->Object_0;
    lemma_key_index_is(members, "role"@, 0);
    lemma_key_index_is(members, "content"@, 1);
    lemma_key_index_is(members, "tool_calls"@, 2);
}

/// Calls are sent with the reasoning that the store has for the first of them for which it has any,
/// as it is. Where it has none for any of them, no reasoning is sent.
pub proof fn law_sent_reasoning(calls: Seq<ItemModel>, store: Map<Seq<char>, Seq<char>>, i: int)
    requires
        are_calls(calls),
    ensures
        0 <= i < calls.len() && store.contains_key(calls[i]->FunctionCall_call_id) && (forall|j: int|
            0 <= j < i ==> !store.contains_key((#[trigger] calls[j])->FunctionCall_call_id))
            ==> member(group_message(calls, store), "reasoning_content"@) == Some(
            JsonTree::String(store[calls[i]->FunctionCall_call_id]),
        ),
        (forall|j: int|
            0 <= j < calls.len() ==> !store.contains_key(
                (#[trigger] calls[j])->FunctionCall_call_id,
            )) ==> member(group_message(calls, store), "reasoning_content"@) is None && group_message(
            calls,
            store,
        )->Object_0.len() == 3,
{
    lemma_message_names();
    lemma_first_known(calls, store, i);
    let members = group_message(calls, store)->Object_0;
    crate::json::lemma_key_index(members, "reasoning_content"@);
    if members.len() == 4 {
        lemma_key_index_is(members, "reasoning_content"@, 3);
    }
}

proof fn lemma_first_known(calls: Seq<ItemModel>, store: Map<Seq<char>, Seq<char>>, i: int)
    ensures
        0 <= i < calls.len() && store.contains_key(calls[i]->FunctionCall_call_id) && (forall|j: int|
            0 <= j < i ==> !store.contains_key((#[trigger] calls[j])->FunctionCall_call_id))
            ==> crate::endpoint::chat_body::first_reasoning(calls, store) == Some(
            store[calls[i]->FunctionCall_call_id],
        ),
        (forall|j: int|
            0 <= j < calls.len() ==> !store.contains_key(
                (#[trigger] calls[j])->FunctionCall_call_id,
            )) ==> crate::endpoint::chat_body::first_reasoning(calls, store) is None,
    decreases calls.len(),
{
    if calls.len() > 0 {
        let rest = calls.drop_first();
        lemma_first_known(rest, store, i - 1);
        assert forall|j: int|
            0 <= j < rest.len() implies (#[trigger] rest[j])->FunctionCall_call_id == calls[j
            + 1]->FunctionCall_call_id by {
            assert(rest[j] == calls[j + 1]);
        }
        if forall|j: int|
            0 <= j < calls.len() ==> !store.contains_key(
                (#[trigger] calls[j])->FunctionCall_call_id,
            ) {
            assert(!store.contains_key(calls[0]->FunctionCall_call_id));
            assert forall|j: int| 0 <= j < rest.len() implies !store.contains_key(
                (#[trigger] rest[j])->FunctionCall_call_id,
            ) by {
                assert(!store.contains_key(calls[j + 1]->FunctionCall_call_id));
            }
        }
        if 0 < i < calls.len() && forall|j: int|
            0 <= j < i ==> !store.contains_key((#[trigger] calls[j])->FunctionCall_call_id) {
            assert(!store.contains_key(calls[0]->FunctionCall_call_id));
            assert forall|j: int| 0 <= j < i - 1 implies !store.contains_key(
                (#[trigger] rest[j])->FunctionCall_call_id,
            ) by {
                assert(!store.contains_key(calls[j + 1]->FunctionCall_call_id));
            }
        }
    }
}

/// A request starts with its instructions, as they are and as the system, unless they are blank; then
/// comes the conversation. An empty conversation has no messages.
pub proof fn law_instructions(request: RequestModel, store: Map<Seq<char>, Seq<char>>)
    ensures
        chat_messages(Seq::empty(), store).len() == 0,
        is_blank(request.instructions) ==> all_chat_messages(request, store) == chat_messages(
            request.input,
            store,
        ),
        !is_blank(request.instructions) ==> {
            let messages = all_chat_messages(request, store);
            &&& messages.len() > 0
            &&& messages[0] == JsonTree::Object(
                seq![
                    ("role"@, JsonTree::String("system"@)),
                    ("content"@, JsonTree::String(request.instructions)),
                ],
            )
            &&& messages.skip(1) == chat_messages(request.input, store)
        },
{
    let messages = all_chat_messages(request, store);
    if is_blank(request.instructions) {
        assert(messages =~= chat_messages(request.input, store));
    } else {
        assert(messages.skip(1) =~= chat_messages(request.input, store));
    }
}

/// The names of the members of messages are different texts.
proof fn lemma_message_names()
    ensures
        "role"@ != "content"@,
        "role"@ != "tool_calls"@,
        "role"@ != "tool_call_id"@,
        "role"@ != "reasoning_content"@,
        "content"@ != "tool_calls"@,
        "content"@ != "tool_call_id"@,
        "content"@ != "reasoning_content"@,
        "tool_calls"@ != "reasoning_content"@,
{
    reveal_strlit("role");
    reveal_strlit("content");
    reveal_strlit("tool_calls");
    reveal_strlit("tool_call_id");
    reveal_strlit("reasoning_content");
    assert("role"@.len() == 4 && "content"@.len() == 7 && "tool_calls"@.len() == 10);
    assert("tool_call_id"@.len() == 12 && "reasoning_content"@.len() == 17);
}

} // verus!
