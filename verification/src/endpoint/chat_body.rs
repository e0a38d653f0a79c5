//! Requests to chat completions endpoints.
use crate::endpoint::tools::{chat_tools, response_tools_to_chat_tools};
use crate::json::{json_array, json_member, json_object, json_text, Json, JsonTree};
use crate::protocol::{
    result_model, ApiError, ContentItem, ContentModel, ErrorModel, ItemModel, RequestModel,
    ResponseItem, ResponsesApiRequest,
};
use crate::reasoning::{reasoning_content_for_tool_call, recalled, ReasoningStore};
use crate::roles::{chat_completions_role, chat_role};
use crate::seqs::{lemma_present_push, present};
use crate::text::{is_blank, is_blank_text, join, joined};
use vstd::prelude::*;

verus! {

/// The text of a content item, where it has any.
pub open spec fn text_of(item: ContentModel) -> Option<Seq<char>> {
    match item {
        ContentModel::InputText { text } => Some(text),
        ContentModel::OutputText { text } => Some(text),
        ContentModel::InputImage { .. } => None,
    }
}

/// The texts of content items, in order.
pub open spec fn texts_of(content: Seq<ContentModel>) -> Seq<Seq<char>> {
    present(content.map_values(|item: ContentModel| text_of(item)))
}

/// A content item as a part of a chat message.
pub open spec fn chat_part(item: ContentModel) -> JsonTree {
    match item {
        ContentModel::InputText { text } => text_part(text),
        ContentModel::OutputText { text } => text_part(text),
        ContentModel::InputImage { image_url } => JsonTree::Object(
            seq![
                ("type"@, JsonTree::String("image_url"@)),
                ("image_url"@, JsonTree::Object(seq![("url"@, JsonTree::String(image_url))])),
            ],
        ),
    }
}

/// A text as a part of a message.
pub open spec fn text_part(text: Seq<char>) -> JsonTree {
    JsonTree::Object(
        seq![("type"@, JsonTree::String("text"@)), ("text"@, JsonTree::String(text))],
    )
}

/// Holds of content with an image in it.
pub open spec fn has_image(content: Seq<ContentModel>) -> bool {
    exists|i: int| 0 <= i < content.len() && #[trigger] content[i] is InputImage
}

/// The content of a chat message: a list of parts where there is an image, and otherwise the texts
/// as lines of one string.
pub open spec fn chat_content(content: Seq<ContentModel>) -> JsonTree {
    if has_image(content) {
        JsonTree::Array(content.map_values(|item: ContentModel| chat_part(item)))
    } else {
        JsonTree::String(joined(texts_of(content), "\n"@))
    }
}

/// A tool call as a chat message lists it.
pub open spec fn tool_call_tree(
    call_id: Seq<char>,
    name: Seq<char>,
    arguments: Seq<char>,
) -> JsonTree {
    JsonTree::Object(
        seq![
            ("id"@, JsonTree::String(call_id)),
            ("type"@, JsonTree::String("function"@)),
            (
                "function"@,
                JsonTree::Object(
                    seq![
                        ("name"@, JsonTree::String(name)),
                        ("arguments"@, JsonTree::String(arguments)),
                    ],
                ),
            ),
        ],
    )
}

/// A tool call as a chat message lists it.
pub fn chat_tool_call(call_id: &str, name: &str, arguments: &str) -> (call: Json)
    ensures
        call.deep_view() == tool_call_tree(call_id@, name@, arguments@),
{
    let function = json_object(
        vec![
            json_member("name", json_text(name)),
            json_member("arguments", json_text(arguments)),
        ],
    );
    assert(function.deep_view()->Object_0 =~= seq![
        ("name"@, JsonTree::String(name@)),
        ("arguments"@, JsonTree::String(arguments@)),
    ]);
    let call = json_object(
        vec![
            json_member("id", json_text(call_id)),
            json_member("type", json_text("function")),
            json_member("function", function),
        ],
    );
    assert(call.deep_view()->Object_0 =~= tool_call_tree(
        call_id@,
        name@,
        arguments@,
    )->Object_0);
    call
}

/// A text as a part of a message.
pub(crate) fn text_block(text: &str) -> (part: Json)
    ensures
        part.deep_view() == text_part(text@),
{
    let part = json_object(
        vec![json_member("type", json_text("text")), json_member("text", json_text(text))],
    );
    assert(part.deep_view()->Object_0 =~= text_part(text@)->Object_0);
    part
}

fn chat_part_of(item: &ContentItem) -> (part: Json)
    ensures
        part.deep_view() == chat_part(item.deep_view()),
{
    match item {
        ContentItem::InputText { text } | ContentItem::OutputText { text } => text_block(
            text.as_str(),
        ),
        ContentItem::InputImage { image_url } => {
            let url = json_object(vec![json_member("url", json_text(image_url.as_str()))]);
            assert(url.deep_view()->Object_0 =~= seq![("url"@, JsonTree::String(image_url@))]);
            let part = json_object(
                vec![
                    json_member("type", json_text("image_url")),
                    json_member("image_url", url),
                ],
            );
            assert(part.deep_view()->Object_0 =~= chat_part(item.deep_view())->Object_0);
            part
        },
    }
}

/// The texts of content items, in order.
pub(crate) fn content_texts(content: &[ContentItem]) -> (texts: Vec<String>)
    ensures
        texts.deep_view() == texts_of(content.deep_view()),
{
    let ghost found = content.deep_view().map_values(|item: ContentModel| text_of(item));
    let mut texts: Vec<String> = Vec::new();
    assert(texts.deep_view() =~= present(found.take(0)));
    let mut i: usize = 0;
    while i < content.len()
        invariant
            i <= content.len(),
            found == content.deep_view().map_values(|item: ContentModel| text_of(item)),
            texts.deep_view() == present(found.take(i as int)),
        decreases content.len() - i,
    {
        let ghost before = texts.deep_view();
        proof {
            lemma_present_push(found.take(i as int), found[i as int]);
            assert(found.take(i + 1) =~= found.take(i as int).push(found[i as int]));
            assert(found[i as int] == text_of(content@[i as int].deep_view()));
        }
        match &content[i] {
            ContentItem::InputText { text } | ContentItem::OutputText { text } => {
                texts.push(text.clone());
                assert(texts.deep_view() =~= before.push(text@));
            },
            ContentItem::InputImage { .. } => {},
        }
        i += 1;
    }
    assert(found.take(content.len() as int) =~= found);
    texts
}

/// The content of a chat message that holds `content`.
pub fn content_items_to_chat_content(content: &[ContentItem]) -> (value: Json)
    ensures
        value.deep_view() == chat_content(content.deep_view()),
{
    let ghost model = content.deep_view();
    let mut structured: Vec<Json> = Vec::new();
    let mut image = false;
    let mut i: usize = 0;
    while i < content.len()
        invariant
            i <= content.len(),
            model == content.deep_view(),
            image == has_image(model.take(i as int)),
            structured.deep_view() =~= model.map_values(
                |item: ContentModel| chat_part(item),
            ).take(i as int),
        decreases content.len() - i,
    {
        let ghost before = structured.deep_view();
        proof {
            assert(model[i as int] == content@[i as int].deep_view());
            if has_image(model.take(i as int)) {
                let j = choose|j: int|
                    0 <= j < i && #[trigger] model.take(i as int)[j] is InputImage;
                assert(model.take(i + 1)[j] is InputImage);
            }
            if has_image(model.take(i + 1)) {
                let j = choose|j: int|
                    0 <= j < i + 1 && #[trigger] model.take(i + 1)[j] is InputImage;
                if j < i {
                    assert(model.take(i as int)[j] is InputImage);
                }
            }
        }
        if let ContentItem::InputImage { .. } = &content[i] {
            image = true;
            assert(model.take(i + 1)[i as int] is InputImage);
        }
        let part = chat_part_of(&content[i]);
        let ghost next = part.deep_view();
        structured.push(part);
        assert(structured.deep_view() =~= before.push(next));
        i += 1;
    }
    assert(model.take(content.len() as int) =~= model);
    if image {
        assert(structured.deep_view() =~= model.map_values(|item: ContentModel| chat_part(item)));
        json_array(structured)
    } else {
        Json::String(join(&content_texts(content), "\n"))
    }
}

/// The text of a tool's output; an output without text counts as empty.
pub open spec fn output_text(text: Option<Seq<char>>) -> Seq<char> {
    match text {
        Some(text) => text,
        None => Seq::empty(),
    }
}

/// The tool call that an item stands for.
pub open spec fn item_call_tree(item: ItemModel) -> JsonTree {
    tool_call_tree(
        item->FunctionCall_call_id,
        item->FunctionCall_name,
        item->FunctionCall_arguments,
    )
}

/// An item as a chat message of its own, where it is one.
pub open spec fn chat_message(item: ItemModel) -> Option<JsonTree> {
    match item {
        ItemModel::Message { role, content, .. } => Some(
            JsonTree::Object(
                seq![
                    ("role"@, JsonTree::String(chat_role(role))),
                    ("content"@, chat_content(content)),
                ],
            ),
        ),
        ItemModel::FunctionCall { .. } => Some(
            calls_message(seq![item_call_tree(item)], None),
        ),
        ItemModel::FunctionCallOutput { call_id, text, .. } => Some(
            JsonTree::Object(
                seq![
                    ("role"@, JsonTree::String("tool"@)),
                    ("tool_call_id"@, JsonTree::String(call_id)),
                    ("content"@, JsonTree::String(output_text(text))),
                ],
            ),
        ),
        _ => None,
    }
}

/// The message of the assistant that makes `calls`, with the reasoning that led to them where it
/// is known.
pub open spec fn calls_message(calls: Seq<JsonTree>, reasoning: Option<Seq<char>>) -> JsonTree {
    let members = seq![
        ("role"@, JsonTree::String("assistant"@)),
        ("content"@, JsonTree::Null),
        ("tool_calls"@, JsonTree::Array(calls)),
    ];
    JsonTree::Object(
        match reasoning {
            Some(reasoning) => members.push(
                ("reasoning_content"@, JsonTree::String(reasoning)),
            ),
            None => members,
        },
    )
}

/// The number of tool calls with which `items` starts.
pub open spec fn leading_calls(items: Seq<ItemModel>) -> nat
    decreases items.len(),
{
    if items.len() > 0 && items[0] is FunctionCall {
        1 + leading_calls(items.drop_first())
    } else {
        0
    }
}

/// A run of calls is no longer than the items are.
pub proof fn lemma_leading_calls_bound(items: Seq<ItemModel>)
    ensures
        leading_calls(items) <= items.len(),
    decreases items.len(),
{
    if items.len() > 0 && items[0] is FunctionCall {
        lemma_leading_calls_bound(items.drop_first());
    }
}

/// The reasoning that is known of the first of `calls` of which any is known.
pub open spec fn first_reasoning(
    calls: Seq<ItemModel>,
    store: Map<Seq<char>, Seq<char>>,
) -> Option<Seq<char>>
    decreases calls.len(),
{
    if calls.len() == 0 {
        None
    } else {
        match recalled(store, calls[0]->FunctionCall_call_id) {
            Some(reasoning) => Some(reasoning),
            None => first_reasoning(calls.drop_first(), store),
        }
    }
}

/// The one message that makes all of `calls`.
pub open spec fn group_message(
    calls: Seq<ItemModel>,
    store: Map<Seq<char>, Seq<char>>,
) -> JsonTree {
    calls_message(
        calls.map_values(|call: ItemModel| item_call_tree(call)),
        first_reasoning(calls, store),
    )
}

/// Items as chat messages. Tool calls that follow on one another go into one message; every other
/// item is a message of its own, or none.
pub open spec fn chat_messages(
    items: Seq<ItemModel>,
    store: Map<Seq<char>, Seq<char>>,
) -> Seq<JsonTree>
    decreases items.len(),
{
    if items.len() == 0 {
        Seq::empty()
    } else if items[0] is FunctionCall {
        proof {
            lemma_leading_calls_bound(items);
        }
        let n = leading_calls(items);
        seq![group_message(items.take(n as int), store)] + chat_messages(
            items.skip(n as int),
            store,
        )
    } else {
        let rest = chat_messages(items.drop_first(), store);
        match chat_message(items[0]) {
            Some(message) => seq![message] + rest,
            None => rest,
        }
    }
}

/// A run of calls is as long as the items are calls.
pub proof fn lemma_leading_calls(items: Seq<ItemModel>, n: int)
    requires
        0 <= n <= items.len(),
        forall|j: int| 0 <= j < n ==> #[trigger] items[j] is FunctionCall,
        n < items.len() ==> !(items[n] is FunctionCall),
    ensures
        leading_calls(items) == n,
    decreases n,
{
    if n > 0 {
        let rest = items.drop_first();
        assert forall|j: int| 0 <= j < n - 1 implies #[trigger] rest[j] is FunctionCall by {
            assert(rest[j] == items[j + 1]);
        }
        lemma_leading_calls(rest, n - 1);
    }
}

/// `first_reasoning` of `calls` with one more at the end.
pub proof fn lemma_first_reasoning_push(
    calls: Seq<ItemModel>,
    call: ItemModel,
    store: Map<Seq<char>, Seq<char>>,
)
    ensures
        first_reasoning(calls.push(call), store) == match first_reasoning(calls, store) {
            Some(reasoning) => Some(reasoning),
            None => recalled(store, call->FunctionCall_call_id),
        },
    decreases calls.len(),
{
    reveal_with_fuel(first_reasoning, 2);
    if calls.len() > 0 {
        assert(calls.push(call).drop_first() =~= calls.drop_first().push(call));
        lemma_first_reasoning_push(calls.drop_first(), call, store);
    } else {
        assert(calls.push(call).drop_first() =~= Seq::empty());
    }
}

/// The message of the assistant that makes `calls`.
fn message_of_calls(calls: Vec<Json>, reasoning: Option<String>) -> (message: Json)
    ensures
        message.deep_view() == calls_message(calls.deep_view(), reasoning.deep_view()),
{
    let ghost model = calls.deep_view();
    let mut members: Vec<(String, Json)> = vec![
        json_member("role", json_text("assistant")),
        json_member("content", Json::Null),
        json_member("tool_calls", json_array(calls)),
    ];
    assert(members.deep_view() =~= calls_message(model, None)->Object_0);
    if let Some(reasoning) = reasoning {
        members.push(json_member("reasoning_content", json_text(reasoning.as_str())));
        assert(members.deep_view() =~= calls_message(model, Some(reasoning@))->Object_0);
    }
    json_object(members)
}

/// Sends the calls that wait, if any do, as one message with the reasoning that is known of them.
pub fn flush_pending_tool_calls(
    messages: &mut Vec<Json>,
    pending_tool_calls: &mut Vec<Json>,
    pending_reasoning_content: &mut Option<String>,
)
    ensures
        old(pending_tool_calls)@.len() == 0 ==> *final(messages) == *old(messages)
            && *final(pending_tool_calls) == *old(pending_tool_calls)
            && *final(pending_reasoning_content) == *old(pending_reasoning_content),
        old(pending_tool_calls)@.len() > 0 ==> final(messages).deep_view() == old(
            messages,
        ).deep_view().push(
            calls_message(
                old(pending_tool_calls).deep_view(),
                old(pending_reasoning_content).deep_view(),
            ),
        ) && final(pending_tool_calls)@.len() == 0 && *final(pending_reasoning_content)
            == None::<String>,
{
    if pending_tool_calls.len() == 0 {
        return ;
    }
    let ghost before = messages.deep_view();
    let mut calls: Vec<Json> = Vec::new();
    std::mem::swap(&mut calls, pending_tool_calls);
    let mut reasoning: Option<String> = None;
    std::mem::swap(&mut reasoning, pending_reasoning_content);
    let message = message_of_calls(calls, reasoning);
    let ghost added = message.deep_view();
    messages.push(message);
    assert(messages.deep_view() =~= before.push(added));
}

/// An item as a chat message of its own, where it is one.
pub fn response_item_to_chat_message(item: &ResponseItem) -> (message: Option<Json>)
    ensures
        message.deep_view() == chat_message(item.deep_view()),
{
    match item {
        ResponseItem::Message { role, content, .. } => {
            let message = json_object(
                vec![
                    json_member("role", json_text(chat_completions_role(role.as_str()))),
                    json_member("content", content_items_to_chat_content(content.as_slice())),
                ],
            );
            assert(message.deep_view()->Object_0 =~= chat_message(
                item.deep_view(),
            )->0->Object_0);
            Some(message)
        },
        ResponseItem::FunctionCall { call_id, name, arguments, .. } => {
            let calls = vec![
                chat_tool_call(call_id.as_str(), name.as_str(), arguments.as_str()),
            ];
            assert(calls.deep_view() =~= seq![item_call_tree(item.deep_view())]);
            Some(message_of_calls(calls, None))
        },
        ResponseItem::FunctionCallOutput { call_id, output } => {
            let text = match output.body.to_text() {
                Some(text) => text,
                None => String::new(),
            };
            let message = json_object(
                vec![
                    json_member("role", json_text("tool")),
                    json_member("tool_call_id", json_text(call_id.as_str())),
                    json_member("content", Json::String(text)),
                ],
            );
            assert(message.deep_view()->Object_0 =~= chat_message(
                item.deep_view(),
            )->0->Object_0);
            Some(message)
        },
        _ => None,
    }
}

/// Items as chat messages, with the reasoning behind tool calls taken from `store`.
pub fn response_items_to_chat_messages(items: &[ResponseItem], store: &ReasoningStore) -> (messages:
    Vec<Json>)
    ensures
        messages.deep_view() == chat_messages(items.deep_view(), store@),
{
    let ghost all = items.deep_view();
    let mut messages: Vec<Json> = Vec::new();
    let mut pending_tool_calls: Vec<Json> = Vec::new();
    let mut pending_reasoning_content: Option<String> = None;
    let mut i: usize = 0;
    // The first of the calls that wait.
    let ghost mut first: int = 0;
    assert(all.skip(0) =~= all);
    assert(messages.deep_view() + chat_messages(all, store@) =~= chat_messages(all, store@));
    while i < items.len()
        invariant
            all == items.deep_view(),
            0 <= first <= i <= items.len(),
            forall|j: int| first <= j < i ==> #[trigger] all[j] is FunctionCall,
            pending_tool_calls.deep_view() =~= all.subrange(first, i as int).map_values(
                |call: ItemModel| item_call_tree(call),
            ),
            pending_reasoning_content.deep_view() == first_reasoning(
                all.subrange(first, i as int),
                store@,
            ),
            messages.deep_view() + chat_messages(all.skip(first), store@) == chat_messages(
                all,
                store@,
            ),
        decreases items.len() - i,
    {
        let ghost waiting = all.subrange(first, i as int);
        let item = &items[i];
        assert(all[i as int] == item.deep_view());
        if let ResponseItem::FunctionCall { call_id, name, arguments, .. } = item {
            proof {
                lemma_first_reasoning_push(waiting, all[i as int], store@);
                assert(all.subrange(first, i + 1) =~= waiting.push(all[i as int]));
            }
            if pending_reasoning_content.is_none() {
                pending_reasoning_content = reasoning_content_for_tool_call(
                    store,
                    call_id.as_str(),
                );
            }
            let ghost before = pending_tool_calls.deep_view();
            pending_tool_calls.push(
                chat_tool_call(call_id.as_str(), name.as_str(), arguments.as_str()),
            );
            assert(pending_tool_calls.deep_view() =~= before.push(
                item_call_tree(all[i as int]),
            ));
            i += 1;
            continue ;
        }
        let ghost sent = messages.deep_view();
        proof {
            lemma_rest_of_messages(all, store@, first, i as int);
            assert(pending_tool_calls.deep_view().len() == i - first);
        }
        flush_pending_tool_calls(
            &mut messages,
            &mut pending_tool_calls,
            &mut pending_reasoning_content,
        );
        let ghost flushed = messages.deep_view();
        proof {
            if first < i {
                assert(flushed =~= sent.push(group_message(waiting, store@)));
            } else {
                assert(flushed =~= sent);
            }
            assert(flushed + chat_messages(all.skip(i as int), store@) =~= chat_messages(
                all,
                store@,
            ));
            assert(all.skip(i as int).drop_first() =~= all.skip(i + 1));
            assert(all.skip(i as int)[0] == all[i as int]);
        }
        if let Some(message) = response_item_to_chat_message(item) {
            let ghost added = message.deep_view();
            messages.push(message);
            assert(messages.deep_view() =~= flushed.push(added));
            assert(messages.deep_view() + chat_messages(all.skip(i + 1), store@) =~= flushed + (
            seq![added] + chat_messages(all.skip(i + 1), store@)));
        }
        i += 1;
        proof {
            first = i as int;
            assert(all.subrange(first, i as int) =~= Seq::empty());
        }
    }
    let ghost sent = messages.deep_view();
    let ghost waiting = all.subrange(first, i as int);
    proof {
        lemma_rest_of_messages(all, store@, first, i as int);
        assert(pending_tool_calls.deep_view().len() == i - first);
        assert(all.skip(i as int) =~= Seq::empty());
    }
    flush_pending_tool_calls(
        &mut messages,
        &mut pending_tool_calls,
        &mut pending_reasoning_content,
    );
    proof {
        if first < i {
            assert(messages.deep_view() =~= sent.push(group_message(waiting, store@)));
        }
        assert(messages.deep_view() =~= chat_messages(all, store@));
    }
    messages
}

/// From a run of calls on, the messages are the one that makes the run, and those of what follows.
proof fn lemma_rest_of_messages(
    all: Seq<ItemModel>,
    store: Map<Seq<char>, Seq<char>>,
    first: int,
    i: int,
)
    requires
        0 <= first <= i <= all.len(),
        forall|j: int| first <= j < i ==> #[trigger] all[j] is FunctionCall,
        i < all.len() ==> !(all[i] is FunctionCall),
    ensures
        chat_messages(all.skip(first), store) == (if first < i {
            seq![group_message(all.subrange(first, i), store)]
        } else {
            Seq::empty()
        }) + chat_messages(all.skip(i), store),
{
    let rest = all.skip(first);
    if first < i {
        assert forall|j: int| 0 <= j < i - first implies #[trigger] rest[j] is FunctionCall by {
            assert(rest[j] == all[first + j]);
        }
        lemma_leading_calls(rest, i - first);
        assert(rest.take(i - first) =~= all.subrange(first, i));
        assert(rest.skip(i - first) =~= all.skip(i));
    } else {
        assert(Seq::empty() + chat_messages(all.skip(i), store) =~= chat_messages(
            all.skip(i),
            store,
        ));
    }
}

/// The message that states the instructions of a request, unless they are blank.
pub open spec fn instructions_message(instructions: Seq<char>) -> Seq<JsonTree> {
    if is_blank(instructions) {
        Seq::empty()
    } else {
        seq![
            JsonTree::Object(
                seq![
                    ("role"@, JsonTree::String("system"@)),
                    ("content"@, JsonTree::String(instructions)),
                ],
            ),
        ]
    }
}

/// All messages of a chat completions request.
pub open spec fn all_chat_messages(
    request: RequestModel,
    store: Map<Seq<char>, Seq<char>>,
) -> Seq<JsonTree> {
    instructions_message(request.instructions) + chat_messages(request.input, store)
}

/// A request as the body that a chat completions endpoint takes.
pub open spec fn chat_completions_body(
    request: RequestModel,
    store: Map<Seq<char>, Seq<char>>,
) -> JsonTree {
    let tools = chat_tools(request.tools);
    let members = seq![
        ("model"@, JsonTree::String(request.model)),
        ("messages"@, JsonTree::Array(all_chat_messages(request, store))),
        ("stream"@, JsonTree::Bool(true)),
        (
            "stream_options"@,
            JsonTree::Object(seq![("include_usage"@, JsonTree::Bool(true))]),
        ),
    ];
    JsonTree::Object(
        if tools.len() == 0 {
            members
        } else {
            members + seq![
                ("tools"@, JsonTree::Array(tools)),
                ("tool_choice"@, JsonTree::String(request.tool_choice)),
                ("parallel_tool_calls"@, JsonTree::Bool(request.parallel_tool_calls)),
            ]
        },
    )
}

/// The body that a chat completions endpoint takes for a request. The request comes as decoding
/// its body gave it; where that failed, the error says so.
pub fn responses_body_to_chat_completions_body(
    request: Result<ResponsesApiRequest, String>,
    store: &ReasoningStore,
) -> (body: Result<Json, ApiError>)
    ensures
        result_model(body) == match request {
            Ok(request) => Ok(chat_completions_body(request.deep_view(), store@)),
            Err(error) => Err(
                ErrorModel::Stream(
                    "failed to decode responses request for chat completions: "@ + error@,
                ),
            ),
        },
{
    let request = match request {
        Ok(request) => request,
        Err(error) => {
            let mut message = "failed to decode responses request for chat completions: ".to_string();
            message.append(error.as_str());
            return Err(ApiError::Stream(message));
        },
    };
    let ghost model = request.deep_view();
    let mut messages: Vec<Json> = Vec::new();
    if !is_blank_text(request.instructions.as_str()) {
        let message = json_object(
            vec![
                json_member("role", json_text("system")),
                json_member("content", json_text(request.instructions.as_str())),
            ],
        );
        assert(message.deep_view()->Object_0 =~= instructions_message(
            model.instructions,
        )[0]->Object_0);
        messages.push(message);
    }
    assert(messages.deep_view() =~= instructions_message(model.instructions));
    let mut rest = response_items_to_chat_messages(request.input.as_slice(), store);
    let ghost (front, back) = (messages.deep_view(), rest.deep_view());
    messages.append(&mut rest);
    assert(messages.deep_view() =~= front + back);

    let tools = response_tools_to_chat_tools(request.tools.as_slice());
    let options = json_object(vec![json_member("include_usage", Json::Bool(true))]);
    assert(options.deep_view()->Object_0 =~= seq![("include_usage"@, JsonTree::Bool(true))]);
    let mut members: Vec<(String, Json)> = vec![
        json_member("model", Json::String(request.model)),
        json_member("messages", json_array(messages)),
        json_member("stream", Json::Bool(true)),
        json_member("stream_options", options),
    ];
    if tools.len() > 0 {
        assert(tools.deep_view().len() > 0);
        members.push(json_member("tools", json_array(tools)));
        members.push(json_member("tool_choice", Json::String(request.tool_choice)));
        members.push(json_member("parallel_tool_calls", Json::Bool(request.parallel_tool_calls)));
    } else {
        assert(tools.deep_view().len() == 0);
    }
    assert(members.deep_view() =~= chat_completions_body(model, store@)->Object_0);
    Ok(json_object(members))
}

} // verus!
