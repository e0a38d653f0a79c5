//! Requests to Anthropic Messages endpoints.
use crate::endpoint::chat_body::{content_texts, output_text, text_block, text_part, texts_of};
use crate::endpoint::tools::{anthropic_tools, response_tools_to_anthropic_tools};
use crate::json::{
    json_array, json_member, json_object, json_text, key_index, law_member_after_set,
    lemma_key_index, lemma_key_index_is, member, with_member, Json, JsonNumber, JsonTree,
};
use crate::json_text::{parse_json, parsed_tree};
use crate::protocol::{
    result_model, ApiError, ErrorModel, ItemModel, RequestModel, ResponseItem, ResponsesApiRequest,
};
use crate::seqs::{lemma_present_push, present};
use crate::text::{is_blank, is_blank_text, join, joined, str_eq};
use vstd::prelude::*;

verus! {

/// The most tokens that a response may take.
///
/// The Messages API wants a ceiling where a request states none. This one is high enough for long
/// code generations, and within the output limits of current models.
pub const ANTHROPIC_DEFAULT_MAX_TOKENS: u32 = 16384;

/// A message in which `role` says `content`.
pub open spec fn turn_message(role: Seq<char>, content: Seq<JsonTree>) -> JsonTree {
    JsonTree::Object(
        seq![("role"@, JsonTree::String(role)), ("content"@, JsonTree::Array(content))],
    )
}

/// Messages after `role` says one more block: where the last message is of the same role and has a
/// list of blocks, the block goes there, and otherwise into a message of its own. A last message of
/// the same role that has no content at all gets an empty one.
pub open spec fn pushed_block(
    messages: Seq<JsonTree>,
    role: Seq<char>,
    block: JsonTree,
) -> Seq<JsonTree> {
    let own = turn_message(role, seq![block]);
    if messages.len() > 0 && member(messages.last(), "role"@) == Some(JsonTree::String(role)) {
        let last = messages.last();
        match member(last, "content"@) {
            Some(JsonTree::Array(blocks)) => messages.drop_last().push(
                with_member(last, "content"@, JsonTree::Array(blocks.push(block))),
            ),
            Some(_) => messages.push(own),
            None => messages.drop_last().push(
                with_member(last, "content"@, JsonTree::Null),
            ).push(own),
        }
    } else {
        messages.push(own)
    }
}

fn has_role(message: &Json, role: &str) -> (yes: bool)
    ensures
        yes == (member(message.deep_view(), "role"@) == Some(JsonTree::String(role@))),
{
    match message.get("role") {
        Some(found) => match found.as_str() {
            Some(found) => str_eq(found, role),
            None => false,
        },
        None => false,
    }
}

/// Appends a content block to `messages`, merging it into the last message where that is of the
/// same role.
///
/// The Messages API wants user and assistant to take turns, while a conversation may list a reply
/// and its tool call as two items, and has one item for each tool result. With the merging, a
/// reply and its call become one message, and so do the results of calls.
pub fn push_anthropic_block(messages: &mut Vec<Json>, role: &str, block: Json)
    ensures
        final(messages).deep_view() == pushed_block(
            old(messages).deep_view(),
            role@,
            block.deep_view(),
        ),
{
    let ghost before = messages.deep_view();
    let ghost added = block.deep_view();
    let n = messages.len();
    if n > 0 && has_role(&messages[n - 1], role) {
        if let Some(last) = messages.pop() {
            let ghost front = messages.deep_view();
            let ghost model = last.deep_view();
            assert(front =~= before.drop_last());
            assert(model == before.last());
            proof {
                law_member_after_set(model, "content"@, JsonTree::Null);
            }
            let mut last = last;
            match last.replace_member("content", Json::Null) {
                Some(Json::Array(blocks)) => {
                    let mut blocks = blocks;
                    let ghost listed = blocks.deep_view();
                    assert(member(model, "content"@) == Some(JsonTree::Array(listed))) by {
                        broadcast use crate::json::lemma_tree_of_array;

                    }
                    blocks.push(block);
                    assert(blocks.deep_view() =~= listed.push(added));
                    last.set_member("content", json_array(blocks));
                    let ghost longer = last.deep_view();
                    messages.push(last);
                    assert(messages.deep_view() =~= front.push(longer));
                    return ;
                },
                Some(other) => {
                    proof {
                        broadcast use crate::json::lemma_tree_of_array;

                        lemma_unchanged_member(model, "content"@);
                    }
                    last.set_member("content", other);
                    messages.push(last);
                    assert(messages.deep_view() =~= before);
                },
                None => {
                    last.set_member("content", Json::Null);
                    let ghost longer = last.deep_view();
                    messages.push(last);
                    assert(messages.deep_view() =~= front.push(longer));
                },
            }
        }
    }
    let ghost held = messages.deep_view();
    let blocks = vec![block];
    assert(blocks.deep_view() =~= seq![added]);
    let own = json_object(
        vec![json_member("role", json_text(role)), json_member("content", json_array(blocks))],
    );
    assert(own.deep_view()->Object_0 =~= turn_message(role@, seq![added])->Object_0);
    messages.push(own);
    assert(messages.deep_view() =~= held.push(turn_message(role@, seq![added])));
}

/// Setting a member to what it is changes nothing.
proof fn lemma_unchanged_member(value: JsonTree, key: Seq<char>)
    requires
        member(value, key) is Some,
    ensures
        with_member(value, key, member(value, key)->0) == value,
{
    let members = value->Object_0;
    lemma_key_index(members, key);
    assert(members.update(key_index(members, key), (key, member(value, key)->0)) =~= members);
}

/// What an item says: a role, and a content block.
pub type Saying = (Seq<char>, JsonTree);

/// A role, and the blocks that it says in a row.
pub type Turn = (Seq<char>, Seq<JsonTree>);

/// What is said, in turns: what one role says in a row is one turn.
pub open spec fn turns(sayings: Seq<Saying>) -> Seq<Turn>
    decreases sayings.len(),
{
    if sayings.len() == 0 {
        Seq::empty()
    } else {
        let (role, block) = sayings.last();
        let before = turns(sayings.drop_last());
        if before.len() > 0 && before.last().0 == role {
            before.drop_last().push((role, before.last().1.push(block)))
        } else {
            before.push((role, seq![block]))
        }
    }
}

/// Turns as messages.
pub open spec fn turn_messages(turns: Seq<Turn>) -> Seq<JsonTree> {
    turns.map_values(|turn: Turn| turn_message(turn.0, turn.1))
}

/// Turns without those of the assistant at the start.
pub open spec fn from_first_user(turns: Seq<Turn>) -> Seq<Turn>
    decreases turns.len(),
{
    if turns.len() > 0 && turns[0].0 == "assistant"@ {
        from_first_user(turns.drop_first())
    } else {
        turns
    }
}

/// The members of a turn's message.
pub proof fn lemma_turn_message(role: Seq<char>, content: Seq<JsonTree>)
    ensures
        member(turn_message(role, content), "role"@) == Some(JsonTree::String(role)),
        member(turn_message(role, content), "content"@) == Some(JsonTree::Array(content)),
        forall|new: Seq<JsonTree>| #[trigger]
            with_member(turn_message(role, content), "content"@, JsonTree::Array(new))
                == turn_message(role, new),
{
    reveal_strlit("role");
    reveal_strlit("content");
    let members = turn_message(role, content)->Object_0;
    assert("role"@.len() != "content"@.len());
    lemma_key_index_is(members, "role"@, 0);
    lemma_key_index_is(members, "content"@, 1);
    assert forall|new: Seq<JsonTree>| #[trigger]
        with_member(turn_message(role, content), "content"@, JsonTree::Array(new)) == turn_message(
            role,
            new,
        ) by {
        assert(members.update(1, ("content"@, JsonTree::Array(new))) =~= turn_message(
            role,
            new,
        )->Object_0);
    }
}

/// Pushing a block onto the messages of turns gives the messages of the turns with it.
pub proof fn lemma_pushed_block(sayings: Seq<Saying>, role: Seq<char>, block: JsonTree)
    ensures
        pushed_block(turn_messages(turns(sayings)), role, block) == turn_messages(
            turns(sayings.push((role, block))),
        ),
{
    let before = turns(sayings);
    let after = turns(sayings.push((role, block)));
    assert(sayings.push((role, block)).drop_last() =~= sayings);
    if before.len() > 0 {
        let (last_role, last_blocks) = before.last();
        lemma_turn_message(last_role, last_blocks);
        assert(turn_messages(before).last() == turn_message(last_role, last_blocks));
        assert(turn_messages(before).drop_last() =~= turn_messages(before.drop_last()));
    }
    assert(pushed_block(turn_messages(before), role, block) =~= turn_messages(after));
}

/// The text of a message: its texts, each on lines of its own.
pub open spec fn message_text(item: ItemModel) -> Seq<char> {
    joined(texts_of(item->Message_content), "\n"@)
}

/// Holds of the roles that speak through the system prompt.
pub open spec fn is_system_role(role: Seq<char>) -> bool {
    role == "system"@ || role == "developer"@ || role == "latest_reminder"@
}

/// What an item adds to the system prompt.
pub open spec fn system_part(item: ItemModel) -> Option<Seq<char>> {
    match item {
        ItemModel::Message { role, .. } => if is_system_role(role) && !is_blank(
            message_text(item),
        ) {
            Some(message_text(item))
        } else {
            None
        },
        _ => None,
    }
}

/// What the system prompt is made of: the instructions, and what the items add.
pub open spec fn system_parts(instructions: Seq<char>, items: Seq<ItemModel>) -> Seq<Seq<char>> {
    let added = present(items.map_values(|item: ItemModel| system_part(item)));
    if is_blank(instructions) {
        added
    } else {
        seq![instructions] + added
    }
}

/// The system prompt: its parts with a blank line between neighbours.
pub open spec fn system_prompt(instructions: Seq<char>, items: Seq<ItemModel>) -> Seq<char> {
    joined(system_parts(instructions, items), "\n\n"@)
}

/// The block that makes a tool call. `input` is what the arguments were read as; where they could
/// not be read, the call gets an empty object.
pub open spec fn tool_use_tree(
    call_id: Seq<char>,
    name: Seq<char>,
    input: Option<JsonTree>,
) -> JsonTree {
    JsonTree::Object(
        seq![
            ("type"@, JsonTree::String("tool_use"@)),
            ("id"@, JsonTree::String(call_id)),
            ("name"@, JsonTree::String(name)),
            (
                "input"@,
                match input {
                    Some(input) => input,
                    None => JsonTree::Object(Seq::empty()),
                },
            ),
        ],
    )
}

/// The block that gives the result of a tool call.
pub open spec fn tool_result_tree(call_id: Seq<char>, text: Seq<char>) -> JsonTree {
    JsonTree::Object(
        seq![
            ("type"@, JsonTree::String("tool_result"@)),
            ("tool_use_id"@, JsonTree::String(call_id)),
            ("content"@, JsonTree::String(text)),
        ],
    )
}

/// What an item says, if it says anything. `input` is what the arguments of a call were read as.
pub open spec fn saying(item: ItemModel, input: Option<JsonTree>) -> Option<Saying> {
    match item {
        ItemModel::Message { role, .. } => if (role == "user"@ || role == "assistant"@)
            && !is_blank(message_text(item)) {
            Some((role, text_part(message_text(item))))
        } else {
            None
        },
        ItemModel::FunctionCall { call_id, name, .. } => Some(
            ("assistant"@, tool_use_tree(call_id, name, input)),
        ),
        ItemModel::FunctionCallOutput { call_id, text, .. } => Some(
            ("user"@, tool_result_tree(call_id, output_text(text))),
        ),
        _ => None,
    }
}

/// What the arguments of a call are read as; no other item has any.
pub open spec fn call_input(item: ItemModel) -> Option<JsonTree> {
    match item {
        ItemModel::FunctionCall { arguments, .. } => parsed_tree(arguments),
        _ => None,
    }
}

/// What the items say, in order.
pub open spec fn sayings(items: Seq<ItemModel>) -> Seq<Saying> {
    present(items.map_values(|item: ItemModel| saying(item, call_input(item))))
}

/// The messages of an Anthropic request for what is said.
pub open spec fn anthropic_messages(sayings: Seq<Saying>) -> Seq<JsonTree> {
    turn_messages(from_first_user(turns(sayings)))
}

/// What an item adds to the system prompt.
pub fn item_system_part(item: &ResponseItem) -> (part: Option<String>)
    ensures
        part.deep_view() == system_part(item.deep_view()),
{
    match item {
        ResponseItem::Message { role, content, .. } => {
            let role = role.as_str();
            if str_eq(role, "system") || str_eq(role, "developer") || str_eq(
                role,
                "latest_reminder",
            ) {
                let text = join(&content_texts(content.as_slice()), "\n");
                if !is_blank_text(text.as_str()) {
                    return Some(text);
                }
            }
            None
        },
        _ => None,
    }
}

/// What an item says, if it says anything: a role, and a content block. `input` is what the
/// arguments of a call were read as.
pub fn item_saying(item: &ResponseItem, input: Option<Json>) -> (said: Option<(String, Json)>)
    ensures
        said.deep_view() == saying(item.deep_view(), input.deep_view()),
{
    match item {
        ResponseItem::Message { role, content, .. } => {
            if str_eq(role.as_str(), "user") || str_eq(role.as_str(), "assistant") {
                let text = join(&content_texts(content.as_slice()), "\n");
                if !is_blank_text(text.as_str()) {
                    return Some((role.clone(), text_block(text.as_str())));
                }
            }
            None
        },
        ResponseItem::FunctionCall { call_id, name, .. } => {
            let ghost model = input.deep_view();
            let input = match input {
                Some(input) => input,
                None => {
                    let none: Vec<(String, Json)> = Vec::new();
                    assert(none.deep_view() =~= Seq::empty());
                    json_object(none)
                },
            };
            let block = json_object(
                vec![
                    json_member("type", json_text("tool_use")),
                    json_member("id", json_text(call_id.as_str())),
                    json_member("name", json_text(name.as_str())),
                    json_member("input", input),
                ],
            );
            assert(block.deep_view()->Object_0 =~= tool_use_tree(
                call_id@,
                name@,
                model,
            )->Object_0);
            Some(("assistant".to_string(), block))
        },
        ResponseItem::FunctionCallOutput { call_id, output } => {
            let text = match output.body.to_text() {
                Some(text) => text,
                None => String::new(),
            };
            let ghost shown = text@;
            let block = json_object(
                vec![
                    json_member("type", json_text("tool_result")),
                    json_member("tool_use_id", json_text(call_id.as_str())),
                    json_member("content", Json::String(text)),
                ],
            );
            assert(block.deep_view()->Object_0 =~= tool_result_tree(call_id@, shown)->Object_0);
            Some(("user".to_string(), block))
        },
        _ => None,
    }
}

/// A request as the body that an Anthropic endpoint takes.
pub open spec fn anthropic_body(request: RequestModel) -> JsonTree {
    let tools = anthropic_tools(request.tools);
    let system = system_prompt(request.instructions, request.input);
    let members = seq![
        ("model"@, JsonTree::String(request.model)),
        (
            "max_tokens"@,
            JsonTree::Number(JsonNumber::Unsigned(ANTHROPIC_DEFAULT_MAX_TOKENS as u64)),
        ),
        ("messages"@, JsonTree::Array(anthropic_messages(sayings(request.input)))),
        ("stream"@, JsonTree::Bool(true)),
    ];
    let members = if system.len() == 0 {
        members
    } else {
        members.push(("system"@, JsonTree::String(system)))
    };
    let members = if tools.len() == 0 {
        members
    } else {
        members.push(("tools"@, JsonTree::Array(tools)))
    };
    // `auto` is what an endpoint does by itself, so that only `required` has to be said.
    JsonTree::Object(
        if tools.len() > 0 && request.tool_choice == "required"@ {
            members.push(
                ("tool_choice"@, JsonTree::Object(seq![("type"@, JsonTree::String("any"@))])),
            )
        } else {
            members
        },
    )
}

/// `from_first_user` starts at the first turn that is not the assistant's.
pub proof fn lemma_from_first_user(turns: Seq<Turn>, n: int)
    requires
        0 <= n <= turns.len(),
        forall|i: int| 0 <= i < n ==> (#[trigger] turns[i]).0 == "assistant"@,
        n < turns.len() ==> turns[n].0 != "assistant"@,
    ensures
        from_first_user(turns) == turns.skip(n),
    decreases n,
{
    if n > 0 {
        let rest = turns.drop_first();
        assert forall|i: int| 0 <= i < n - 1 implies (#[trigger] rest[i]).0 == "assistant"@ by {
            assert(rest[i] == turns[i + 1]);
        }
        lemma_from_first_user(rest, n - 1);
        assert(rest.skip(n - 1) =~= turns.skip(n));
    } else {
        assert(turns.skip(0) =~= turns);
    }
}

/// Removes the messages of the assistant at the start: a conversation is to start with the user.
fn start_with_user(messages: Vec<Json>, Ghost(said): Ghost<Seq<Turn>>) -> (rest: Vec<Json>)
    requires
        messages.deep_view() == turn_messages(said),
    ensures
        rest.deep_view() == turn_messages(from_first_user(said)),
{
    let mut rest = messages;
    let ghost mut n: int = 0;
    assert(said.skip(0) =~= said);
    while rest.len() > 0 && has_role(&rest[0], "assistant")
        invariant
            0 <= n <= said.len(),
            rest.deep_view() == turn_messages(said.skip(n)),
            forall|i: int| 0 <= i < n ==> (#[trigger] said[i]).0 == "assistant"@,
        decreases rest.len(),
    {
        let ghost before = rest.deep_view();
        proof {
            assert(before.len() == said.skip(n).len());
            assert(before[0] == turn_message(said[n].0, said[n].1));
            lemma_turn_message(said[n].0, said[n].1);
        }
        rest.remove(0);
        proof {
            n = n + 1;
            assert(rest.deep_view() =~= before.drop_first());
            assert(rest.deep_view() =~= turn_messages(said.skip(n)));
        }
    }
    proof {
        assert(rest.deep_view().len() == said.skip(n).len());
        if n < said.len() {
            assert(rest.deep_view()[0] == turn_message(said[n].0, said[n].1));
            lemma_turn_message(said[n].0, said[n].1);
        }
        lemma_from_first_user(said, n);
    }
    rest
}

/// The messages for what the items say.
fn messages_of(items: &[ResponseItem]) -> (messages: Vec<Json>)
    ensures
        messages.deep_view() == anthropic_messages(sayings(items.deep_view())),
{
    let ghost said = items.deep_view().map_values(
        |item: ItemModel| saying(item, call_input(item)),
    );
    let mut messages: Vec<Json> = Vec::new();
    assert(messages.deep_view() =~= turn_messages(turns(present(said.take(0)))));
    let mut i: usize = 0;
    while i < items.len()
        invariant
            i <= items.len(),
            said == items.deep_view().map_values(|item: ItemModel| saying(item, call_input(item))),
            messages.deep_view() == turn_messages(turns(present(said.take(i as int)))),
        decreases items.len() - i,
    {
        let ghost before = present(said.take(i as int));
        proof {
            lemma_present_push(said.take(i as int), said[i as int]);
            assert(said.take(i + 1) =~= said.take(i as int).push(said[i as int]));
            assert(items.deep_view()[i as int] == items@[i as int].deep_view());
        }
        let input = match &items[i] {
            ResponseItem::FunctionCall { arguments, .. } => parse_json(arguments.as_str()),
            _ => None,
        };
        if let Some((role, block)) = item_saying(&items[i], input) {
            proof {
                lemma_pushed_block(before, role@, block.deep_view());
            }
            push_anthropic_block(&mut messages, role.as_str(), block);
        }
        i += 1;
    }
    assert(said.take(items.len() as int) =~= said);
    start_with_user(messages, Ghost(turns(sayings(items.deep_view()))))
}

/// The system prompt of a request.
fn system_of(instructions: &str, items: &[ResponseItem]) -> (system: String)
    ensures
        system@ == system_prompt(instructions@, items.deep_view()),
{
    let ghost added = items.deep_view().map_values(|item: ItemModel| system_part(item));
    let mut parts: Vec<String> = Vec::new();
    if !is_blank_text(instructions) {
        parts.push(instructions.to_string());
    }
    let ghost first = parts.deep_view();
    assert(first + present(added.take(0)) =~= first);
    let mut i: usize = 0;
    while i < items.len()
        invariant
            i <= items.len(),
            added == items.deep_view().map_values(|item: ItemModel| system_part(item)),
            parts.deep_view() == first + present(added.take(i as int)),
        decreases items.len() - i,
    {
        let ghost before = parts.deep_view();
        proof {
            lemma_present_push(added.take(i as int), added[i as int]);
            assert(added.take(i + 1) =~= added.take(i as int).push(added[i as int]));
            assert(items.deep_view()[i as int] == items@[i as int].deep_view());
        }
        if let Some(part) = item_system_part(&items[i]) {
            let ghost text = part@;
            parts.push(part);
            assert(parts.deep_view() =~= before.push(text));
            assert(parts.deep_view() =~= first + present(added.take(i + 1)));
        }
        i += 1;
    }
    assert(added.take(items.len() as int) =~= added);
    assert(parts.deep_view() =~= system_parts(instructions@, items.deep_view()));
    join(&parts, "\n\n")
}

/// The body that an Anthropic endpoint takes for a request. The request comes as decoding its body
/// gave it; where that failed, the error says so.
pub fn responses_body_to_anthropic_body(request: Result<ResponsesApiRequest, String>) -> (body:
    Result<Json, ApiError>)
    ensures
        result_model(body) == match request {
            Ok(request) => Ok(anthropic_body(request.deep_view())),
            Err(error) => Err(
                ErrorModel::Stream(
                    "failed to decode responses request for anthropic: "@ + error@,
                ),
            ),
        },
{
    let request = match request {
        Ok(request) => request,
        Err(error) => {
            let mut message = "failed to decode responses request for anthropic: ".to_string();
            message.append(error.as_str());
            return Err(ApiError::Stream(message));
        },
    };
    let ghost model = request.deep_view();
    let system = system_of(request.instructions.as_str(), request.input.as_slice());
    let messages = messages_of(request.input.as_slice());
    let tools = response_tools_to_anthropic_tools(request.tools.as_slice());
    let mut members: Vec<(String, Json)> = vec![
        json_member("model", Json::String(request.model)),
        json_member(
            "max_tokens",
            Json::Number(JsonNumber::Unsigned(ANTHROPIC_DEFAULT_MAX_TOKENS as u64)),
        ),
        json_member("messages", json_array(messages)),
        json_member("stream", Json::Bool(true)),
    ];
    if !system.as_str().is_empty() {
        members.push(json_member("system", Json::String(system)));
    }
    if tools.len() > 0 {
        assert(tools.deep_view().len() > 0);
        members.push(json_member("tools", json_array(tools)));
        if str_eq(request.tool_choice.as_str(), "required") {
            let any = json_object(vec![json_member("type", json_text("any"))]);
            assert(any.deep_view()->Object_0 =~= seq![("type"@, JsonTree::String("any"@))]);
            members.push(json_member("tool_choice", any));
        }
    } else {
        assert(tools.deep_view().len() == 0);
    }
    assert(members.deep_view() =~= anthropic_body(model)->Object_0);
    Ok(json_object(members))
}

} // verus!
