//! What the items of a conversation become in a request to an Anthropic endpoint.
use crate::endpoint::anthropic_body::{
    anthropic_messages, call_input, from_first_user, pushed_block, saying, sayings, system_part,
    system_parts, system_prompt, turns,
};
use crate::endpoint::chat_body::texts_of;
use crate::endpoint::chat_item_laws::{law_texts_of_plain_content, written};
use crate::json::{law_member_after_set, member, JsonTree};
use crate::json_text::parsed_tree;
use crate::protocol::{ContentModel, ItemModel};
use crate::seqs::lemma_present_push;
use crate::text::{is_blank, joined};
use vstd::prelude::*;

verus! {

/// A block of text.
pub open spec fn text_said(text: Seq<char>) -> JsonTree {
    JsonTree::Object(
        seq![("type"@, JsonTree::String("text"@)), ("text"@, JsonTree::String(text))],
    )
}

/// A message of the user or of the assistant says its texts on lines of their own, in its own role,
/// unless they are blank. No other role says anything.
pub proof fn law_message_says(
    id: Option<Seq<char>>,
    role: Seq<char>,
    content: Seq<ContentModel>,
    phase: Option<Seq<char>>,
    input: Option<JsonTree>,
)
    ensures
        ({
            let item = ItemModel::Message { id, role, content, phase };
            let text = joined(texts_of(content), "\n"@);
            &&& (role == "user"@ || role == "assistant"@) && !is_blank(text) ==> saying(item, input)
                == Some((role, text_said(text)))
            &&& (role == "user"@ || role == "assistant"@) && is_blank(text) ==> saying(
                item,
                input,
            ) is None
            &&& role != "user"@ && role != "assistant"@ ==> saying(item, input) is None
        }),
{
}

/// A message with a single text, read or written, says exactly that text, unless it is blank.
pub proof fn law_single_text_is_said(
    id: Option<Seq<char>>,
    role: Seq<char>,
    content: ContentModel,
    phase: Option<Seq<char>>,
    input: Option<JsonTree>,
)
    requires
        role == "user"@ || role == "assistant"@,
        content is InputText || content is OutputText,
        !is_blank(written(content)),
    ensures
        saying(ItemModel::Message { id, role, content: seq![content], phase }, input) == Some(
            (role, text_said(written(content))),
        ),
{
    law_texts_of_plain_content(seq![content]);
    law_message_says(id, role, seq![content], phase, input);
}

/// The assistant makes a tool call, with the call's own id and name, and with what its arguments were
/// read as, or an empty object where they could not be read. The user gives the result, with the id of
/// the call and the text of the output. Any other item says nothing.
pub proof fn law_tools_say(
    id: Option<Seq<char>>,
    name: Seq<char>,
    namespace: Option<Seq<char>>,
    arguments: Seq<char>,
    call_id: Seq<char>,
    text: Option<Seq<char>>,
    success: Option<bool>,
    input: JsonTree,
    other: ItemModel,
)
    ensures
        ({
            let call = ItemModel::FunctionCall { id, name, namespace, arguments, call_id };
            let head = seq![
                ("type"@, JsonTree::String("tool_use"@)),
                ("id"@, JsonTree::String(call_id)),
                ("name"@, JsonTree::String(name)),
            ];
            &&& call_input(call) == parsed_tree(arguments)
            &&& saying(call, Some(input)) == Some(
                ("assistant"@, JsonTree::Object(head.push(("input"@, input)))),
            )
            &&& saying(call, None) == Some(
                (
                    "assistant"@,
                    JsonTree::Object(head.push(("input"@, JsonTree::Object(Seq::empty())))),
                ),
            )
        }),
        saying(ItemModel::FunctionCallOutput { call_id, text, success }, Some(input)) == Some(
            (
                "user"@,
                JsonTree::Object(
                    seq![
                        ("type"@, JsonTree::String("tool_result"@)),
                        ("tool_use_id"@, JsonTree::String(call_id)),
                        (
                            "content"@,
                            JsonTree::String(
                                if text is Some {
                                    text->0
                                } else {
                                    Seq::empty()
                                },
                            ),
                        ),
                    ],
                ),
            ),
        ),
        saying(ItemModel::FunctionCallOutput { call_id, text, success }, None) == saying(
            ItemModel::FunctionCallOutput { call_id, text, success },
            Some(input),
        ),
        other is Reasoning || other is Other ==> saying(other, None) is None && saying(
            other,
            Some(input),
        ) is None,
        !(other is FunctionCall) ==> call_input(other) is None,
{
    let call = ItemModel::FunctionCall { id, name, namespace, arguments, call_id };
    let head = seq![
        ("type"@, JsonTree::String("tool_use"@)),
        ("id"@, JsonTree::String(call_id)),
        ("name"@, JsonTree::String(name)),
    ];
    let none = JsonTree::Object(Seq::empty());
    let read = saying(call, Some(input))->0;
    let unread = saying(call, None)->0;
    assert(read.1->Object_0 =~= head.push(("input"@, input)));
    assert(unread.1->Object_0 =~= head.push(("input"@, none)));
}

/// Items speak one by one and in their order: one more item adds what it says, and nothing else.
pub proof fn law_items_speak_in_order(items: Seq<ItemModel>, item: ItemModel)
    ensures
        sayings(Seq::empty()).len() == 0,
        saying(item, call_input(item)) matches Some(said) ==> sayings(items.push(item)) == sayings(
            items,
        ).push(said),
        saying(item, call_input(item)) is None ==> sayings(items.push(item)) == sayings(items),
{
    let f = |item: ItemModel| saying(item, call_input(item));
    assert(items.push(item).map_values(f) =~= items.map_values(f).push(f(item)));
    lemma_present_push(items.map_values(f), f(item));
}

/// Holds of a message of the system, of a developer or of a reminder that is not blank.
pub open spec fn tells_the_system(item: ItemModel) -> bool {
    item matches ItemModel::Message { role, content, .. } && (role == "system"@ || role
        == "developer"@ || role == "latest_reminder"@) && !is_blank(
        joined(texts_of(content), "\n"@),
    )
}

/// The system prompt is the instructions and the texts of all messages of the system, of developers
/// and of reminders, in their order, with a blank line between neighbours. What is blank is left out,
/// and nothing else goes there.
pub proof fn law_system_prompt(instructions: Seq<char>, items: Seq<ItemModel>, item: ItemModel)
    ensures
        system_prompt(instructions, items) == joined(system_parts(instructions, items), "\n\n"@),
        is_blank(instructions) ==> system_parts(instructions, Seq::empty()).len() == 0,
        !is_blank(instructions) ==> system_parts(instructions, Seq::empty()) == seq![instructions],
        tells_the_system(item) ==> system_parts(instructions, items.push(item)) == system_parts(
            instructions,
            items,
        ).push(joined(texts_of(item->Message_content), "\n"@)),
        !tells_the_system(item) ==> system_parts(instructions, items.push(item)) == system_parts(
            instructions,
            items,
        ),
{
    let f = |item: ItemModel| system_part(item);
    let none = Seq::<ItemModel>::empty();
    assert(none.map_values(f) =~= Seq::empty());
    assert(items.push(item).map_values(f) =~= items.map_values(f).push(f(item)));
    lemma_present_push(items.map_values(f), f(item));
    assert(seq![instructions] + Seq::empty() =~= seq![instructions]);
    if let Some(text) = f(item) {
        assert(system_parts(instructions, items.push(item)) =~= system_parts(
            instructions,
            items,
        ).push(text));
    }
}

/// Each message of a request is a turn: its role is that of the turn, and its content is what is said
/// in the turn, block by block.
pub proof fn law_messages_are_turns(said: Seq<(Seq<char>, JsonTree)>)
    ensures
        ({
            let kept = from_first_user(turns(said));
            let messages = anthropic_messages(said);
            &&& messages.len() == kept.len()
            &&& forall|i: int|
                0 <= i < kept.len() ==> #[trigger] messages[i] == JsonTree::Object(
                    seq![
                        ("role"@, JsonTree::String(kept[i].0)),
                        ("content"@, JsonTree::Array(kept[i].1)),
                    ],
                )
        }),
{
}

/// A block goes to the end of the last message where that is of the same role and has a list of
/// blocks; there it changes nothing but that list. Otherwise it makes a message of its own behind the
/// others. The messages before the last never change.
pub proof fn law_pushed_block(messages: Seq<JsonTree>, role: Seq<char>, block: JsonTree)
    ensures
        ({
            let after = pushed_block(messages, role, block);
            let last = messages.last();
            let same = messages.len() > 0 && member(last, "role"@) == Some(JsonTree::String(role));
            let own = JsonTree::Object(
                seq![
                    ("role"@, JsonTree::String(role)),
                    ("content"@, JsonTree::Array(seq![block])),
                ],
            );
            &&& forall|i: int| 0 <= i < messages.len() - 1 ==> #[trigger] after[i] == messages[i]
            &&& !same ==> after == messages.push(own)
            &&& same && !(member(last, "content"@) matches Some(JsonTree::Array(_))) ==> after.len()
                == messages.len() + 1 && after.last() == own
            &&& same ==> (member(last, "content"@) matches Some(JsonTree::Array(blocks)) ==> {
                &&& after.len() == messages.len()
                &&& member(after.last(), "content"@) == Some(JsonTree::Array(blocks.push(block)))
                &&& forall|name: Seq<char>|
                    name != "content"@ ==> #[trigger] member(after.last(), name) == member(last, name)
            })
        }),
{
    let last = messages.last();
    if messages.len() > 0 && member(last, "role"@) == Some(JsonTree::String(role)) {
        if let Some(JsonTree::Array(blocks)) = member(last, "content"@) {
            law_member_after_set(last, "content"@, JsonTree::Array(blocks.push(block)));
        }
    }
}

} // verus!
