//! What holds of every request to an Anthropic Messages endpoint.
use crate::endpoint::anthropic_body::{
    anthropic_body, anthropic_messages, call_input, from_first_user, lemma_turn_message, saying,
    sayings, system_prompt, turns, Saying, Turn,
};
use crate::endpoint::chat_body::text_part;
use crate::endpoint::tools::anthropic_tools;
use crate::json::{lemma_key_index, lemma_key_index_is, member, JsonNumber, JsonTree};
use crate::protocol::{ItemModel, RequestModel};
use crate::seqs::present;
use crate::text::is_blank;
use vstd::prelude::*;

verus! {

/// Holds of turns in which no role speaks twice in a row, and none says nothing.
pub open spec fn takes_turns(turns: Seq<Turn>) -> bool {
    &&& forall|i: int, j: int|
        0 <= i && j == i + 1 && j < turns.len() ==> (#[trigger] turns[i]).0 != (
        #[trigger] turns[j]).0
    &&& forall|i: int| 0 <= i < turns.len() ==> (#[trigger] turns[i]).1.len() > 0
}

/// What is said comes in turns in which no role speaks twice in a row, and none says nothing.
pub proof fn law_turns_alternate(sayings: Seq<Saying>)
    ensures
        takes_turns(turns(sayings)),
    decreases sayings.len(),
{
    if sayings.len() > 0 {
        law_turns_alternate(sayings.drop_last());
        let before = turns(sayings.drop_last());
        let all = turns(sayings);
        assert forall|i: int, j: int| 0 <= i && j == i + 1 && j < all.len() implies (
        #[trigger] all[i]).0 != (#[trigger] all[j]).0 by {
            if j < before.len() {
                assert(before[i].0 != before[j].0);
            }
        }
    }
}

/// What is said in turns, one after the other.
pub open spec fn said_in(turns: Seq<Turn>) -> Seq<Saying>
    decreases turns.len(),
{
    if turns.len() == 0 {
        Seq::empty()
    } else {
        said_in(turns.drop_last()) + turns.last().1.map_values(
            |block: JsonTree| (turns.last().0, block),
        )
    }
}

/// Putting what is said into turns loses nothing, adds nothing, and keeps the order.
pub proof fn law_turns_keep_what_is_said(sayings: Seq<Saying>)
    ensures
        said_in(turns(sayings)) == sayings,
    decreases sayings.len(),
{
    if sayings.len() > 0 {
        law_turns_keep_what_is_said(sayings.drop_last());
        let before = turns(sayings.drop_last());
        let all = turns(sayings);
        let (role, block) = sayings.last();
        if before.len() > 0 && before.last().0 == role {
            assert(all.drop_last() =~= before.drop_last());
            assert(said_in(all) =~= said_in(before).push((role, block)));
        } else {
            assert(all.drop_last() =~= before);
            assert(said_in(all) =~= said_in(before).push((role, block)));
        }
        assert(sayings =~= sayings.drop_last().push((role, block)));
    }
}

/// Only turns of the assistant at the very start are left out: what stays is the end of what was
/// there, and does not start with the assistant.
pub proof fn law_only_leading_assistant_turns_go(turns: Seq<Turn>)
    ensures
        ({
            let kept = from_first_user(turns);
            &&& kept.len() <= turns.len()
            &&& kept == turns.skip(turns.len() - kept.len())
            &&& forall|i: int|
                0 <= i < turns.len() - kept.len() ==> (#[trigger] turns[i]).0 == "assistant"@
            &&& kept.len() > 0 ==> kept[0].0 != "assistant"@
        }),
    decreases turns.len(),
{
    if turns.len() > 0 && turns[0].0 == "assistant"@ {
        let rest = turns.drop_first();
        law_only_leading_assistant_turns_go(rest);
        let kept = from_first_user(turns);
        assert(rest.skip(rest.len() - kept.len()) =~= turns.skip(turns.len() - kept.len()));
        assert forall|i: int| 0 <= i < turns.len() - kept.len() implies (#[trigger] turns[i]).0
            == "assistant"@ by {
            if i > 0 {
                assert(turns[i] == rest[i - 1]);
            }
        }
    } else {
        assert(turns.skip(0) =~= turns);
    }
}

/// What is said in turns and then in more turns.
proof fn lemma_said_in_concat(first: Seq<Turn>, second: Seq<Turn>)
    ensures
        said_in(first + second) == said_in(first) + said_in(second),
    decreases second.len(),
{
    if second.len() == 0 {
        assert(first + second =~= first);
        assert(said_in(first) + said_in(second) =~= said_in(first));
    } else {
        lemma_said_in_concat(first, second.drop_last());
        assert((first + second).drop_last() =~= first + second.drop_last());
        assert((first + second).last() == second.last());
        assert(said_in(first + second) =~= said_in(first) + said_in(second));
    }
}

/// What is said in turns of the assistant is said by the assistant.
proof fn lemma_said_by_assistant(turns: Seq<Turn>)
    requires
        forall|i: int| 0 <= i < turns.len() ==> (#[trigger] turns[i]).0 == "assistant"@,
    ensures
        forall|i: int|
            0 <= i < said_in(turns).len() ==> (#[trigger] said_in(turns)[i]).0 == "assistant"@,
    decreases turns.len(),
{
    if turns.len() > 0 {
        let front = turns.drop_last();
        assert forall|i: int| 0 <= i < front.len() implies (#[trigger] front[i]).0
            == "assistant"@ by {
            assert(front[i] == turns[i]);
        }
        lemma_said_by_assistant(front);
        assert(turns[turns.len() - 1].0 == "assistant"@);
        let before = said_in(front);
        assert forall|i: int| 0 <= i < said_in(turns).len() implies (#[trigger] said_in(
            turns,
        )[i]).0 == "assistant"@ by {
            if i < before.len() {
                assert(said_in(turns)[i] == before[i]);
            }
        }
    }
}

/// The turns that a request keeps say all that is said, in order, from some point on; what is said
/// before that point is said by the assistant. So results of tool calls stay ahead of what the user
/// says later.
pub proof fn law_kept_turns_say_the_rest(sayings: Seq<Saying>)
    ensures
        ({
            let kept = said_in(from_first_user(turns(sayings)));
            &&& kept.len() <= sayings.len()
            &&& kept == sayings.skip(sayings.len() - kept.len())
            &&& forall|i: int|
                0 <= i < sayings.len() - kept.len() ==> (#[trigger] sayings[i]).0 == "assistant"@
        }),
{
    let all = turns(sayings);
    let kept = from_first_user(all);
    law_turns_keep_what_is_said(sayings);
    law_only_leading_assistant_turns_go(all);
    let dropped = all.take(all.len() - kept.len());
    assert forall|i: int| 0 <= i < dropped.len() implies (#[trigger] dropped[i]).0
        == "assistant"@ by {
        assert(dropped[i] == all[i]);
    }
    assert(all =~= dropped + kept);
    lemma_said_in_concat(dropped, kept);
    lemma_said_by_assistant(dropped);
    let n = said_in(dropped).len();
    assert(sayings == said_in(dropped) + said_in(kept));
    assert(sayings.skip(n as int) =~= said_in(kept));
    assert forall|i: int| 0 <= i < n implies (#[trigger] sayings[i]).0 == "assistant"@ by {
        assert(sayings[i] == said_in(dropped)[i]);
    }
}

/// Holds of the roles that a message may have.
pub open spec fn speaks(role: Seq<char>) -> bool {
    role == "user"@ || role == "assistant"@
}

/// Nobody but the user and the assistant says anything.
proof fn lemma_speakers(items: Seq<ItemModel>)
    ensures
        forall|i: int| 0 <= i < sayings(items).len() ==> speaks((#[trigger] sayings(items)[i]).0),
    decreases items.len(),
{
    let f = |item: ItemModel| saying(item, call_input(item));
    if items.len() > 0 {
        lemma_speakers(items.drop_last());
        assert(items.map_values(f).drop_last() =~= items.drop_last().map_values(f));
        assert(sayings(items.drop_last()) == present(items.drop_last().map_values(f)));
        let before = sayings(items.drop_last());
        assert forall|i: int| 0 <= i < sayings(items).len() implies speaks(
            (#[trigger] sayings(items)[i]).0,
        ) by {
            if i < before.len() {
                assert(sayings(items)[i] == before[i]);
            }
        }
    }
}

/// The roles of turns are roles of those who say something.
proof fn lemma_turn_roles(sayings: Seq<Saying>)
    requires
        forall|i: int| 0 <= i < sayings.len() ==> speaks((#[trigger] sayings[i]).0),
    ensures
        forall|i: int| 0 <= i < turns(sayings).len() ==> speaks((#[trigger] turns(sayings)[i]).0),
    decreases sayings.len(),
{
    if sayings.len() > 0 {
        let front = sayings.drop_last();
        assert forall|i: int| 0 <= i < front.len() implies speaks((#[trigger] front[i]).0) by {
            assert(front[i] == sayings[i]);
        }
        lemma_turn_roles(front);
        assert(speaks(sayings[sayings.len() - 1].0));
        let before = turns(front);
        assert forall|i: int| 0 <= i < turns(sayings).len() implies speaks(
            (#[trigger] turns(sayings)[i]).0,
        ) by {
            if i < before.len() - 1 {
                assert(turns(sayings)[i] == before[i]);
            }
        }
    }
}

/// The role of a message.
pub open spec fn role_of(message: JsonTree) -> Option<JsonTree> {
    member(message, "role"@)
}

/// Whatever the conversation, the messages of a request start with the user, and from there on user
/// and assistant take turns, message by message.
pub proof fn law_messages_alternate(items: Seq<ItemModel>)
    ensures
        ({
            let messages = anthropic_messages(sayings(items));
            forall|i: int|
                0 <= i < messages.len() ==> role_of(#[trigger] messages[i]) == Some(
                    JsonTree::String(
                        if i % 2 == 0 {
                            "user"@
                        } else {
                            "assistant"@
                        },
                    ),
                )
        }),
{
    let said = sayings(items);
    let all = turns(said);
    let kept = from_first_user(all);
    lemma_speakers(items);
    lemma_turn_roles(said);
    law_turns_alternate(said);
    law_only_leading_assistant_turns_go(all);
    assert forall|i: int| 0 <= i < kept.len() implies (#[trigger] kept[i]).0 == (if i % 2 == 0 {
        "user"@
    } else {
        "assistant"@
    }) by {
        lemma_alternates(all, kept, i);
    }
    let messages = anthropic_messages(said);
    assert forall|i: int| 0 <= i < messages.len() implies role_of(#[trigger] messages[i]) == Some(
        JsonTree::String(
            if i % 2 == 0 {
                "user"@
            } else {
                "assistant"@
            },
        ),
    ) by {
        lemma_turn_message(kept[i].0, kept[i].1);
    }
}

proof fn lemma_alternates(all: Seq<Turn>, kept: Seq<Turn>, i: int)
    requires
        takes_turns(all),
        forall|i: int| 0 <= i < all.len() ==> speaks((#[trigger] all[i]).0),
        kept.len() <= all.len(),
        kept == all.skip(all.len() - kept.len()),
        kept.len() > 0 ==> kept[0].0 != "assistant"@,
        0 <= i < kept.len(),
    ensures
        kept[i].0 == (if i % 2 == 0 {
            "user"@
        } else {
            "assistant"@
        }),
    decreases i,
{
    let dropped = all.len() - kept.len();
    assert(kept[i] == all[dropped + i]);
    assert(speaks(all[dropped + i].0));
    if i > 0 {
        lemma_alternates(all, kept, i - 1);
        assert(kept[i - 1] == all[dropped + i - 1]);
        assert(all[dropped + i - 1].0 != all[dropped + i].0);
    }
}

/// No text that a request says is blank.
pub proof fn law_no_blank_text(items: Seq<ItemModel>)
    ensures
        forall|i: int, text: Seq<char>|
            0 <= i < sayings(items).len() && (#[trigger] sayings(items)[i]).1 == #[trigger] text_part(
                text,
            ) ==> !is_blank(text),
    decreases items.len(),
{
    let f = |item: ItemModel| saying(item, call_input(item));
    if items.len() > 0 {
        law_no_blank_text(items.drop_last());
        assert(items.map_values(f).drop_last() =~= items.drop_last().map_values(f));
        assert(sayings(items.drop_last()) == present(items.drop_last().map_values(f)));
        let before = sayings(items.drop_last());
        assert forall|i: int, text: Seq<char>|
            0 <= i < sayings(items).len() && (#[trigger] sayings(items)[i]).1
                == #[trigger] text_part(text) implies !is_blank(text) by {
            if i < before.len() {
                assert(sayings(items)[i] == before[i]);
            } else {
                let said = saying(items.last(), call_input(items.last()))->0;
                let block = said.1;
                assert(block == text_part(text));
                assert(block->Object_0.len() == 2);
                assert(block->Object_0[1].1 == JsonTree::String(text));
            }
        }
    }
}

/// The names of the members of a request body are different texts.
proof fn lemma_body_names()
    ensures
        "model"@ != "max_tokens"@,
        "model"@ != "messages"@,
        "model"@ != "stream"@,
        "model"@ != "system"@,
        "model"@ != "tools"@,
        "model"@ != "tool_choice"@,
        "max_tokens"@ != "messages"@,
        "max_tokens"@ != "stream"@,
        "max_tokens"@ != "system"@,
        "max_tokens"@ != "tools"@,
        "max_tokens"@ != "tool_choice"@,
        "messages"@ != "stream"@,
        "messages"@ != "system"@,
        "messages"@ != "tools"@,
        "messages"@ != "tool_choice"@,
        "stream"@ != "system"@,
        "stream"@ != "tools"@,
        "stream"@ != "tool_choice"@,
        "system"@ != "tools"@,
        "system"@ != "tool_choice"@,
        "tools"@ != "tool_choice"@,
{
    reveal_strlit("model");
    reveal_strlit("max_tokens");
    reveal_strlit("messages");
    reveal_strlit("stream");
    reveal_strlit("system");
    reveal_strlit("tools");
    reveal_strlit("tool_choice");
    assert("model"@.len() == 5 && "max_tokens"@.len() == 10 && "messages"@.len() == 8);
    assert("stream"@.len() == 6 && "system"@.len() == 6);
    assert("tools"@.len() == 5 && "tool_choice"@.len() == 11);
    assert("model"@[0] == 'm' && "tools"@[0] == 't');
    assert("stream"@[1] == 't' && "system"@[1] == 'y');
}

/// Every request states its model, a ceiling on the tokens and its messages, and asks for a stream;
/// it has a system prompt, tools and a choice of tools exactly where there is one to state, and
/// nothing else.
pub proof fn law_anthropic_body_members(request: RequestModel)
    ensures
        ({
            let body = anthropic_body(request);
            let system = system_prompt(request.instructions, request.input);
            let tools = anthropic_tools(request.tools);
            &&& member(body, "model"@) == Some(JsonTree::String(request.model))
            &&& member(body, "max_tokens"@) == Some(
                JsonTree::Number(JsonNumber::Unsigned(16384)),
            )
            &&& member(body, "messages"@) == Some(
                JsonTree::Array(anthropic_messages(sayings(request.input))),
            )
            &&& member(body, "stream"@) == Some(JsonTree::Bool(true))
            &&& member(body, "system"@) == if system.len() > 0 {
                Some(JsonTree::String(system))
            } else {
                None
            }
            &&& member(body, "tools"@) == if tools.len() > 0 {
                Some(JsonTree::Array(tools))
            } else {
                None
            }
            &&& member(body, "tool_choice"@) == if tools.len() > 0 && request.tool_choice
                == "required"@ {
                Some(JsonTree::Object(seq![("type"@, JsonTree::String("any"@))]))
            } else {
                None
            }
            &&& body->Object_0.len() == 4 + (if system.len() > 0 {
                1int
            } else {
                0
            }) + (if tools.len() == 0 {
                0int
            } else if request.tool_choice == "required"@ {
                2
            } else {
                1
            })
        }),
{
    lemma_body_names();
    let members = anthropic_body(request)->Object_0;
    let s: int = if system_prompt(request.instructions, request.input).len() > 0 {
        1
    } else {
        0
    };
    lemma_key_index_is(members, "model"@, 0);
    lemma_key_index_is(members, "max_tokens"@, 1);
    lemma_key_index_is(members, "messages"@, 2);
    lemma_key_index_is(members, "stream"@, 3);
    lemma_key_index(members, "system"@);
    lemma_key_index(members, "tools"@);
    lemma_key_index(members, "tool_choice"@);
    if s == 1 {
        lemma_key_index_is(members, "system"@, 4);
    }
    if anthropic_tools(request.tools).len() > 0 {
        lemma_key_index_is(members, "tools"@, 4 + s);
        if request.tool_choice == "required"@ {
            lemma_key_index_is(members, "tool_choice"@, 5 + s);
        }
    }
}

} // verus!
