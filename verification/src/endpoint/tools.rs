//! The tools that a request offers, as the endpoints take them.
use crate::json::{
    json_member, json_object, json_text, lemma_key_index_is, member, Json, JsonTree,
};
use crate::seqs::{lemma_present_push, present};
use crate::text::str_eq;
use vstd::prelude::*;

verus! {

/// Holds of a tool that is a function.
pub open spec fn is_function(tool: JsonTree) -> bool {
    member(tool, "type"@) == Some(JsonTree::String("function"@))
}

/// The schema of parameters of which nothing is known.
pub open spec fn open_schema() -> JsonTree {
    JsonTree::Object(
        seq![
            ("type"@, JsonTree::String("object"@)),
            ("properties"@, JsonTree::Object(Seq::empty())),
        ],
    )
}

/// The schema of the parameters of a tool.
pub open spec fn parameters(tool: JsonTree) -> JsonTree {
    match member(tool, "parameters"@) {
        Some(schema) => schema,
        None => open_schema(),
    }
}

/// A tool as a chat completions endpoint takes it. Only functions with a name are offered.
pub open spec fn chat_tool(tool: JsonTree) -> Option<JsonTree> {
    if is_function(tool) {
        match member(tool, "name"@) {
            Some(name) => Some(
                JsonTree::Object(
                    seq![
                        ("type"@, JsonTree::String("function"@)),
                        (
                            "function"@,
                            JsonTree::Object(
                                seq![
                                    ("name"@, name),
                                    (
                                        "description"@,
                                        match member(tool, "description"@) {
                                            Some(description) => description,
                                            None => JsonTree::String(Seq::empty()),
                                        },
                                    ),
                                    ("parameters"@, parameters(tool)),
                                ],
                            ),
                        ),
                    ],
                ),
            ),
            None => None,
        }
    } else {
        None
    }
}

/// Tools as a chat completions endpoint takes them, in order.
pub open spec fn chat_tools(tools: Seq<JsonTree>) -> Seq<JsonTree> {
    present(tools.map_values(|tool: JsonTree| chat_tool(tool)))
}

/// A tool as an Anthropic endpoint takes it. Only functions whose name is a string are offered;
/// a description that is no string is passed over.
pub open spec fn anthropic_tool(tool: JsonTree) -> Option<JsonTree> {
    if is_function(tool) {
        match member(tool, "name"@) {
            Some(JsonTree::String(name)) => Some(
                JsonTree::Object(
                    seq![
                        ("name"@, JsonTree::String(name)),
                        (
                            "description"@,
                            match member(tool, "description"@) {
                                Some(JsonTree::String(description)) => JsonTree::String(
                                    description,
                                ),
                                _ => JsonTree::String(Seq::empty()),
                            },
                        ),
                        ("input_schema"@, parameters(tool)),
                    ],
                ),
            ),
            _ => None,
        }
    } else {
        None
    }
}

/// Tools as an Anthropic endpoint takes them, in order.
pub open spec fn anthropic_tools(tools: Seq<JsonTree>) -> Seq<JsonTree> {
    present(tools.map_values(|tool: JsonTree| anthropic_tool(tool)))
}

fn is_function_tool(tool: &Json) -> (yes: bool)
    ensures
        yes == is_function(tool.deep_view()),
{
    match tool.get("type") {
        Some(kind) => match kind.as_str() {
            Some(kind) => str_eq(kind, "function"),
            None => false,
        },
        None => false,
    }
}

fn parameters_of(tool: &Json) -> (schema: Json)
    ensures
        schema.deep_view() == parameters(tool.deep_view()),
{
    match tool.get("parameters") {
        Some(schema) => schema.clone(),
        None => {
            let none: Vec<(String, Json)> = Vec::new();
            assert(none.deep_view() =~= Seq::empty());
            let schema = json_object(
                vec![
                    json_member("type", json_text("object")),
                    json_member("properties", json_object(none)),
                ],
            );
            assert(schema.deep_view()->Object_0 =~= open_schema()->Object_0);
            schema
        },
    }
}

fn chat_tool_of(tool: &Json) -> (offered: Option<Json>)
    ensures
        offered.deep_view() == chat_tool(tool.deep_view()),
{
    if !is_function_tool(tool) {
        return None;
    }
    match tool.get("name") {
        Some(name) => {
            let description = match tool.get("description") {
                Some(description) => description.clone(),
                None => Json::String(String::new()),
            };
            let ghost model = chat_tool(tool.deep_view())->0;
            let function = json_object(
                vec![
                    json_member("name", name.clone()),
                    json_member("description", description),
                    json_member("parameters", parameters_of(tool)),
                ],
            );
            assert(function.deep_view()->Object_0 =~= model->Object_0[1].1->Object_0);
            let offered = json_object(
                vec![
                    json_member("type", json_text("function")),
                    json_member("function", function),
                ],
            );
            assert(offered.deep_view()->Object_0 =~= model->Object_0);
            Some(offered)
        },
        None => None,
    }
}

/// The tools that a chat completions endpoint is offered.
pub fn response_tools_to_chat_tools(tools: &[Json]) -> (offered: Vec<Json>)
    ensures
        offered.deep_view() == chat_tools(tools.deep_view()),
{
    let ghost found = tools.deep_view().map_values(|tool: JsonTree| chat_tool(tool));
    let mut offered: Vec<Json> = Vec::new();
    assert(offered.deep_view() =~= present(found.take(0)));
    let mut i: usize = 0;
    while i < tools.len()
        invariant
            i <= tools.len(),
            found == tools.deep_view().map_values(|tool: JsonTree| chat_tool(tool)),
            offered.deep_view() == present(found.take(i as int)),
        decreases tools.len() - i,
    {
        let ghost before = offered.deep_view();
        proof {
            lemma_present_push(found.take(i as int), found[i as int]);
            assert(found.take(i + 1) =~= found.take(i as int).push(found[i as int]));
            assert(found[i as int] == chat_tool(tools@[i as int].deep_view()));
        }
        if let Some(tool) = chat_tool_of(&tools[i]) {
            let ghost added = tool.deep_view();
            offered.push(tool);
            assert(offered.deep_view() =~= before.push(added));
        }
        i += 1;
    }
    assert(found.take(tools.len() as int) =~= found);
    offered
}

fn anthropic_tool_of(tool: &Json) -> (offered: Option<Json>)
    ensures
        offered.deep_view() == anthropic_tool(tool.deep_view()),
{
    if !is_function_tool(tool) {
        return None;
    }
    let name = match tool.get("name") {
        Some(name) => name.as_str(),
        None => None,
    };
    match name {
        Some(name) => {
            let description = match tool.get("description") {
                Some(description) => description.as_str(),
                None => None,
            };
            let description = match description {
                Some(description) => description.to_string(),
                None => String::new(),
            };
            let ghost model = anthropic_tool(tool.deep_view())->0;
            let offered = json_object(
                vec![
                    json_member("name", json_text(name)),
                    json_member("description", Json::String(description)),
                    json_member("input_schema", parameters_of(tool)),
                ],
            );
            assert(offered.deep_view()->Object_0 =~= model->Object_0);
            Some(offered)
        },
        None => None,
    }
}

/// The tools that an Anthropic endpoint is offered.
pub fn response_tools_to_anthropic_tools(tools: &[Json]) -> (offered: Vec<Json>)
    ensures
        offered.deep_view() == anthropic_tools(tools.deep_view()),
{
    let ghost found = tools.deep_view().map_values(|tool: JsonTree| anthropic_tool(tool));
    let mut offered: Vec<Json> = Vec::new();
    assert(offered.deep_view() =~= present(found.take(0)));
    let mut i: usize = 0;
    while i < tools.len()
        invariant
            i <= tools.len(),
            found == tools.deep_view().map_values(|tool: JsonTree| anthropic_tool(tool)),
            offered.deep_view() == present(found.take(i as int)),
        decreases tools.len() - i,
    {
        let ghost before = offered.deep_view();
        proof {
            lemma_present_push(found.take(i as int), found[i as int]);
            assert(found.take(i + 1) =~= found.take(i as int).push(found[i as int]));
            assert(found[i as int] == anthropic_tool(tools@[i as int].deep_view()));
        }
        if let Some(tool) = anthropic_tool_of(&tools[i]) {
            let ghost added = tool.deep_view();
            offered.push(tool);
            assert(offered.deep_view() =~= before.push(added));
        }
        i += 1;
    }
    assert(found.take(tools.len() as int) =~= found);
    offered
}

/// What an Anthropic endpoint is offered, a chat completions endpoint is offered too, and neither is
/// offered more tools than there are.
pub proof fn law_offered_tools(tools: Seq<JsonTree>)
    ensures
        anthropic_tools(tools).len() <= chat_tools(tools).len() <= tools.len(),
        forall|tool: JsonTree| #[trigger]
            anthropic_tool(tool) is Some ==> chat_tool(tool) is Some && is_function(tool),
    decreases tools.len(),
{
    let f = |tool: JsonTree| anthropic_tool(tool);
    let g = |tool: JsonTree| chat_tool(tool);
    if tools.len() > 0 {
        law_offered_tools(tools.drop_last());
        assert(tools.map_values(f).drop_last() =~= tools.drop_last().map_values(f));
        assert(tools.map_values(g).drop_last() =~= tools.drop_last().map_values(g));
        assert(anthropic_tools(tools.drop_last()) == present(tools.drop_last().map_values(f)));
        assert(chat_tools(tools.drop_last()) == present(tools.drop_last().map_values(g)));
    }
}

/// The schema that stands for parameters of which a tool says nothing.
pub open spec fn any_parameters() -> JsonTree {
    JsonTree::Object(
        seq![
            ("type"@, JsonTree::String("object"@)),
            ("properties"@, JsonTree::Object(Seq::empty())),
        ],
    )
}

/// A function with a name is offered to a chat completions endpoint with that name, with its own
/// description and with its own parameters, whatever these are. A missing description is an empty
/// text, missing parameters are an open schema. Anything else is not offered.
pub proof fn law_chat_tool(tool: JsonTree)
    ensures
        member(tool, "type"@) == Some(JsonTree::String("function"@)) && member(
            tool,
            "name"@,
        ) is Some ==> {
            &&& chat_tool(tool) is Some
            &&& member(chat_tool(tool)->0, "type"@) == Some(JsonTree::String("function"@))
            &&& member(chat_tool(tool)->0, "function"@) matches Some(function) && {
                &&& member(function, "name"@) == member(tool, "name"@)
                &&& member(tool, "description"@) is Some ==> member(function, "description"@)
                    == member(tool, "description"@)
                &&& member(tool, "description"@) is None ==> member(function, "description"@)
                    == Some(JsonTree::String(Seq::empty()))
                &&& member(tool, "parameters"@) is Some ==> member(function, "parameters"@)
                    == member(tool, "parameters"@)
                &&& member(tool, "parameters"@) is None ==> member(function, "parameters"@) == Some(
                    any_parameters(),
                )
            }
        },
        !(member(tool, "type"@) == Some(JsonTree::String("function"@)) && member(
            tool,
            "name"@,
        ) is Some) ==> chat_tool(tool) is None,
{
    lemma_tool_names();
    if member(tool, "type"@) == Some(JsonTree::String("function"@)) && member(tool, "name"@) is Some {
        let members = chat_tool(tool)->0->Object_0;
        lemma_key_index_is(members, "type"@, 0);
        lemma_key_index_is(members, "function"@, 1);
        let inner = members[1].1->Object_0;
        lemma_key_index_is(inner, "name"@, 0);
        lemma_key_index_is(inner, "description"@, 1);
        lemma_key_index_is(inner, "parameters"@, 2);
    }
}

/// Holds of a tool whose name is a text.
pub open spec fn has_text_name(tool: JsonTree) -> bool {
    member(tool, "name"@) matches Some(JsonTree::String(_))
}

/// A function whose name is a text is offered to an Anthropic endpoint with that name, with its own
/// description where that is a text, and with its own parameters as the schema of the input, whatever
/// these are. Any other description is an empty text, missing parameters are an open schema. Anything
/// else is not offered.
pub proof fn law_anthropic_tool(tool: JsonTree)
    ensures
        member(tool, "type"@) == Some(JsonTree::String("function"@)) && has_text_name(tool) ==> {
            &&& anthropic_tool(tool) is Some
            &&& member(anthropic_tool(tool)->0, "name"@) == member(tool, "name"@)
            &&& member(tool, "description"@) matches Some(JsonTree::String(description)) ==> member(
                anthropic_tool(tool)->0,
                "description"@,
            ) == Some(JsonTree::String(description))
            &&& !(member(tool, "description"@) matches Some(JsonTree::String(_))) ==> member(
                anthropic_tool(tool)->0,
                "description"@,
            ) == Some(JsonTree::String(Seq::empty()))
            &&& member(tool, "parameters"@) is Some ==> member(
                anthropic_tool(tool)->0,
                "input_schema"@,
            ) == member(tool, "parameters"@)
            &&& member(tool, "parameters"@) is None ==> member(
                anthropic_tool(tool)->0,
                "input_schema"@,
            ) == Some(any_parameters())
        },
        !(member(tool, "type"@) == Some(JsonTree::String("function"@)) && has_text_name(tool))
            ==> anthropic_tool(tool) is None,
{
    lemma_tool_names();
    if anthropic_tool(tool) is Some {
        let members = anthropic_tool(tool)->0->Object_0;
        lemma_key_index_is(members, "name"@, 0);
        lemma_key_index_is(members, "description"@, 1);
        lemma_key_index_is(members, "input_schema"@, 2);
    }
}

/// Tools are offered one by one and in their order: no tool changes what is offered of another.
pub proof fn law_tools_one_by_one(tools: Seq<JsonTree>, tool: JsonTree)
    ensures
        chat_tools(Seq::empty()).len() == 0,
        anthropic_tools(Seq::empty()).len() == 0,
        chat_tool(tool) matches Some(offered) ==> chat_tools(tools.push(tool)) == chat_tools(
            tools,
        ).push(offered),
        chat_tool(tool) is None ==> chat_tools(tools.push(tool)) == chat_tools(tools),
        anthropic_tool(tool) matches Some(offered) ==> anthropic_tools(tools.push(tool))
            == anthropic_tools(tools).push(offered),
        anthropic_tool(tool) is None ==> anthropic_tools(tools.push(tool)) == anthropic_tools(
            tools,
        ),
{
    let f = |tool: JsonTree| chat_tool(tool);
    let g = |tool: JsonTree| anthropic_tool(tool);
    assert(tools.push(tool).map_values(f) =~= tools.map_values(f).push(chat_tool(tool)));
    assert(tools.push(tool).map_values(g) =~= tools.map_values(g).push(anthropic_tool(tool)));
    lemma_present_push(tools.map_values(f), chat_tool(tool));
    lemma_present_push(tools.map_values(g), anthropic_tool(tool));
}

/// The names of the members of tools are different texts.
proof fn lemma_tool_names()
    ensures
        "type"@ != "function"@,
        "name"@ != "description"@,
        "name"@ != "parameters"@,
        "description"@ != "parameters"@,
        "name"@ != "input_schema"@,
        "description"@ != "input_schema"@,
{
    reveal_strlit("type");
    reveal_strlit("function");
    reveal_strlit("name");
    reveal_strlit("description");
    reveal_strlit("parameters");
    reveal_strlit("input_schema");
    assert("type"@.len() == 4 && "function"@.len() == 8 && "name"@.len() == 4);
    assert("description"@.len() == 11 && "parameters"@.len() == 10 && "input_schema"@.len() == 12);
}

} // verus!
