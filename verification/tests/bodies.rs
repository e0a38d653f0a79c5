use codex_api::endpoint::anthropic_body::{
    item_saying, push_anthropic_block, responses_body_to_anthropic_body,
    ANTHROPIC_DEFAULT_MAX_TOKENS,
};
use codex_api::endpoint::azure::normalize_responses_body_roles;
use codex_api::endpoint::chat_body::{
    chat_tool_call, content_items_to_chat_content, flush_pending_tool_calls,
    response_item_to_chat_message, response_items_to_chat_messages,
    responses_body_to_chat_completions_body,
};
use codex_api::endpoint::stream::{
    attaches_item_ids, path, plan_stream, stream_request_body, StreamBody, WireApiKind,
};
use codex_api::endpoint::tools::{
    response_tools_to_anthropic_tools, response_tools_to_chat_tools,
};
use codex_api::json::{Json, JsonNumber};
use codex_api::json_text::{json_of, parse_json};
use codex_api::protocol::{
    ApiError, ContentItem, FunctionCallOutputBody, FunctionCallOutputPayload, ResponseItem,
    ResponsesApiRequest,
};
use codex_api::reasoning::{
    reasoning_content_for_tool_call, remember_reasoning_content_for_tool_call, ReasoningStore,
};

fn text(s: &str) -> Json {
    Json::String(s.to_string())
}

fn object(members: Vec<(&str, Json)>) -> Json {
    Json::Object(members.into_iter().map(|(k, v)| (k.to_string(), v)).collect())
}

fn items(value: &Json) -> &Vec<Json> {
    match value {
        Json::Array(items) => items,
        other => panic!("no array: {other:?}"),
    }
}

fn at<'a>(value: &'a Json, key: &str) -> &'a Json {
    match value.get(key) {
        Some(found) => found,
        None => panic!("no member {key}"),
    }
}

fn input(role: &str, parts: &[&str]) -> ResponseItem {
    ResponseItem::Message {
        id: None,
        role: role.to_string(),
        content: parts.iter().map(|p| ContentItem::InputText { text: p.to_string() }).collect(),
        phase: None,
    }
}

fn call(call_id: &str, name: &str, arguments: &str) -> ResponseItem {
    ResponseItem::FunctionCall {
        id: None,
        name: name.to_string(),
        namespace: None,
        arguments: arguments.to_string(),
        call_id: call_id.to_string(),
    }
}

fn output(call_id: &str, body: &str) -> ResponseItem {
    ResponseItem::FunctionCallOutput {
        call_id: call_id.to_string(),
        output: FunctionCallOutputPayload {
            body: FunctionCallOutputBody::Text(body.to_string()),
            success: Some(true),
        },
    }
}

fn request(instructions: &str, input: Vec<ResponseItem>, tools: Vec<Json>) -> ResponsesApiRequest {
    ResponsesApiRequest {
        model: "m".to_string(),
        instructions: instructions.to_string(),
        input,
        tools,
        tool_choice: "auto".to_string(),
        parallel_tool_calls: true,
        store: false,
    }
}

fn function_tool() -> Json {
    object(vec![("type", text("function")), ("name", text("ls"))])
}

#[test]
fn azure_responses_role_normalizer_maps_unsupported_roles() {
    let message = |role: &str| {
        object(vec![
            ("type", text("message")),
            ("role", text(role)),
            ("content", Json::Array(vec![])),
        ])
    };
    let mut body = object(vec![(
        "input",
        Json::Array(vec![
            message("developer"),
            message("latest_reminder"),
            message("assistant"),
            message("surprise"),
            object(vec![("type", text("function_call")), ("call_id", text("call_123"))]),
        ]),
    )]);

    normalize_responses_body_roles(&mut body);

    let input = items(at(&body, "input"));
    assert_eq!(*at(&input[0], "role"), text("system"));
    assert_eq!(*at(&input[1], "role"), text("latest_reminder"));
    assert_eq!(*at(&input[2], "role"), text("assistant"));
    assert_eq!(*at(&input[3], "role"), text("user"));
    assert!(input[4].get("role").is_none());
}

#[test]
fn normalizing_leaves_other_bodies_alone() {
    for body in [
        Json::Null,
        text("input"),
        object(vec![("input", text("x")), ("role", text("developer"))]),
        object(vec![("input", Json::Array(vec![object(vec![("role", Json::Bool(true))])]))]),
    ] {
        let mut changed = body.clone();
        normalize_responses_body_roles(&mut changed);
        assert_eq!(changed, body);
    }
}

#[test]
fn chat_completions_function_call_includes_cached_reasoning_content() {
    let mut store = ReasoningStore::new();
    remember_reasoning_content_for_tool_call(
        &mut store,
        "call_reasoning",
        "Need to inspect the environment first.",
    );
    let item = ResponseItem::FunctionCall {
        id: None,
        name: "exec_command".to_string(),
        namespace: None,
        arguments: "{\"cmd\":\"pwd\"}".to_string(),
        call_id: "call_reasoning".to_string(),
    };

    let messages = response_items_to_chat_messages(&[item], &store);

    assert_eq!(
        *at(&messages[0], "reasoning_content"),
        text("Need to inspect the environment first.")
    );
    assert_eq!(
        *at(&items(at(&messages[0], "tool_calls"))[0], "id"),
        text("call_reasoning")
    );
}

#[test]
fn chat_completions_groups_consecutive_parallel_tool_calls() {
    let mut store = ReasoningStore::new();
    remember_reasoning_content_for_tool_call(&mut store, "call_first", "I need two lookups.");
    let conversation = vec![
        ResponseItem::FunctionCall {
            id: None,
            name: "exec_command".to_string(),
            namespace: None,
            arguments: "{\"cmd\":\"pwd\"}".to_string(),
            call_id: "call_first".to_string(),
        },
        ResponseItem::FunctionCall {
            id: None,
            name: "exec_command".to_string(),
            namespace: None,
            arguments: "{\"cmd\":\"ls\"}".to_string(),
            call_id: "call_second".to_string(),
        },
        ResponseItem::FunctionCallOutput {
            call_id: "call_first".to_string(),
            output: FunctionCallOutputPayload {
                body: FunctionCallOutputBody::Text("/tmp".to_string()),
                success: Some(true),
            },
        },
        ResponseItem::FunctionCallOutput {
            call_id: "call_second".to_string(),
            output: FunctionCallOutputPayload {
                body: FunctionCallOutputBody::Text("file".to_string()),
                success: Some(true),
            },
        },
    ];

    let messages = response_items_to_chat_messages(&conversation, &store);

    assert_eq!(messages.len(), 3);
    assert_eq!(*at(&messages[0], "role"), text("assistant"));
    assert_eq!(*at(&messages[0], "reasoning_content"), text("I need two lookups."));
    assert_eq!(items(at(&messages[0], "tool_calls")).len(), 2);
    assert_eq!(*at(&items(at(&messages[0], "tool_calls"))[0], "id"), text("call_first"));
    assert_eq!(*at(&items(at(&messages[0], "tool_calls"))[1], "id"), text("call_second"));
    assert_eq!(*at(&messages[1], "role"), text("tool"));
    assert_eq!(*at(&messages[1], "tool_call_id"), text("call_first"));
    assert_eq!(*at(&messages[2], "role"), text("tool"));
    assert_eq!(*at(&messages[2], "tool_call_id"), text("call_second"));
}

#[test]
fn blank_reasoning_is_not_kept() {
    let mut store = ReasoningStore::new();
    remember_reasoning_content_for_tool_call(&mut store, "a", " \n\t\u{3000}");
    assert_eq!(reasoning_content_for_tool_call(&store, "a"), None);
    remember_reasoning_content_for_tool_call(&mut store, "a", " one ");
    remember_reasoning_content_for_tool_call(&mut store, "b", "two");
    remember_reasoning_content_for_tool_call(&mut store, "a", "");
    assert_eq!(reasoning_content_for_tool_call(&store, "a"), Some(" one ".to_string()));
    assert_eq!(reasoning_content_for_tool_call(&store, "b"), Some("two".to_string()));
    assert_eq!(reasoning_content_for_tool_call(&store, "c"), None);
}

#[test]
fn calls_that_do_not_follow_on_one_another_stay_apart() {
    let mut store = ReasoningStore::new();
    remember_reasoning_content_for_tool_call(&mut store, "b", "why b");
    let conversation = [
        call("a", "f", "1"),
        call("b", "g", "2"),
        ResponseItem::Other,
        call("c", "h", "3"),
        input("developer", &["x", "y"]),
    ];
    let messages = response_items_to_chat_messages(&conversation, &store);
    assert_eq!(messages.len(), 3);
    assert_eq!(
        messages[0],
        object(vec![
            ("role", text("assistant")),
            ("content", Json::Null),
            (
                "tool_calls",
                Json::Array(vec![chat_tool_call("a", "f", "1"), chat_tool_call("b", "g", "2")])
            ),
            ("reasoning_content", text("why b")),
        ])
    );
    assert!(messages[1].get("reasoning_content").is_none());
    assert_eq!(
        messages[2],
        object(vec![("role", text("system")), ("content", text("x\ny"))])
    );
}

#[test]
fn flushing_nothing_changes_nothing() {
    let mut messages = vec![Json::Null];
    let mut calls: Vec<Json> = vec![];
    let mut reasoning = Some("kept".to_string());
    flush_pending_tool_calls(&mut messages, &mut calls, &mut reasoning);
    assert_eq!(messages, vec![Json::Null]);
    assert_eq!(reasoning, Some("kept".to_string()));
    calls.push(chat_tool_call("a", "f", "{}"));
    flush_pending_tool_calls(&mut messages, &mut calls, &mut reasoning);
    assert_eq!(messages.len(), 2);
    assert!(calls.is_empty());
    assert_eq!(reasoning, None);
}

#[test]
fn content_with_an_image_is_structured() {
    let content = [
        ContentItem::InputText { text: "look".to_string() },
        ContentItem::InputImage { image_url: "data:x".to_string() },
        ContentItem::OutputText { text: "ok".to_string() },
    ];
    assert_eq!(
        content_items_to_chat_content(&content),
        Json::Array(vec![
            object(vec![("type", text("text")), ("text", text("look"))]),
            object(vec![
                ("type", text("image_url")),
                ("image_url", object(vec![("url", text("data:x"))])),
            ]),
            object(vec![("type", text("text")), ("text", text("ok"))]),
        ])
    );
    assert_eq!(content_items_to_chat_content(&[]), text(""));
}

#[test]
fn items_become_chat_messages() {
    assert_eq!(
        response_item_to_chat_message(&call("i", "n", "a")),
        Some(object(vec![
            ("role", text("assistant")),
            ("content", Json::Null),
            ("tool_calls", Json::Array(vec![chat_tool_call("i", "n", "a")])),
        ]))
    );
    let without_text = ResponseItem::FunctionCallOutput {
        call_id: "i".to_string(),
        output: FunctionCallOutputPayload {
            body: FunctionCallOutputBody::ContentItems { text: None },
            success: None,
        },
    };
    assert_eq!(
        response_item_to_chat_message(&without_text),
        Some(object(vec![
            ("role", text("tool")),
            ("tool_call_id", text("i")),
            ("content", text("")),
        ]))
    );
    assert_eq!(response_item_to_chat_message(&ResponseItem::Other), None);
}

#[test]
fn chat_tool_call_is_spelled_out() {
    assert_eq!(
        chat_tool_call("i", "n", "{}"),
        object(vec![
            ("id", text("i")),
            ("type", text("function")),
            ("function", object(vec![("name", text("n")), ("arguments", text("{}"))])),
        ])
    );
}

#[test]
fn only_named_functions_are_offered() {
    let tools = vec![
        object(vec![("type", text("web_search")), ("name", text("w"))]),
        object(vec![("type", text("function"))]),
        object(vec![("type", text("function")), ("name", Json::Bool(true))]),
        object(vec![
            ("type", text("function")),
            ("name", text("ls")),
            ("description", Json::Null),
            ("parameters", object(vec![("type", text("object"))])),
        ]),
        function_tool(),
        Json::Null,
    ];
    let open = object(vec![("type", text("object")), ("properties", object(vec![]))]);
    let chat = response_tools_to_chat_tools(&tools);
    assert_eq!(chat.len(), 3);
    assert_eq!(*at(at(&chat[0], "function"), "name"), Json::Bool(true));
    assert_eq!(*at(at(&chat[1], "function"), "description"), Json::Null);
    assert_eq!(
        chat[2],
        object(vec![
            ("type", text("function")),
            (
                "function",
                object(vec![
                    ("name", text("ls")),
                    ("description", text("")),
                    ("parameters", open.clone()),
                ])
            ),
        ])
    );
    let anthropic = response_tools_to_anthropic_tools(&tools);
    assert_eq!(anthropic.len(), 2);
    assert_eq!(*at(&anthropic[0], "description"), text(""));
    assert_eq!(*at(&anthropic[0], "input_schema"), object(vec![("type", text("object"))]));
    assert_eq!(
        anthropic[1],
        object(vec![("name", text("ls")), ("description", text("")), ("input_schema", open)])
    );
}

#[test]
fn chat_body_states_tools_only_where_there_are_any() {
    let store = ReasoningStore::new();
    let plain = responses_body_to_chat_completions_body(
        Ok(request("be brief", vec![input("user", &["hi"])], vec![])),
        &store,
    )
    .unwrap();
    assert_eq!(
        plain,
        object(vec![
            ("model", text("m")),
            (
                "messages",
                Json::Array(vec![
                    object(vec![("role", text("system")), ("content", text("be brief"))]),
                    object(vec![("role", text("user")), ("content", text("hi"))]),
                ])
            ),
            ("stream", Json::Bool(true)),
            ("stream_options", object(vec![("include_usage", Json::Bool(true))])),
        ])
    );
    let tooled = responses_body_to_chat_completions_body(
        Ok(request("  ", vec![], vec![function_tool()])),
        &store,
    )
    .unwrap();
    assert!(items(at(&tooled, "messages")).is_empty());
    assert_eq!(items(at(&tooled, "tools")).len(), 1);
    assert_eq!(*at(&tooled, "tool_choice"), text("auto"));
    assert_eq!(*at(&tooled, "parallel_tool_calls"), Json::Bool(true));
}

#[test]
fn undecodable_requests_are_reported() {
    let store = ReasoningStore::new();
    assert_eq!(
        responses_body_to_chat_completions_body(Err("no".to_string()), &store),
        Err(ApiError::Stream(
            "failed to decode responses request for chat completions: no".to_string()
        ))
    );
    assert_eq!(
        responses_body_to_anthropic_body(Err("no".to_string())),
        Err(ApiError::Stream("failed to decode responses request for anthropic: no".to_string()))
    );
    assert_eq!(
        stream_request_body(Err("no".to_string()), true),
        Err(ApiError::Stream("failed to encode responses request: no".to_string()))
    );
}

#[test]
fn anthropic_messages_take_turns_from_the_user_on() {
    let conversation = vec![
        input("assistant", &["leading"]),
        input("developer", &["rules"]),
        input("user", &["hi", "there"]),
        input("user", &["  "]),
        input("assistant", &["looking"]),
        call("c1", "ls", "{\"p\": [1, -2, 0.5, null, \"x\"]}"),
        call("c2", "ls", "not json"),
        output("c1", "one"),
        output("c2", "two"),
        input("user", &["and?"]),
        input("stranger", &["ignored"]),
        input("latest_reminder", &["soon"]),
    ];
    let body = responses_body_to_anthropic_body(Ok(request("be brief", conversation, vec![])))
        .unwrap();
    assert_eq!(*at(&body, "model"), text("m"));
    assert_eq!(*at(&body, "max_tokens"), Json::Number(JsonNumber::Unsigned(16384)));
    assert_eq!(ANTHROPIC_DEFAULT_MAX_TOKENS, 16384);
    assert_eq!(*at(&body, "stream"), Json::Bool(true));
    assert_eq!(*at(&body, "system"), text("be brief\n\nrules\n\nsoon"));
    assert!(body.get("tools").is_none());
    assert!(body.get("tool_choice").is_none());
    let messages = items(at(&body, "messages"));
    assert_eq!(messages.len(), 3);
    assert_eq!(
        messages[0],
        object(vec![
            ("role", text("user")),
            (
                "content",
                Json::Array(vec![object(vec![("type", text("text")), ("text", text("hi\nthere"))])])
            ),
        ])
    );
    assert_eq!(*at(&messages[1], "role"), text("assistant"));
    let said = items(at(&messages[1], "content"));
    assert_eq!(said.len(), 3);
    assert_eq!(
        said[1],
        object(vec![
            ("type", text("tool_use")),
            ("id", text("c1")),
            ("name", text("ls")),
            (
                "input",
                object(vec![(
                    "p",
                    Json::Array(vec![
                        Json::Number(JsonNumber::Unsigned(1)),
                        Json::Number(JsonNumber::Negative(-2)),
                        Json::Number(JsonNumber::Double(0.5f64.to_bits())),
                        Json::Null,
                        text("x"),
                    ])
                )])
            ),
        ])
    );
    assert_eq!(*at(&said[2], "input"), object(vec![]));
    let results = items(at(&messages[2], "content"));
    assert_eq!(results.len(), 3);
    assert_eq!(
        results[0],
        object(vec![
            ("type", text("tool_result")),
            ("tool_use_id", text("c1")),
            ("content", text("one")),
        ])
    );
    assert_eq!(*at(&results[2], "text"), text("and?"));
}

#[test]
fn anthropic_tool_choice_is_stated_where_it_is_required() {
    let mut asked = request("", vec![], vec![function_tool()]);
    asked.tool_choice = "required".to_string();
    let body = responses_body_to_anthropic_body(Ok(asked)).unwrap();
    assert_eq!(*at(&body, "tool_choice"), object(vec![("type", text("any"))]));
    assert_eq!(items(at(&body, "tools")).len(), 1);
    assert!(body.get("system").is_none());
    let auto = responses_body_to_anthropic_body(Ok(request("", vec![], vec![function_tool()])));
    assert!(auto.unwrap().get("tool_choice").is_none());
    let mut bare = request("", vec![], vec![]);
    bare.tool_choice = "required".to_string();
    assert!(responses_body_to_anthropic_body(Ok(bare)).unwrap().get("tool_choice").is_none());
}

#[test]
fn item_saying_takes_the_input_that_was_read() {
    let (role, block) = item_saying(&call("c", "n", "ignored"), Some(Json::Bool(true))).unwrap();
    assert_eq!(role, "assistant");
    assert_eq!(*at(&block, "input"), Json::Bool(true));
    let (_, block) = item_saying(&call("c", "n", "ignored"), None).unwrap();
    assert_eq!(*at(&block, "input"), object(vec![]));
    assert_eq!(item_saying(&input("system", &["x"]), None), None);
}

#[test]
fn blocks_merge_into_the_last_message_of_the_same_role() {
    let mut messages = vec![];
    push_anthropic_block(&mut messages, "user", text("a"));
    push_anthropic_block(&mut messages, "user", text("b"));
    push_anthropic_block(&mut messages, "assistant", text("c"));
    assert_eq!(
        messages,
        vec![
            object(vec![
                ("role", text("user")),
                ("content", Json::Array(vec![text("a"), text("b")]))
            ]),
            object(vec![("role", text("assistant")), ("content", Json::Array(vec![text("c")]))]),
        ]
    );
    let mut odd = vec![object(vec![("role", text("user")), ("content", text("plain"))])];
    push_anthropic_block(&mut odd, "user", text("a"));
    assert_eq!(odd.len(), 2);
    assert_eq!(*at(&odd[0], "content"), text("plain"));
    let mut empty = vec![object(vec![("role", text("user"))])];
    push_anthropic_block(&mut empty, "user", text("a"));
    assert_eq!(empty.len(), 2);
    assert_eq!(*at(&empty[0], "content"), Json::Null);
}

#[test]
fn json_text_is_read() {
    assert_eq!(
        parse_json(" {\"b\": [true], \"a\": 18446744073709551615} "),
        Some(object(vec![
            ("a", Json::Number(JsonNumber::Unsigned(u64::MAX))),
            ("b", Json::Array(vec![Json::Bool(true)])),
        ]))
    );
    assert_eq!(parse_json("{\"a\": 1} x"), None);
    assert_eq!(parse_json(""), None);
    let document: serde_json::Value = serde_json::from_str("\"s\"").unwrap();
    assert_eq!(json_of(&document), text("s"));
}

#[test]
fn members_are_set_and_replaced() {
    let mut value = object(vec![("a", Json::Null), ("a", Json::Bool(true))]);
    value.set_member("a", text("x"));
    value.set_member("b", text("y"));
    assert_eq!(value.get("a"), Some(&text("x")));
    assert_eq!(value.get("b"), Some(&text("y")));
    assert_eq!(value.replace_member("b", Json::Null), Some(text("y")));
    assert_eq!(value.replace_member("c", Json::Null), None);
    assert_eq!(value.get("c"), None);
    let mut other = Json::Bool(true);
    other.set_member("a", Json::Null);
    assert_eq!(other, Json::Bool(true));
}

#[test]
fn requests_are_planned_for_their_interface() {
    let store = ReasoningStore::new();
    let kept = plan_stream(StreamBody::Responses(text("body")), &store).unwrap();
    assert_eq!((kept.path, kept.wire_api), ("responses", WireApiKind::Responses));
    assert_eq!(kept.body, text("body"));
    let chat =
        plan_stream(StreamBody::ChatCompletions(Ok(request("", vec![], vec![]))), &store).unwrap();
    assert_eq!((chat.path, chat.wire_api), ("chat/completions", WireApiKind::ChatCompletions));
    assert!(chat.body.get("stream_options").is_some());
    let anthropic =
        plan_stream(StreamBody::Anthropic(Ok(request("", vec![], vec![]))), &store).unwrap();
    assert_eq!((anthropic.path, anthropic.wire_api), ("v1/messages", WireApiKind::Anthropic));
    assert!(anthropic.body.get("max_tokens").is_some());
    assert!(plan_stream(StreamBody::Anthropic(Err("no".to_string())), &store).is_err());
    assert_eq!(path(WireApiKind::Responses), "responses");
}

#[test]
fn azure_bodies_get_known_roles() {
    let body = object(vec![("input", Json::Array(vec![object(vec![("role", text("odd"))])]))]);
    let fit = stream_request_body(Ok(body.clone()), true).unwrap();
    assert_eq!(*at(&items(at(&fit, "input"))[0], "role"), text("user"));
    assert_eq!(stream_request_body(Ok(body.clone()), false).unwrap(), body);
    assert!(attaches_item_ids(true, true));
    assert!(!attaches_item_ids(true, false) && !attaches_item_ids(false, true));
}

#[test]
fn normalizing_twice_is_normalizing_once() {
    let mut body = object(vec![
        ("model", text("m")),
        (
            "input",
            Json::Array(vec![
                object(vec![("role", text("developer")), ("n", Json::Bool(true))]),
                object(vec![("role", text("odd"))]),
            ]),
        ),
    ]);
    normalize_responses_body_roles(&mut body);
    let once = body.clone();
    normalize_responses_body_roles(&mut body);
    assert_eq!(body, once);
    assert_eq!(*at(&body, "model"), text("m"));
    assert_eq!(*at(&items(at(&body, "input"))[0], "n"), Json::Bool(true));
}

#[test]
fn tool_results_stay_ahead_of_later_text() {
    let conversation = vec![
        input("user", &["go"]),
        call("c1", "ls", "{}"),
        output("c1", "one"),
        input("user", &["thanks"]),
    ];
    let body = responses_body_to_anthropic_body(Ok(request("", conversation, vec![]))).unwrap();
    let messages = items(at(&body, "messages"));
    assert_eq!(messages.len(), 3);
    let last = items(at(&messages[2], "content"));
    assert_eq!(*at(&last[0], "type"), text("tool_result"));
    assert_eq!(*at(&last[1], "text"), text("thanks"));
    let silent = responses_body_to_anthropic_body(Ok(request(
        "",
        vec![input("assistant", &["alone"]), call("c", "f", "{}")],
        vec![],
    )))
    .unwrap();
    assert!(items(at(&silent, "messages")).is_empty());
}
