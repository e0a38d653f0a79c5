use codex_api::endpoint::chat_body::response_items_to_chat_messages;
use codex_api::json::Json;
use codex_api::protocol::{
    ApiError, ContentItem, ResponseEvent, ResponseItem, StreamItem, TokenUsage,
};
use codex_api::reasoning::{reasoning_content_for_tool_call, ReasoningStore};
use codex_api::sse::chat_completions::ChatStream;
use codex_api::sse::chat_events::{
    ChatChoice, ChatCompletionChunk, ChatDelta, ChatFunctionDelta, ChatToolCallDelta, ChatUsage,
};
use codex_api::sse::{SseInput, Step};

fn own(s: &str) -> Option<String> {
    Some(s.to_string())
}

fn choice(content: Option<&str>, reasoning: Option<&str>) -> ChatChoice {
    ChatChoice {
        delta: ChatDelta {
            content: content.map(str::to_string),
            reasoning_content: reasoning.map(str::to_string),
            tool_calls: None,
        },
    }
}

fn tool(index: usize, id: Option<&str>, name: Option<&str>, arguments: &str) -> ChatToolCallDelta {
    ChatToolCallDelta {
        index,
        id: id.map(str::to_string),
        function: Some(ChatFunctionDelta {
            name: name.map(str::to_string),
            arguments: own(arguments),
        }),
    }
}

fn calls(deltas: Vec<ChatToolCallDelta>) -> ChatChoice {
    ChatChoice {
        delta: ChatDelta { content: None, reasoning_content: None, tool_calls: Some(deltas) },
    }
}

fn chunk(id: Option<&str>, choices: Vec<ChatChoice>) -> ChatCompletionChunk {
    ChatCompletionChunk { id: id.map(str::to_string), choices, usage: None }
}

fn send(s: &mut ChatStream, store: &mut ReasoningStore, chunk: ChatCompletionChunk) -> Step {
    s.step(SseInput::Event { data: "{}".to_string(), decoded: Ok(chunk) }, store)
}

fn message(content: Vec<ContentItem>) -> ResponseItem {
    ResponseItem::Message { id: None, role: "assistant".to_string(), content, phase: None }
}

fn done_call(id: &str, name: &str, arguments: &str) -> StreamItem {
    Ok(ResponseEvent::OutputItemDone(ResponseItem::FunctionCall {
        id: None,
        name: name.to_string(),
        namespace: None,
        arguments: arguments.to_string(),
        call_id: id.to_string(),
    }))
}

#[test]
fn a_chat_stream_from_start_to_end() {
    let mut s = ChatStream::new();
    let mut store = ReasoningStore::new();
    let first = send(
        &mut s,
        &mut store,
        chunk(
            Some("chat-1"),
            vec![choice(Some(""), Some("think ")), choice(Some("a"), None), choice(Some("b"), None)],
        ),
    );
    assert!(!first.done);
    assert_eq!(
        first.items,
        vec![
            Ok(ResponseEvent::OutputItemAdded(message(vec![]))),
            Ok(ResponseEvent::OutputTextDelta("a".to_string())),
            Ok(ResponseEvent::OutputTextDelta("b".to_string())),
        ]
    );
    let second = send(
        &mut s,
        &mut store,
        chunk(
            None,
            vec![
                choice(Some("c"), Some("hard")),
                calls(vec![
                    tool(1, Some("c1"), Some("ls"), "{\"p\""),
                    tool(0, Some("old"), Some("cat"), "x"),
                    tool(1, None, None, ":1}"),
                    tool(0, Some("c0"), None, "y"),
                    tool(2, Some("nameless"), None, "z"),
                ]),
            ],
        ),
    );
    assert_eq!(second.items, vec![Ok(ResponseEvent::OutputTextDelta("c".to_string()))]);
    send(
        &mut s,
        &mut store,
        ChatCompletionChunk {
            id: None,
            choices: vec![],
            usage: Some(ChatUsage {
                prompt_tokens: Some(3),
                completion_tokens: None,
                total_tokens: Some(9),
            }),
        },
    );
    let end = s.step(
        SseInput::Event { data: " [DONE]\n".to_string(), decoded: Err("no json".to_string()) },
        &mut store,
    );
    assert!(end.done);
    assert_eq!(
        end.items,
        vec![
            Ok(ResponseEvent::OutputItemDone(message(vec![ContentItem::OutputText {
                text: "abc".to_string()
            }]))),
            done_call("c0", "cat", "xy"),
            done_call("c1", "ls", "{\"p\":1}"),
            Ok(ResponseEvent::Completed {
                response_id: "chat-1".to_string(),
                token_usage: Some(TokenUsage {
                    input_tokens: 3,
                    cached_input_tokens: 0,
                    output_tokens: 0,
                    reasoning_output_tokens: 0,
                    total_tokens: 9,
                }),
                end_turn: Some(true),
            }),
        ]
    );
    assert_eq!(reasoning_content_for_tool_call(&store, "c0"), own("think hard"));
    assert_eq!(reasoning_content_for_tool_call(&store, "c1"), own("think hard"));
    assert_eq!(reasoning_content_for_tool_call(&store, "nameless"), None);
}

#[test]
fn a_silent_chat_completes_with_a_stand_in_id() {
    let mut store = ReasoningStore::new();
    let end = ChatStream::new().step(SseInput::End, &mut store);
    assert!(end.done);
    assert_eq!(
        end.items,
        vec![Ok(ResponseEvent::Completed {
            response_id: "chatcmpl-codex".to_string(),
            token_usage: None,
            end_turn: Some(true),
        })]
    );
}

#[test]
fn chat_failures_end_the_stream() {
    let broken = |input: SseInput<ChatCompletionChunk>| {
        let mut store = ReasoningStore::new();
        let step = ChatStream::new().step(input, &mut store);
        assert!(step.done);
        step.items
    };
    let failed = |message: &str| vec![Err(ApiError::Stream(message.to_string()))];
    assert_eq!(
        broken(SseInput::TransportError("reset".to_string())),
        failed("chat completions SSE error: reset")
    );
    assert_eq!(broken(SseInput::IdleTimeout), failed("chat completions stream idle timeout"));
    assert_eq!(
        broken(SseInput::Event { data: "\t{x ".to_string(), decoded: Err("bad".to_string()) }),
        failed("failed to parse chat completions chunk: bad: {x")
    );
}

#[test]
fn reasoning_goes_back_with_its_calls() {
    let mut s = ChatStream::new();
    let mut store = ReasoningStore::new();
    let deltas = vec![tool(0, Some("a"), Some("f"), "1"), tool(1, Some("b"), Some("g"), "2")];
    let because = choice(None, Some("because"));
    send(&mut s, &mut store, chunk(None, vec![because, calls(deltas)]));
    let mut items = vec![];
    for item in s.step(SseInput::End, &mut store).items {
        if let Ok(ResponseEvent::OutputItemDone(item)) = item {
            items.push(item);
        }
    }
    assert_eq!(items.len(), 2);
    let messages = response_items_to_chat_messages(&items, &store);
    assert_eq!(messages.len(), 1);
    assert_eq!(
        messages[0].get("reasoning_content"),
        Some(&Json::String("because".to_string()))
    );
}
