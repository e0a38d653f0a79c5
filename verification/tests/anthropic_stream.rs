use codex_api::protocol::{
    ApiError, ContentItem, ReasoningItemContent, ResponseEvent, ResponseItem, StreamItem,
    TokenUsage,
};
use codex_api::sse::anthropic::{finish_block, merge_usage, AnthropicStream};
use codex_api::sse::anthropic_events::{
    AnthropicContentBlock, AnthropicDelta, AnthropicEvent, AnthropicMessage, AnthropicUsage,
    BlockState, ToolCallState,
};
use codex_api::sse::{SseInput, Step};

const NO_USAGE: AnthropicUsage = AnthropicUsage {
    input_tokens: None,
    output_tokens: None,
    cache_creation_input_tokens: None,
    cache_read_input_tokens: None,
};

fn event(kind: &str) -> AnthropicEvent {
    AnthropicEvent {
        event_type: kind.to_string(),
        message: None,
        index: None,
        delta: None,
        content_block: None,
        usage: None,
    }
}

fn send(stream: &mut AnthropicStream, event: AnthropicEvent) -> Step {
    stream
        .checked_step(SseInput::Event { data: " data ".to_string(), decoded: Ok(event) })
        .unwrap()
}

fn start(stream: &mut AnthropicStream, index: usize, kind: &str, ids: Option<(&str, &str)>) -> Step {
    send(
        stream,
        AnthropicEvent {
            index: Some(index),
            content_block: Some(AnthropicContentBlock {
                block_type: kind.to_string(),
                id: ids.map(|(id, _)| id.to_string()),
                name: ids.map(|(_, name)| name.to_string()),
            }),
            ..event("content_block_start")
        },
    )
}

fn delta(stream: &mut AnthropicStream, index: Option<usize>, kind: &str, body: &str) -> Step {
    let body = Some(body.to_string());
    let mut d = AnthropicDelta {
        delta_type: Some(kind.to_string()),
        text: None,
        thinking: None,
        partial_json: None,
    };
    match kind {
        "text_delta" => d.text = body,
        "thinking_delta" => d.thinking = body,
        _ => d.partial_json = body,
    }
    send(stream, AnthropicEvent { index, delta: Some(d), ..event("content_block_delta") })
}

fn stop(stream: &mut AnthropicStream, index: usize) -> Step {
    send(stream, AnthropicEvent { index: Some(index), ..event("content_block_stop") })
}

fn message(content: Vec<ContentItem>) -> ResponseItem {
    ResponseItem::Message { id: None, role: "assistant".to_string(), content, phase: None }
}

fn text_item(text: &str) -> ResponseItem {
    message(vec![ContentItem::OutputText { text: text.to_string() }])
}

fn thinking_item(content: Option<Vec<ReasoningItemContent>>) -> ResponseItem {
    ResponseItem::Reasoning { id: String::new(), summary: vec![], content, encrypted_content: None }
}

fn completed(id: &str, token_usage: Option<TokenUsage>) -> StreamItem {
    Ok(ResponseEvent::Completed {
        response_id: id.to_string(),
        token_usage,
        end_turn: Some(true),
    })
}

fn failed(message: &str) -> Vec<StreamItem> {
    vec![Err(ApiError::Stream(message.to_string()))]
}

#[test]
fn usage_keeps_the_largest_values() {
    let first = AnthropicUsage {
        input_tokens: Some(10),
        output_tokens: Some(1),
        cache_creation_input_tokens: Some(0),
        ..NO_USAGE
    };
    let second = AnthropicUsage {
        input_tokens: Some(4),
        output_tokens: Some(7),
        cache_read_input_tokens: Some(3),
        cache_creation_input_tokens: Some(-5),
    };
    let expected = AnthropicUsage {
        input_tokens: Some(10),
        output_tokens: Some(7),
        cache_creation_input_tokens: Some(0),
        cache_read_input_tokens: Some(3),
    };
    let mut slot = None;
    merge_usage(&mut slot, first);
    merge_usage(&mut slot, second);
    assert_eq!(slot, Some(expected));
    merge_usage(&mut slot, second);
    assert_eq!(slot, Some(expected));
    let mut other = None;
    merge_usage(&mut other, second);
    merge_usage(&mut other, first);
    assert_eq!(other, Some(expected));
}

#[test]
fn split_usage_comes_to_the_same_as_one_report() {
    let whole = AnthropicUsage {
        input_tokens: Some(8),
        output_tokens: Some(2),
        cache_creation_input_tokens: Some(1),
        cache_read_input_tokens: Some(6),
    };
    let mut once = None;
    merge_usage(&mut once, whole);
    let mut split = None;
    merge_usage(&mut split, AnthropicUsage { output_tokens: None, ..whole });
    merge_usage(&mut split, AnthropicUsage { output_tokens: Some(2), ..NO_USAGE });
    assert_eq!(once, Some(whole));
    assert_eq!(split, once);
}

#[test]
fn blocks_finish_as_items() {
    assert_eq!(
        finish_block(BlockState::Text("t".to_string())),
        ResponseEvent::OutputItemDone(text_item("t"))
    );
    assert_eq!(
        finish_block(BlockState::Thinking("h".to_string())),
        ResponseEvent::OutputItemDone(thinking_item(Some(vec![
            ReasoningItemContent::ReasoningText { text: "h".to_string() }
        ])))
    );
    assert_eq!(
        finish_block(BlockState::ToolUse(ToolCallState {
            id: "i".to_string(),
            name: "n".to_string(),
            json_accumulator: "{}".to_string(),
        })),
        ResponseEvent::OutputItemDone(ResponseItem::FunctionCall {
            id: None,
            name: "n".to_string(),
            namespace: None,
            arguments: "{}".to_string(),
            call_id: "i".to_string(),
        })
    );
}

#[test]
fn interleaved_blocks_gather_and_close() {
    let mut s = AnthropicStream::new();
    let opened = send(
        &mut s,
        AnthropicEvent {
            message: Some(AnthropicMessage {
                id: Some("msg-1".to_string()),
                usage: Some(AnthropicUsage {
                    input_tokens: Some(12),
                    cache_read_input_tokens: Some(5),
                    ..NO_USAGE
                }),
            }),
            ..event("message_start")
        },
    );
    assert!(opened.items.is_empty() && !opened.done);
    assert_eq!(
        start(&mut s, 0, "redacted_thinking", None).items,
        vec![Ok(ResponseEvent::OutputItemAdded(thinking_item(None)))]
    );
    assert_eq!(
        start(&mut s, 1, "text", None).items,
        vec![Ok(ResponseEvent::OutputItemAdded(message(vec![])))]
    );
    assert!(start(&mut s, 2, "tool_use", Some(("c", "ls"))).items.is_empty());
    assert!(start(&mut s, 3, "tool_use", None).items.is_empty());
    assert!(start(&mut s, 4, "unknown", None).items.is_empty());
    assert_eq!(
        delta(&mut s, None, "thinking_delta", "hm").items,
        vec![Ok(ResponseEvent::ReasoningContentDelta {
            delta: "hm".to_string(),
            content_index: 0
        })]
    );
    assert_eq!(
        delta(&mut s, Some(1), "text_delta", "a").items,
        vec![Ok(ResponseEvent::OutputTextDelta("a".to_string()))]
    );
    assert!(delta(&mut s, Some(2), "input_json_delta", "{\"p\":").items.is_empty());
    // A delta of another kind gets an item of its own and leaves the block alone.
    assert_eq!(
        delta(&mut s, Some(1), "thinking_delta", "x").items,
        vec![
            Ok(ResponseEvent::OutputItemAdded(thinking_item(None))),
            Ok(ResponseEvent::ReasoningContentDelta { delta: "x".to_string(), content_index: 1 }),
            Ok(finish_block(BlockState::Thinking("x".to_string()))),
        ]
    );
    delta(&mut s, Some(1), "text_delta", "b");
    delta(&mut s, Some(2), "input_json_delta", "1}");
    assert!(delta(&mut s, Some(1), "signature_delta", "z").items.is_empty());
    assert_eq!(
        stop(&mut s, 1).items,
        vec![Ok(ResponseEvent::OutputItemDone(text_item("ab")))]
    );
    assert!(stop(&mut s, 1).items.is_empty());
    assert!(stop(&mut s, 3).items.is_empty());
    send(
        &mut s,
        AnthropicEvent {
            usage: Some(AnthropicUsage { output_tokens: Some(30), ..NO_USAGE }),
            delta: Some(AnthropicDelta {
                delta_type: None,
                text: None,
                thinking: None,
                partial_json: None,
            }),
            ..event("message_delta")
        },
    );
    assert!(send(&mut s, event("ping")).items.is_empty());
    let end = send(&mut s, event("message_stop"));
    assert!(end.done);
    assert_eq!(
        end.items,
        vec![
            Ok(finish_block(BlockState::Thinking("hm".to_string()))),
            Ok(finish_block(BlockState::ToolUse(ToolCallState {
                id: "c".to_string(),
                name: "ls".to_string(),
                json_accumulator: "{\"p\":1}".to_string(),
            }))),
            completed(
                "msg-1",
                Some(TokenUsage {
                    input_tokens: 12,
                    cached_input_tokens: 5,
                    output_tokens: 30,
                    reasoning_output_tokens: 0,
                    total_tokens: 42,
                })
            ),
        ]
    );
}

#[test]
fn a_delta_without_a_block_gets_an_item_of_its_own() {
    let mut s = AnthropicStream::new();
    assert_eq!(
        delta(&mut s, None, "text_delta", "hi").items,
        vec![
            Ok(ResponseEvent::OutputItemAdded(message(vec![]))),
            Ok(ResponseEvent::OutputTextDelta("hi".to_string())),
            Ok(ResponseEvent::OutputItemDone(text_item("hi"))),
        ]
    );
    assert!(delta(&mut s, None, "input_json_delta", "{}").items.is_empty());
    assert!(stop(&mut s, 0).items.is_empty());
    assert_eq!(s.step(SseInput::End).items, vec![completed("msg-anthropic", None)]);
}

#[test]
fn a_block_that_is_replaced_closes_first() {
    let mut s = AnthropicStream::new();
    start(&mut s, 0, "text", None);
    delta(&mut s, Some(0), "text_delta", "one");
    assert_eq!(
        start(&mut s, 0, "thinking", None).items,
        vec![
            Ok(ResponseEvent::OutputItemDone(text_item("one"))),
            Ok(ResponseEvent::OutputItemAdded(thinking_item(None))),
        ]
    );
    assert_eq!(
        start(&mut s, 0, "tool_use", Some(("c", "ls"))).items,
        vec![Ok(finish_block(BlockState::Thinking(String::new())))]
    );
    assert!(start(&mut s, 0, "unknown", None).items.is_empty());
    assert_eq!(s.step(SseInput::End).items.len(), 2);
}

#[test]
fn a_first_report_of_zero_is_kept() {
    let mut slot = None;
    let report = AnthropicUsage { input_tokens: Some(0), output_tokens: Some(7), ..NO_USAGE };
    merge_usage(&mut slot, report);
    assert_eq!(slot, Some(report));
    let mut negative = None;
    merge_usage(&mut negative, AnthropicUsage { input_tokens: Some(-1), ..NO_USAGE });
    assert_eq!(negative, Some(NO_USAGE));
}

#[test]
fn a_silent_stream_completes_with_a_stand_in_id() {
    let mut s = AnthropicStream::new();
    let end = s.step(SseInput::End);
    assert!(end.done);
    assert_eq!(end.items, vec![completed("msg-anthropic", None)]);
}

#[test]
fn anthropic_failures_end_the_stream() {
    let broken = |input: SseInput<AnthropicEvent>| {
        let mut s = AnthropicStream::new();
        start(&mut s, 0, "text", None);
        let step = s.step(input);
        assert!(step.done);
        step.items
    };
    assert_eq!(
        broken(SseInput::TransportError("reset".to_string())),
        failed("anthropic SSE error: reset")
    );
    assert_eq!(broken(SseInput::IdleTimeout), failed("anthropic stream idle timeout"));
    assert_eq!(
        broken(SseInput::Event { data: " {x \n".to_string(), decoded: Err("bad".to_string()) }),
        failed("failed to parse anthropic event: bad: {x")
    );
    assert_eq!(
        broken(SseInput::Event { data: " {e} ".to_string(), decoded: Ok(event("error")) }),
        failed("anthropic error event: {e}")
    );
}

#[test]
fn a_total_beyond_range_is_refused() {
    let mut s = AnthropicStream::new();
    let huge = AnthropicUsage {
        input_tokens: Some(i64::MAX),
        output_tokens: Some(1),
        ..NO_USAGE
    };
    send(&mut s, AnthropicEvent { usage: Some(huge), ..event("message_delta") });
    assert!(!s.total_is_representable());
    assert!(s.checked_step(SseInput::End).is_none());
    assert!(s.checked_step(SseInput::IdleTimeout).is_some());
}
