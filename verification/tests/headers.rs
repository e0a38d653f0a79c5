use codex_api::endpoint::headers::{
    has_room_for, set_stream_headers, stream_request_headers, upstream_request_id,
};
use codex_api::endpoint::stream::WireApiKind;
use http::{HeaderMap, HeaderValue};

fn some(s: &str) -> Option<String> {
    Some(s.to_string())
}

#[test]
fn request_id_is_taken_from_the_response() {
    let mut headers = HeaderMap::new();
    assert_eq!(upstream_request_id(&headers), None);
    headers.insert("x-request-id", HeaderValue::from_static("req-1"));
    headers.append("x-request-id", HeaderValue::from_static("req-2"));
    assert_eq!(upstream_request_id(&headers), some("req-1"));
    headers.insert("x-request-id", HeaderValue::from_bytes(b"\xff").unwrap());
    assert_eq!(upstream_request_id(&headers), None);
}

#[test]
fn request_headers_are_put_together() {
    let mut extra = HeaderMap::new();
    extra.insert("x-kept", HeaderValue::from_static("k"));
    extra.insert("session", HeaderValue::from_static("old"));
    extra.append("session", HeaderValue::from_static("older"));
    let mut session = HeaderMap::new();
    session.insert("session", HeaderValue::from_static("new"));
    session.insert("other", HeaderValue::from_static("1"));
    session.append("other", HeaderValue::from_static("2"));
    session.append("other", HeaderValue::from_static("3"));
    let headers =
        stream_request_headers(extra.clone(), &some("t-1"), session.clone(), &some("compact"))
            .unwrap();
    assert_eq!(headers["x-kept"], "k");
    assert_eq!(headers["x-client-request-id"], "t-1");
    assert_eq!(headers.get_all("session").iter().count(), 1);
    assert_eq!(headers["session"], "new");
    let others: Vec<&HeaderValue> = headers.get_all("other").iter().collect();
    assert_eq!(others, vec!["1", "2", "3"]);
    assert_eq!(headers["x-openai-subagent"], "compact");
    let plain = stream_request_headers(extra, &None, session, &some("a\nb")).unwrap();
    assert!(!plain.contains_key("x-client-request-id"));
    assert!(!plain.contains_key("x-openai-subagent"));
}

#[test]
fn stream_headers_depend_on_the_interface() {
    let mut headers = HeaderMap::new();
    headers.insert("accept", HeaderValue::from_static("*/*"));
    assert!(set_stream_headers(&mut headers, WireApiKind::Responses));
    assert_eq!(headers.len(), 1);
    assert_eq!(headers["accept"], "text/event-stream");
    assert!(set_stream_headers(&mut headers, WireApiKind::Anthropic));
    assert_eq!(headers.len(), 3);
    assert_eq!(headers["content-type"], "application/json");
    assert_eq!(headers["anthropic-version"], "2023-06-01");
}

fn crowd(size: usize) -> HeaderMap {
    let mut headers = HeaderMap::new();
    for i in 0..size {
        let name = http::HeaderName::from_bytes(format!("x-{i}").as_bytes()).unwrap();
        headers.insert(name, HeaderValue::from_static("v"));
    }
    headers
}

#[test]
fn large_maps_take_more() {
    let mut headers = crowd(8000);
    assert!(!has_room_for(&headers, 0));
    assert!(set_stream_headers(&mut headers, WireApiKind::Anthropic));
    assert_eq!(headers.len(), 8003);
    let sent = stream_request_headers(headers, &some("t"), crowd(2), &None).unwrap();
    assert_eq!(sent.len(), 8004);
    assert_eq!(sent["x-client-request-id"], "t");
}

#[test]
fn full_maps_are_reported() {
    let mut headers = crowd(24576);
    assert!(!set_stream_headers(&mut headers, WireApiKind::Responses));
    assert_eq!(headers.len(), 24576);
    assert!(stream_request_headers(headers.clone(), &some("t"), HeaderMap::new(), &None).is_none());
    let mut session = HeaderMap::new();
    session.insert("session", HeaderValue::from_static("s"));
    assert!(stream_request_headers(headers, &None, session, &None).is_none());
}

#[test]
fn room_is_limited() {
    let mut headers = HeaderMap::new();
    assert!(has_room_for(&headers, 6553));
    assert!(!has_room_for(&headers, 6554));
    headers.insert("a", HeaderValue::from_static("1"));
    headers.append("a", HeaderValue::from_static("2"));
    assert!(has_room_for(&headers, 6552));
    assert!(!has_room_for(&headers, 6553));
}
