use hey_proxy::capacity::{event, http, prelude_event, prelude_sse, Prelude, Sse, LIMIT};
use hey_proxy::exchange::{parse, to_text};
use hey_proxy::tree::Json;

fn json(text: &str) -> Json {
    parse(text.as_bytes()).unwrap()
}

fn dig<'a>(value: &'a Json, path: &str) -> &'a Json {
    let mut here = value;
    for key in path.split('/') {
        here = match here {
            Json::Array(items) => &items[key.parse::<usize>().unwrap()],
            other => other.at(key),
        };
    }
    here
}

#[test]
fn capacity_envelopes_preserve_cause_and_become_server_errors() {
    for original in [
        json(r#"{"type":"response.failed","response":{"id":"r1","error":{"code":"server_is_overloaded","message":"Selected model is at capacity"}}}"#),
        json(r#"{"type":"error","status":503,"error":{"code":"server_is_overloaded","message":"busy"}}"#),
    ] {
        let rewritten = parse(&event(to_text(&original).as_bytes()).unwrap()).unwrap();
        let error = rewritten
            .at("response")
            .get("error")
            .unwrap_or(rewritten.at("error"));
        assert!(error.at("code").is("server_error"));
        assert!(error.at("upstream_code").is("server_is_overloaded"));
        assert!(error
            .at("message")
            .as_str()
            .unwrap()
            .contains("Upstream model is at capacity"));
        if original.has("status") {
            assert_eq!(rewritten.at("status").as_u64(), Some(500));
        }
        assert!(event(to_text(&rewritten).as_bytes()).is_none());
    }
    assert!(http(br#"{"error":{"message":"Model is at capacity"}}"#).is_some());
    assert!(http(b"Model is out of capacity").is_some());
    for code in ["insufficient_quota", "invalid_api_key", "billing_not_active"] {
        let body = format!(r#"{{"error":{{"code":"{code}","message":"at capacity"}}}}"#);
        assert!(http(body.as_bytes()).is_none());
    }
    assert!(event(br#"{"type":"response.output_text.delta","delta":"at capacity"}"#).is_none());
    assert!(http(br#"{"error":{"code":"rate_limit_exceeded","message":"Too many requests"}}"#).is_none());
}

#[test]
fn sse_handles_split_multiline_events_and_preserves_other_events() {
    let input = b": keepalive\r\n\r\nevent: response.failed\r\ndata: {\r\ndata: \"type\":\"response.failed\",\"response\":{\"error\":{\"code\":\"server_is_overloaded\",\"message\":\"busy\"}}}\r\n\r\ndata: [DONE]\n\n";
    for size in [1, 7, input.len()] {
        let mut sse = Sse::new();
        let mut output = Vec::new();
        for chunk in input.chunks(size) {
            output.extend(sse.feed(chunk));
        }
        output.extend(sse.finish());
        let text = String::from_utf8(output).unwrap();
        assert!(text.starts_with(": keepalive\r\n\r\nevent: response.failed\r\n"));
        assert!(text.contains("\"code\":\"server_error\""));
        assert!(text.ends_with("data: [DONE]\n\n"));
    }
    let oversized = format!("data: {}\n\n", "x".repeat(LIMIT + 10));
    let mut sse = Sse::new();
    let mut output = sse.feed(oversized.as_bytes());
    output.extend(sse.finish());
    assert_eq!(output, oversized.as_bytes());
}

#[test]
fn events_before_output_tell_refusals_from_output() {
    let waiting = br#"{"type":"response.created","response":{"id":"a"}}"#;
    let refused = br#"{"type":"response.failed","response":{"error":{"code":"rate_limit_exceeded"}}}"#;
    let started = br#"{"type":"response.output_text.delta","delta":"a"}"#;
    assert_eq!(prelude_event(waiting), Prelude::Waiting);
    assert_eq!(prelude_event(refused), Prelude::Refused);
    assert_eq!(prelude_event(started), Prelude::Started);
    assert_eq!(prelude_event(b"not json"), Prelude::Started);
}

#[test]
fn stream_starts_wait_for_whole_events() {
    let created = b"data: {\"type\":\"response.created\"}\n\n".to_vec();
    assert_eq!(prelude_sse(&created, false), Prelude::Waiting);
    let mut begun = created.clone();
    begun.extend_from_slice(b"data: {\"type\":\"response.output_text.delta\"}");
    assert_eq!(prelude_sse(&begun, false), Prelude::Waiting);
    begun.extend_from_slice(b"\n\n");
    assert_eq!(prelude_sse(&begun, false), Prelude::Started);
    assert_eq!(prelude_sse(&vec![b'x'; LIMIT], false), Prelude::Started);
}

#[test]
fn a_translated_error_is_not_translated_again() {
    let body = br#"{"error":{"code":"server_is_overloaded","message":"busy"}}"#;
    let once = http(body).unwrap();
    assert!(http(&once).is_none());
    assert_eq!(
        dig(&parse(&once).unwrap(), "error/message").as_str(),
        Some("Upstream model is at capacity; hey-proxy translated this capacity failure to a retryable server error. Original upstream message: busy"),
    );
}
