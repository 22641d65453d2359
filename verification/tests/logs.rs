use hey_proxy::exchange::parse;
use hey_proxy::logs::entry::Entry;
use hey_proxy::logs::lifecycle::{Attempt, Ending, RequestGuard, TrackedBody};
use hey_proxy::logs::observation::note;
use hey_proxy::logs::pricing;
use hey_proxy::logs::store::{Change, Store, RECENT_LIMIT};
use hey_proxy::logs::usage::{Seen, UsageReader};
use hey_proxy::logs::websocket::{Action, Tracker};
use hey_proxy::tree::Json;

fn json(text: &str) -> Json {
    parse(text.as_bytes()).unwrap()
}

fn dig<'a>(value: &'a Json, path: &str) -> &'a Json {
    let mut here = value;
    for key in path.split('/') {
        here = match here {
            Json::Array(items) => &items[key.parse::<usize>().unwrap()],
            other => other.at(key),
        };
    }
    here
}

fn store() -> Store {
    Store::new("standalone")
}

fn feed(reader: &mut UsageReader, bytes: &[u8], store: &mut Store, id: u64) {
    let seen = reader.feed(bytes);
    note(store, id, &seen, 1, 2);
}

fn end(store: &mut Store, id: u64, ending: &Ending) {
    store.complete(id, ending.outcome(), ending.source(), ending.code(), 0, 2, 3);
}

#[test]
fn usage_handles_split_streams_and_snapshot_updates() {
    let mut store = store();
    let (id, _) = store.begin("POST", "/v1/responses", "HTTP");
    let mut reader = UsageReader::new(true);
    let stream = b"event: response.completed\r\ndata: {\"response\":{\"usage\":{\"input_tokens\":42,\"output_tokens\":8,\"input_tokens_details\":{\"cached_tokens\":20,\"cache_write_tokens\":10}}}}\r\n\ndata: [DONE]\n";
    for chunk in stream.chunks(3) {
        feed(&mut reader, chunk, &mut store, id);
    }
    let seen = reader.finish();
    note(&mut store, id, &seen, 1, 2);
    {
        let state = store.recent();
        assert_eq!(state[0].cached_input_tokens, Some(20));
        assert_eq!(state[0].cache_write_tokens, Some(10));
    }
    store.usage(
        id,
        &json(r#"{"usage":{"prompt_tokens":42,"completion_tokens":9,
            "prompt_tokens_details":{"cached_tokens":30,"cache_write_tokens":5}}}"#),
        3,
    );
    let state = store.recent();
    let entry = &state[0];
    assert_eq!(entry.input_tokens, Some(42));
    assert_eq!(entry.output_tokens, Some(9));
    assert_eq!(entry.cached_input_tokens, Some(30));
    assert_eq!(entry.cache_write_tokens, Some(5));
}

#[test]
fn history_is_bounded_and_newest_first() {
    let mut store = store();
    for _ in 0..RECENT_LIMIT + 2 {
        store.begin("GET", "/v1/models", "HTTP");
    }
    let state = store.recent();
    assert_eq!(state.len(), RECENT_LIMIT);
    assert_eq!(state.last().unwrap().id, 3);
}

#[test]
fn split_multiline_sse_and_oversize_events_do_not_poison_later_usage() {
    let mut store = store();
    let (id, _) = store.begin("POST", "/v1/responses", "HTTP");
    let mut reader = UsageReader::new(true);
    for byte in b"data: {\"type\":\"response.completed\",\r\ndata: \"response\":{\"usage\":{\"input_tokens\":4,\"output_tokens\":9}}}\r\n\r\n" {
        feed(&mut reader, &[*byte], &mut store, id);
    }
    assert_eq!(store.recent()[0].output_tokens, Some(9));
    feed(&mut reader, b"data: ", &mut store, id);
    feed(&mut reader, &vec![b'x'; 8 * 1024 * 1024], &mut store, id);
    feed(
        &mut reader,
        b"\ndata: {\"usage\":{\"input_tokens\":100,\"output_tokens\":100}}\n\n",
        &mut store,
        id,
    );
    assert_eq!(store.recent()[0].output_tokens, Some(9));
    feed(
        &mut reader,
        b"data: {\"usage\":{\"input_tokens\":5,\"output_tokens\":12}}\n\n",
        &mut store,
        id,
    );
    assert_eq!(store.recent()[0].output_tokens, Some(12));
    feed(
        &mut reader,
        b"data: {\"type\":\"error\",\"error\":{\"code\":\"test\"}}\n\ndata: [DONE]\n\n",
        &mut store,
        id,
    );
    store.complete(id, "succeeded", "stream_end", None, 0, 2, 3);
    assert_eq!(store.recent()[0].state, "failed");
}

/// Does what an event of a connection means.
fn observe(tracker: &mut Tracker, store: &mut Store, value: &Json) {
    for action in tracker.observe(value) {
        match action {
            Action::AddBytes(_) => {}
            Action::FirstOutput(id) => {
                store.first_output(id, 1, 2);
            }
            Action::Observe(id) => {
                store.observe(id, value, 2);
            }
            Action::Finish(id, completed) => end(store, id, &Ending::Told { completed }),
        }
    }
}

#[test]
fn websocket_concurrent_responses_correlate_usage_and_disconnects() {
    let mut store = store();
    let mut tracker = Tracker::new();
    let (a, _) = store.begin("SEND", "/v1/responses", "WebSocket");
    tracker.begin(a);
    let (b, _) = store.begin("SEND", "/v1/responses", "WebSocket");
    tracker.begin(b);
    observe(&mut tracker, &mut store, &json(r#"{"type":"response.created","response":{"id":"a"}}"#));
    observe(&mut tracker, &mut store, &json(r#"{"type":"response.created","response":{"id":"b"}}"#));
    observe(
        &mut tracker,
        &mut store,
        &json(r#"{"type":"response.completed","response":{"id":"b","usage":{"input_tokens":2,"output_tokens":3}}}"#),
    );
    let recent = store.recent();
    assert_eq!(recent[0].state, "succeeded");
    assert_eq!(recent[0].output_tokens, Some(3));
    assert_eq!(recent[1].output_tokens, None);
    for end in tracker.fail_all("upstream_disconnected") {
        assert_eq!((end.outcome, end.source), ("failed", "transport"));
        store.complete(end.id, end.outcome, end.source, Some(&end.code), 0, 2, 3);
    }
    assert_eq!(store.recent()[1].state, "failed");
    assert!(tracker.is_empty());
}

#[test]
fn responses_of_nobody_are_ignored() {
    let mut tracker = Tracker::new();
    tracker.begin(1);
    tracker.begin(2);
    assert!(tracker.observe(&json(r#"{"type":"x.delta","response_id":"unknown"}"#)).is_empty());
    let failed: Vec<u64> = tracker.fail_all("gone").iter().map(|end| end.id).collect();
    assert_eq!(failed, [1, 2]);
}

#[test]
fn stored_prices_match_regular_price_book_cache_and_context_rules() {
    let mut e = Entry {
        method: "POST".into(),
        path: "/v1/responses".into(),
        requested_model: Some("gpt-5.4".into()),
        routed_model: Some("model-primary".into()),
        input_tokens: Some(100000),
        output_tokens: Some(10000),
        ..Entry::default()
    };
    assert_eq!(pricing::price(&e).cost_nano_usd, Some(400_000_000));
    e.cached_input_tokens = Some(60000);
    e.cache_write_tokens = Some(20000);
    assert_eq!(pricing::price(&e).cost_nano_usd, Some(265_000_000));
    e.input_tokens = Some(300000);
    e.cached_input_tokens = Some(100000);
    e.cache_write_tokens = Some(50000);
    assert_eq!(pricing::price(&e).cost_nano_usd, Some(1_275_000_000));
    e.output_tokens = None;
    assert_eq!(pricing::price(&e).cost_nano_usd, None);
}

#[test]
fn gemini_model_uses_pro_list_price_with_cache_and_long_context_boundary() {
    let mut e = Entry {
        method: "POST".into(),
        path: "/v1/responses".into(),
        requested_model: Some("gpt-5.4".into()),
        input_tokens: Some(200000),
        cached_input_tokens: Some(100000),
        output_tokens: Some(10000),
        reasoning_tokens: Some(6000),
        ..Entry::default()
    };
    for model in [
        "gemini/gemini-3.1-pro-preview",
        "gemini/models/gemini-3.1-pro-preview",
        "models/gemini-3.1-pro-preview",
    ] {
        e.routed_model = Some(model.into());
        let price = pricing::price(&e);
        assert_eq!(price.price_model.as_deref(), Some("gemini-3.1-pro-preview"));
        // Output already includes reasoning; never charge it twice.
        assert_eq!(price.cost_nano_usd, Some(340_000_000));
    }
    e.input_tokens = Some(200001);
    assert_eq!(pricing::price(&e).cost_nano_usd, Some(620_004_000));
    e.routed_model = Some("gemini/unknown".into());
    assert_eq!(pricing::price(&e).cost_nano_usd, None);
}

#[test]
fn normal_null_error_does_not_mark_success_as_failed_and_incomplete_is_recorded() {
    let mut store = store();
    let (id, _) = store.begin("POST", "/v1/responses", "HTTP");
    store.observe(
        id,
        &json(r#"{"id":"success","object":"response","status":"completed","error":null,"usage":{"input_tokens":10,"output_tokens":4}}"#),
        2,
    );
    store.complete(id, "succeeded", "http", None, 0, 2, 3);
    assert_eq!(store.recent()[0].state, "succeeded");
    assert_eq!(store.recent()[0].response_id.as_deref(), Some("success"));
    let (id, _) = store.begin("POST", "/v1/responses", "HTTP");
    store.observe(
        id,
        &json(r#"{"status":"incomplete","error":null,"incomplete_details":{"reason":"max_output_tokens"}}"#),
        2,
    );
    store.complete(id, "succeeded", "http", None, 0, 2, 3);
    assert_eq!(store.recent()[0].state, "failed");
    assert_eq!(
        store.recent()[0].error_code.as_deref(),
        Some("max_output_tokens")
    );
}

#[test]
fn client_close_after_completed_event_is_success_but_blocked_or_partial_stream_is_not() {
    for (kind, expected, code) in [
        ("response.completed", "succeeded", None),
        ("response.failed", "failed", Some("cyber_policy")),
        ("response.created", "cancelled", None),
    ] {
        let mut store = store();
        let (id, _) = store.begin("POST", "/v1/responses", "HTTP");
        store.finish(id, 200, 1, 2);
        store.update(id, "stream", Json::object(), Change::Streaming(true), 2);
        let mut guard = RequestGuard::new(id);
        let error = match code {
            Some(code) => Json::object().with("code", Json::text(code)),
            None => Json::Null,
        };
        let response = json(r#"{"id":"r"}"#).with("error", error);
        let value = Json::object().with("type", Json::text(kind)).with("response", response);
        store.observe(id, &value, 2);
        if guard.finish() {
            end(&mut store, id, &Ending::Disconnected);
        }
        let e = &store.recent()[0];
        assert_eq!(e.state, expected, "{kind}");
        if expected == "succeeded" {
            assert_eq!(e.error_code, None);
            assert_eq!(e.outcome_source.as_deref(), Some("responses_event"));
        }
        if let Some(code) = code {
            assert_eq!(e.error_code.as_deref(), Some(code));
        }
    }
}

#[test]
fn the_first_ending_of_a_request_stands() {
    let mut store = store();
    let (id, _) = store.begin("POST", "/v1/responses", "HTTP");
    assert!(store.complete(id, "succeeded", "http", None, 5, 2, 3).is_some());
    assert!(store.complete(id, "failed", "http", Some("late"), 9, 4, 5).is_none());
    let e = &store.recent()[0];
    assert_eq!((e.state.as_str(), e.response_bytes), ("succeeded", 5));
    assert!(e.is_final());
    assert!(store.complete(999, "failed", "http", None, 0, 2, 3).is_none());
}

#[test]
fn bodies_end_once_however_they_end() {
    let (mut body, ending) = TrackedBody::wrap(RequestGuard::new(4), Some(6), false, false);
    assert!(ending.is_none());
    let first = body.frame(4, false);
    assert!(first.first_byte && first.ending.is_none());
    let last = body.frame(2, false);
    assert!(!last.first_byte);
    let ending = last.ending.unwrap();
    assert_eq!((ending.outcome(), ending.source()), ("succeeded", "http"));
    assert!(body.end().is_none() && body.broken().is_none() && body.dropped().is_none());
    let (mut body, _) = TrackedBody::wrap(RequestGuard::new(4), None, true, false);
    let ending = body.broken().unwrap();
    assert_eq!(ending.outcome(), "failed");
    assert_eq!(ending.code(), Some("upstream_stream_error"));
    let (mut body, _) = TrackedBody::wrap(RequestGuard::new(4), None, true, false);
    assert_eq!(body.dropped().unwrap().code(), Some("client_disconnected"));
}

#[test]
fn attempts_are_numbered_and_end_once() {
    let mut store = store();
    let (id, _) = store.begin("POST", "/v1/responses", "HTTP");
    let (mut attempt, _) = Attempt::new(&mut store, id, "request", 2);
    assert_eq!(attempt.number, 1);
    assert!(attempt.finish(&mut store, "failed", Some(503), Some("busy"), 1, 2).is_some());
    assert!(attempt.finish(&mut store, "succeeded", Some(200), None, 1, 2).is_none());
    let (attempt, event) = Attempt::new(&mut store, id, "request", 2);
    assert_eq!(attempt.number, 2);
    assert!(event.unwrap().details.at("phase").is("request"));
    assert_eq!(store.recent()[0].attempts, 2);
}

#[test]
fn steps_of_a_request_are_noted() {
    let mut store = store();
    let (id, begun) = store.begin("POST", "/v1/responses", "HTTP");
    assert_eq!(begun.entry.id, id);
    store.route(id, Some("a".into()), Some("b".into()), "primary", 2);
    store.retries(id, 3, 2);
    store.first_byte(id, 7, 2);
    store.first_byte(id, 9, 2);
    let e = &store.recent()[0];
    assert_eq!(e.requested_model.as_deref(), Some("a"));
    assert_eq!(e.routed_model.as_deref(), Some("b"));
    assert_eq!(e.project.as_deref(), Some("primary"));
    assert_eq!((e.retries, e.first_byte_ms), (3, Some(7)));
    assert_eq!(e.mode, "standalone");
    assert_eq!(e.session_id, store.session_id);
    assert!(store.entry(id).is_some() && store.entry(id + 1).is_none());
    assert_ne!(e.request_id, e.session_id);
}

#[test]
fn readers_tell_whole_bodies_too() {
    let mut reader = UsageReader::new(false);
    assert!(reader.feed(br#"{"usage":{"input"#).is_empty());
    let seen = reader.feed(br#"_tokens":1}}"#);
    assert!(matches!(&seen[0], Seen::Value(value, _) if dig(value, "usage/input_tokens").as_u64() == Some(1)));
}
