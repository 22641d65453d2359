use hey_proxy::exchange::parse;
use hey_proxy::sse::{NativeSse, SseDecoder, MAX_FRAME};
use hey_proxy::tree::Json;

fn json(text: &str) -> Json {
    parse(text.as_bytes()).unwrap()
}

fn dig<'a>(value: &'a Json, path: &str) -> &'a Json {
    let mut here = value;
    for key in path.split('/') {
        here = match here {
            Json::Array(items) => &items[key.parse::<usize>().unwrap()],
            other => other.at(key),
        };
    }
    here
}

fn same(events: &[Json], expected: &[Json]) -> bool {
    events.len() == expected.len() && events.iter().zip(expected).all(|(a, b)| a.equals(b))
}

#[test]
fn native_sse_handles_every_byte_boundary_unicode_crlf_and_multiline() {
    let bytes = "event: chunk\r\ndata: {\"candidates\":\r\ndata: [{\"content\":{\"parts\":[{\"text\":\"🌍\"}]}}]}\r\n\r\ndata: {\"usageMetadata\":{\"promptTokenCount\":2}}\n\n".as_bytes();
    let mut parser = NativeSse::new();
    let mut events = Vec::new();
    for byte in bytes {
        events.extend(parser.feed(&[*byte], false).unwrap());
    }
    events.extend(parser.feed(&[], true).unwrap());
    assert_eq!(events.len(), 2);
    assert!(dig(&events[0], "candidates/0/content/parts/0/text").is("🌍"));
    assert!(NativeSse::new().feed(b"data: invalid\n\n", false).is_err());
}

#[test]
fn sse_limits_apply_to_complete_and_fragmented_frames() {
    let oversized = format!("data: {{\"text\":\"{}\"}}\n\n", "x".repeat(MAX_FRAME));
    assert!(NativeSse::new()
        .feed(oversized.as_bytes(), false)
        .unwrap_err()
        .message
        .contains("16 MiB"));
    let mut parser = NativeSse::new();
    let mut rejected = false;
    for chunk in oversized.as_bytes().chunks(1023) {
        if parser.feed(chunk, false).is_err() {
            rejected = true;
            break;
        }
    }
    assert!(rejected);
    let mut parser = NativeSse::new();
    // The bound is per frame, not a lifetime limit on the parser.
    let legal = format!(":{}\n\n", "x".repeat(MAX_FRAME / 2));
    for _ in 0..3 {
        assert!(parser.feed(legal.as_bytes(), false).unwrap().is_empty());
    }
}

#[test]
fn sse_handles_mixed_delimiters_eof_and_rejects_data_after_done() {
    assert!(NativeSse::new().feed(b"data:\n\n", false).unwrap().is_empty());
    let bytes = b":comment\rdata: {\"a\":\r\ndata: 1}\n\rdata: {\"b\":2}";
    for split in 0..=bytes.len() {
        let mut parser = NativeSse::new();
        let mut events = parser.feed(&bytes[..split], false).unwrap();
        events.extend(parser.feed(&bytes[split..], true).unwrap());
        assert!(same(&events, &[json(r#"{"a":1}"#), json(r#"{"b":2}"#)]));
    }
    assert!(NativeSse::new()
        .feed(b"data: [DONE]\n\ndata: {}\n\n", true)
        .is_err());
    assert!(NativeSse::new().feed(b"data: \xff\n\n", true).is_err());
}

#[test]
fn event_streams_decode_alike_however_they_are_cut() {
    let bytes = b"data: {\"a\":1}\r\n\r\ndata: {\"b\":\ndata: 2}\n\ndata: [DONE]\n\n";
    for size in [1, 2, 5, bytes.len()] {
        let mut decoder = SseDecoder::new();
        let mut events = Vec::new();
        for chunk in bytes.chunks(size) {
            events.extend(decoder.feed(chunk, false).unwrap());
        }
        events.extend(decoder.feed(&[], true).unwrap());
        assert!(same(&events, &[json(r#"{"a":1}"#), json(r#"{"b":2}"#)]));
    }
}
