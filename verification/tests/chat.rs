use hey_proxy::answers::{error_body, timeout_body, upgrade_body};
use hey_proxy::chat::facade::{answer, refuses_entry, scope, translate, Answer};
use hey_proxy::chat::is_path;
use hey_proxy::chat::request::{content, convert};
use hey_proxy::chat::response::{completion, failure, finish_reason, reasoning_details, usage};
use hey_proxy::chat::stream::{frame, Adapter, Piece, State};
use hey_proxy::config::{Alias, ApiShape, Config};
use hey_proxy::exchange::{parse, to_text};
use hey_proxy::gemini::provider::{Auth, ProviderConfig, Thinking};
use hey_proxy::gemini::replay::ReasoningCodec;
use hey_proxy::gemini::request::convert_request;
use hey_proxy::gemini::response::convert_response;
use hey_proxy::gemini::stream::ResponseStream;
use hey_proxy::tree::Json;
use std::collections::BTreeMap;

fn json(text: &str) -> Json {
    parse(text.as_bytes()).unwrap()
}

fn dig<'a>(value: &'a Json, path: &str) -> &'a Json {
    let mut here = value;
    for key in path.split('/') {
        here = match here {
            Json::Array(items) => &items[key.parse::<usize>().unwrap()],
            other => other.at(key),
        };
    }
    here
}

fn alias(from: &str, to: Option<&str>) -> Alias {
    Alias {
        reasoning_routes: Vec::new(),
        from: from.into(),
        to: to.map(Into::into),
        reasoning: None,
        api_key: None,
        api_shape: None,
    }
}

fn fixture() -> Config {
    Config {
        api_keys: vec![
            ("default".into(), "something".into()),
            ("primary".into(), "replace-with-primary-api-key".into()),
        ],
        aliases: vec![
            Alias {
                api_key: Some("primary".into()),
                ..alias("model-primary", None)
            },
            Alias {
                reasoning: Some("low".into()),
                ..alias("gpt-4.1", Some("gpt-4.1-mini"))
            },
        ],
        ..Config::default()
    }
}

fn codec() -> ReasoningCodec {
    ReasoningCodec::new(&[7; 32])
}

fn chat() -> Json {
    json(r#"{"model":"friendly","messages":[{"role":"user","content":"hello"}]}"#)
}

fn reply(output: Vec<Json>) -> Json {
    json(r#"{"id":"resp_test","created_at":123,"status":"completed","model":"upstream-model","usage":{"input_tokens":8,"output_tokens":5,"total_tokens":13,"input_tokens_details":{"cached_tokens":2},"output_tokens_details":{"reasoning_tokens":3}}}"#)
        .with("output", Json::Array(output))
}

fn text_item(text: &str) -> Json {
    let part = Json::object()
        .with("type", Json::text("output_text"))
        .with("text", Json::text(text));
    json(r#"{"type":"message","id":"msg_1","role":"assistant"}"#).with("content", Json::Array(vec![part]))
}

fn provider() -> ProviderConfig {
    ProviderConfig {
        upstream_url: "http://localhost".into(),
        auth: Auth::ApiKey,
        api_key: Some("synthetic".into()),
        thinking: Thinking::Auto,
        credential_cache_seconds: 2400,
    }
}

/// Passes events through, byte by byte, to force split UTF-8, JSON and CRLF boundaries.
fn adapt(events: &[Json], model: &str, include_usage: bool) -> Vec<Json> {
    let mut adapter = Adapter::new(State::new(model, include_usage, false));
    let mut chunks = Vec::new();
    let mut take = |pieces: Vec<Piece>| {
        for piece in pieces {
            chunks.push(match piece {
                Piece::Chunk(value) => value,
                Piece::Failure(message) => hey_proxy::chat::stream::failure(&message),
            });
        }
    };
    let mut over = false;
    'events: for event in events {
        let kind = event.at("type").as_str().unwrap_or("error").to_owned();
        let frame = format!("event: {kind}\r\ndata: {}\r\n\r\n", to_text(event));
        for byte in frame.bytes() {
            let (pieces, ended) = adapter.feed(&[byte], false);
            take(pieces);
            if ended {
                over = true;
                break 'events;
            }
        }
    }
    if !over {
        let (pieces, _) = adapter.feed(&[], true);
        take(pieces);
    }
    chunks
}

fn text_of<'a>(value: &'a Json) -> &'a str {
    value.as_str().unwrap_or("")
}

fn list<'a>(value: &'a Json) -> &'a [Json] {
    match value.as_array() {
        Some(items) => items,
        None => &[],
    }
}

fn merged_message(chunks: &[Json]) -> Json {
    let mut message = json(r#"{"role":"assistant","content":""}"#);
    let mut calls: BTreeMap<u64, (Json, String, String)> = BTreeMap::new();
    let mut details: BTreeMap<u64, (Json, String, String)> = BTreeMap::new();
    for chunk in chunks {
        if list(chunk.at("choices")).is_empty() {
            continue;
        }
        let delta = dig(chunk, "choices/0/delta");
        for field in ["content", "reasoning", "refusal"] {
            if let Some(text) = delta.at(field).as_str() {
                let longer = text_of(message.at(field)).to_owned() + text;
                message.set(field, Json::text(&longer));
            }
        }
        for call in list(delta.at("tool_calls")) {
            let item = calls
                .entry(call.at("index").as_u64().unwrap())
                .or_insert_with(|| (Json::Null, String::new(), String::new()));
            if call.at("id").is_string() {
                item.0 = call.at("id").copy();
                item.1 = text_of(dig(call, "function/name")).to_owned();
            }
            item.2 += text_of(dig(call, "function/arguments"));
        }
        for detail in list(delta.at("reasoning_details")) {
            let item = details
                .entry(detail.at("index").as_u64().unwrap())
                .or_insert_with(|| (detail.copy(), String::new(), String::new()));
            item.1 += text_of(detail.at("summary"));
            item.2 += text_of(detail.at("data"));
        }
    }
    if !calls.is_empty() {
        let items = calls
            .into_values()
            .map(|(id, name, arguments)| {
                json(r#"{"type":"function"}"#).with("id", id).with(
                    "function",
                    Json::object()
                        .with("name", Json::text(&name))
                        .with("arguments", Json::text(&arguments)),
                )
            })
            .collect();
        message.set("tool_calls", Json::Array(items));
    }
    if !details.is_empty() {
        let items = details
            .into_values()
            .map(|(detail, summary, data)| {
                detail
                    .with("summary", Json::text(&summary))
                    .with("data", Json::text(&data))
            })
            .collect();
        message.set("reasoning_details", Json::Array(items));
    }
    message
}

#[test]
fn chat_request_translates_messages_tools_images_schema_and_reasoning() {
    let input = json(r#"{"model":"friendly","messages":[
        {"role":"system","content":"Be useful"},
        {"role":"user","content":[{"type":"text","text":"Look"},{"type":"image_url","image_url":{"url":"data:image/png;base64,AA==","detail":"low"}}]},
        {"role":"assistant","content":null,"tool_calls":[{"id":"call_1","type":"function","function":{"name":"weather","arguments":"{\"city\":\"Paris\"}"}}]},
        {"role":"tool","tool_call_id":"call_1","content":"sunny"}],
        "tools":[{"type":"function","function":{"name":"weather","parameters":{"type":"object","properties":{"city":{"type":"string"}}}}}],
        "tool_choice":{"type":"function","function":{"name":"weather"}},
        "response_format":{"type":"json_schema","json_schema":{"name":"result","strict":true,"schema":{"type":"object"}}},
        "max_tokens":50,"max_completion_tokens":100,"reasoning":{"effort":"low"},"stream":true,"stream_options":{"include_usage":true}}"#);
    let converted = convert(&input, "upstream-model", &codec()).unwrap();
    assert!(converted.stream && converted.include_usage);
    let body = converted.body;
    assert!(dig(&body, "input/0/role").is("system"));
    assert!(dig(&body, "input/1/content/1/type").is("input_image"));
    assert!(dig(&body, "input/2/type").is("function_call"));
    assert!(dig(&body, "input/3/type").is("function_call_output"));
    assert_eq!(dig(&body, "tools/0/strict").as_bool(), Some(false));
    assert!(body.at("tool_choice").equals(&json(r#"{"type":"function","name":"weather"}"#)));
    assert!(dig(&body, "text/format/type").is("json_schema"));
    assert!(body.at("reasoning").equals(&json(r#"{"effort":"low","summary":"auto"}"#)));
    assert_eq!(body.at("max_output_tokens").as_u64(), Some(100));
    assert!(body.at("include").equals(&json(r#"["reasoning.encrypted_content"]"#)));
    assert_eq!(body.at("store").as_bool(), Some(false));
    assert!(!convert(&chat(), "gpt-4.1", &codec()).unwrap().body.has("reasoning"));
}

#[test]
fn chat_rejects_untranslatable_or_malformed_options() {
    for (key, value) in [
        ("n", "2"),
        ("stop", r#"["END"]"#),
        ("logprobs", "true"),
        ("frequency_penalty", "0.5"),
        ("stream", r#""true""#),
        ("reasoning", r#"{"max_tokens":100}"#),
        ("tools", "{}"),
        ("max_tokens", "-1"),
    ] {
        let mut input = chat();
        input.set(key, json(value));
        assert!(convert(&input, "x", &codec()).is_err(), "{key}");
    }
    for input in [
        "null",
        "[]",
        r#"{"model":"x","messages":[null]}"#,
        r#"{"model":"x","messages":[]}"#,
    ] {
        assert!(convert(&json(input), "x", &codec()).is_err());
    }
}

#[test]
fn chat_openai_reasoning_round_trips_opaque_data_and_tool_calls() {
    let reasoning = json(r#"{"type":"reasoning","id":"rs_1","summary":[{"type":"summary_text","text":"Check the weather"}],"encrypted_content":"opaque-provider-bytes"}"#);
    let call = json(r#"{"type":"function_call","id":"fc_1","call_id":"call_1","name":"weather","arguments":"{}"}"#);
    let value = reply(vec![reasoning.copy(), call]);
    let result = completion(&value, "friendly", false).unwrap();
    assert!(dig(&result, "choices/0/finish_reason").is("tool_calls"));
    assert_eq!(
        dig(&result, "usage/completion_tokens_details/reasoning_tokens").as_u64(),
        Some(3)
    );
    let message = dig(&result, "choices/0/message").copy();
    assert!(message.at("reasoning").is("Check the weather"));
    let tool = json(r#"{"role":"tool","tool_call_id":"call_1","content":"sunny"}"#);
    let input = json(r#"{"model":"friendly"}"#).with("messages", Json::Array(vec![message, tool]));
    let converted = convert(&input, "upstream-model", &codec()).unwrap();
    assert!(dig(&converted.body, "input/0").equals(&reasoning));
    assert!(dig(&converted.body, "input/1/call_id").is("call_1"));
    assert!(dig(&converted.body, "input/2/type").is("function_call_output"));
}

#[test]
fn chat_gemini_replays_signed_boundaries_and_rejects_tampering() {
    let codec = codec();
    let provider = provider();
    let original = convert(
        &json(r#"{"model":"gemini/test","messages":[{"role":"user","content":"weather?"}],"tools":[{"type":"function","function":{"name":"weather","parameters":{"type":"object","properties":{}}}}]}"#),
        "gemini/test",
        &codec,
    )
    .unwrap();
    let native_request = convert_request(&original.body, &provider, &codec).unwrap();
    let name = text_of(dig(&native_request.body, "tools/0/functionDeclarations/0/name")).to_owned();
    let native = json(&format!(r#"{{"candidates":[{{"content":{{"role":"model","parts":[{{"text":"Thinking","thought":true,"thoughtSignature":"signed-thought"}},{{"text":"I will check. ","thoughtSignature":"signed-text"}},{{"text":"One moment."}},{{"functionCall":{{"name":"{name}","args":{{}},"id":"native_call"}},"thoughtSignature":"signed-call"}}]}},"finishReason":"STOP"}}]}}"#));
    let responses = convert_response(&native, &native_request, &codec, "signed").unwrap();
    let reply = completion(&responses, "gemini/test", false).unwrap();
    let message = dig(&reply, "choices/0/message").copy();
    assert!(dig(&message, "reasoning_details/1/format").is("google-gemini-v1"));
    let next = |message: Json| {
        json(r#"{"model":"gemini/test"}"#).with(
            "messages",
            Json::Array(vec![
                json(r#"{"role":"user","content":"weather?"}"#),
                message,
                json(r#"{"role":"tool","tool_call_id":"native_call","content":"sunny"}"#),
            ]),
        )
    };
    let converted = convert(&next(message.copy()), "gemini/test", &codec).unwrap();
    let native_replay = convert_request(&converted.body, &provider, &codec).unwrap();
    assert!(dig(&native_replay.body, "contents/1/parts")
        .equals(dig(&native, "candidates/0/content/parts")));
    assert!(dig(&native_replay.body, "contents/2/parts/0/functionResponse/name").is(&name));
    let tampered = message.copy().with("content", Json::text("tampered"));
    assert!(convert(&next(tampered), "gemini/test", &codec).is_err());
    assert!(convert(&next(message.copy()), "gemini/another", &codec).is_err());
    assert!(convert(&next(message), "gpt-model", &codec).is_err());
}

#[test]
fn chat_stream_preserves_unicode_parallel_tools_reasoning_usage_and_finish() {
    let reasoning = json(r#"{"type":"reasoning","id":"rs_1","summary":[{"type":"summary_text","text":"Think 🌍"}],"encrypted_content":"opaque"}"#);
    let call = |id: &str, name: &str, arguments: &str| {
        Json::object()
            .with("type", Json::text("function_call"))
            .with("id", Json::text(&format!("fc_{id}")))
            .with("call_id", Json::text(id))
            .with("name", Json::text(name))
            .with("arguments", Json::text(arguments))
    };
    let response = reply(vec![
        reasoning.copy(),
        text_item("Hello 🌍"),
        call("a", "first", "{\"x\":1}"),
        call("b", "second", "{}"),
    ]);
    let events = vec![
        json(r#"{"type":"response.created","response":{"id":"resp_test","model":"upstream-model","created_at":123}}"#),
        json(r#"{"type":"response.reasoning_summary_text.delta","output_index":0,"item_id":"rs_1","delta":"Think 🌍"}"#),
        json(r#"{"type":"response.output_text.delta","output_index":1,"content_index":0,"delta":"Hello "}"#),
        json(r#"{"type":"response.output_text.delta","output_index":1,"content_index":0,"delta":"🌍"}"#),
        json(r#"{"type":"response.output_item.added","output_index":2}"#).with("item", call("a", "first", "")),
        json(r#"{"type":"response.output_item.added","output_index":3}"#).with("item", call("b", "second", "")),
        json(r#"{"type":"response.function_call_arguments.delta","output_index":2,"delta":"{\"x\":"}"#),
        json(r#"{"type":"response.function_call_arguments.delta","output_index":3,"delta":"{}"}"#),
        json(r#"{"type":"response.function_call_arguments.delta","output_index":2,"delta":"1}"}"#),
        json(r#"{"type":"response.output_item.done","output_index":0}"#).with("item", reasoning),
        json(r#"{"type":"response.completed"}"#).with("response", response),
    ];
    let chunks = adapt(&events, "friendly", true);
    assert!(chunks.iter().all(|v| !v.has("error")), "{chunks:?}");
    let merged = merged_message(&chunks);
    assert!(merged.at("content").is("Hello 🌍"));
    assert!(merged.at("reasoning").is("Think 🌍"));
    assert!(dig(&merged, "reasoning_details/1/data").is("opaque"));
    assert!(dig(&merged, "tool_calls/0/function/arguments").is("{\"x\":1}"));
    assert!(dig(&merged, "tool_calls/1/function/name").is("second"));
    assert!(dig(&chunks[chunks.len() - 2], "choices/0/finish_reason").is("tool_calls"));
    assert_eq!(dig(chunks.last().unwrap(), "usage/total_tokens").as_u64(), Some(13));
    assert!(chunks.iter().all(|v| v.at("id").is("chatcmpl-resp_test")));
}

#[test]
fn chat_stream_gemini_signed_tool_round_trip() {
    let codec = codec();
    let provider = provider();
    let request = convert_request(
        &json(r#"{"model":"gemini/test","input":"weather?","stream":true,"tools":[{"type":"function","name":"weather","parameters":{"type":"object","properties":{}}}]}"#),
        &provider,
        &codec,
    )
    .unwrap();
    let name = text_of(dig(&request.body, "tools/0/functionDeclarations/0/name")).to_owned();
    let native = json(&format!(r#"{{"candidates":[{{"content":{{"role":"model","parts":[{{"text":"Check weather","thought":true}},{{"functionCall":{{"name":"{name}","args":{{}}}},"thoughtSignature":"signed"}}]}},"finishReason":"STOP"}}]}}"#));
    let mut converter = ResponseStream::new(request, "stream");
    let mut events = converter.feed(&native).unwrap();
    events.extend(converter.finish(&codec).unwrap());
    let chunks = adapt(&events, "gemini/test", false);
    assert!(chunks.iter().all(|v| !v.has("error")), "{chunks:?}");
    let message = merged_message(&chunks);
    let id = text_of(dig(&message, "tool_calls/0/id")).to_owned();
    let tool = json(&format!(r#"{{"role":"tool","tool_call_id":"{id}","content":"sunny"}}"#));
    let next = json(r#"{"model":"gemini/test"}"#).with("messages", Json::Array(vec![message, tool]));
    let next = convert(&next, "gemini/test", &codec).unwrap();
    let replay = convert_request(&next.body, &provider, &codec).unwrap();
    assert!(dig(&replay.body, "contents/0/parts").equals(dig(&native, "candidates/0/content/parts")));
}

#[test]
fn chat_stream_reports_failure_and_truncation_without_success() {
    for events in [
        vec![json(r#"{"type":"response.output_text.delta","delta":"partial","output_index":0}"#)],
        vec![json(r#"{"type":"response.failed","response":{"error":{"message":"upstream failed","code":"test_failure"}}}"#)],
    ] {
        let chunks = adapt(&events, "x", true);
        assert!(chunks.last().unwrap().has("error"));
        assert!(!chunks.iter().any(|c| c.has("choices")
            && dig(c, "choices/0/finish_reason").is_string()));
    }
    let incomplete = reply(vec![text_item("partial")])
        .with("status", Json::text("incomplete"))
        .with("incomplete_details", json(r#"{"reason":"max_output_tokens"}"#));
    let event = json(r#"{"type":"response.incomplete"}"#).with("response", incomplete);
    let chunks = adapt(&[event], "x", false);
    assert!(dig(chunks.last().unwrap(), "choices/0/finish_reason").is("length"));
}

#[test]
fn chat_reasoning_text_stream_and_encrypted_item_order_survive_replay() {
    let reasoning = json(r#"{"id":"rs_z","type":"reasoning","summary":[],"content":[{"type":"reasoning_text","text":"Visible thought"}],"encrypted_content":"opaque-z"}"#);
    let later = json(r#"{"id":"rs_a","type":"reasoning","summary":[],"encrypted_content":"opaque-a"}"#);
    let value = reply(vec![reasoning.copy(), later.copy(), text_item("OK")]);
    let events = vec![
        json(r#"{"type":"response.created","response":{"id":"resp_test"}}"#),
        json(r#"{"type":"response.reasoning_text.delta","output_index":0,"item_id":"rs_z","delta":"Visible thought"}"#),
        json(r#"{"type":"response.completed"}"#).with("response", value),
    ];
    let chunks = adapt(&events, "friendly", false);
    assert!(chunks.iter().all(|v| !v.has("error")), "{chunks:?}");
    let details: Vec<Json> = chunks
        .iter()
        .flat_map(|v| list(dig(v, "choices/0/delta/reasoning_details")))
        .map(|detail| detail.copy())
        .collect();
    assert!(details[0].at("type").is("reasoning.text"));
    assert!(details[0].at("text").is("Visible thought"));
    let message = json(r#"{"role":"assistant","content":"OK"}"#).with("reasoning_details", Json::Array(details));
    let input = json(r#"{"model":"friendly"}"#).with("messages", Json::Array(vec![message]));
    let converted = convert(&input, "upstream", &codec()).unwrap();
    assert!(dig(&converted.body, "input/0").equals(&reasoning));
    assert!(dig(&converted.body, "input/1").equals(&later));
}

#[test]
fn only_the_custom_path_is_translated() {
    assert!(is_path("/v1/custom/chat/completions"));
    assert!(is_path("/v1/custom/chat/completions/"));
    assert!(!is_path("/v1/chat/completions"));
}

#[test]
fn custom_requests_are_refused_before_their_body_is_read() {
    assert_eq!(refuses_entry(false, false, false).unwrap().status, 405);
    assert_eq!(
        refuses_entry(true, true, false).unwrap().message,
        "Custom Chat Completions does not accept query parameters",
    );
    assert_eq!(refuses_entry(true, false, true).unwrap().status, 415);
    assert!(refuses_entry(true, false, false).is_none());
}

#[test]
fn a_request_keeps_the_aliases_of_its_own_kind() {
    let path = "/v1/custom/chat/completions";
    let config = Config {
        aliases: vec![
            Alias { api_shape: Some(ApiShape::Responses), ..alias("friendly", Some("wrong")) },
            Alias { api_shape: Some(ApiShape::ChatCompletions), ..alias("friendly", Some("right")) },
            alias("other", Some("both")),
        ],
        ..fixture()
    };
    let scoped = scope(config, path);
    assert_eq!(scoped.aliases.len(), 2);
    assert!(scoped.aliases.iter().all(|a| a.api_shape.is_none()));
    assert_eq!(scoped.aliases[0].to.as_deref(), Some("right"));
    let body = br#"{"model":"friendly","messages":[{"role":"user","content":"hi"}]}"#.to_vec();
    let done = translate(&scoped, path, &body, &codec()).unwrap_or_else(|e| panic!("{}", e.message));
    assert_eq!(done.requested_model, "friendly");
    assert!(done.converted.body.at("model").is("friendly"));
    let bad = translate(&scoped, path, &b"{".to_vec(), &codec()).err().unwrap();
    assert_eq!((bad.status, bad.message.as_str()), (400, "Request body must be valid JSON"));
    let bad = translate(&scoped, path, &b"{}".to_vec(), &codec()).err().unwrap();
    assert_eq!(bad.status, 400);
}

#[test]
fn replies_become_completions_failures_or_refusals() {
    let ok = to_text(&reply(vec![text_item("hi")])).into_bytes();
    match answer(Some(&ok), "friendly", false) {
        Answer::Completion(value) => {
            assert!(dig(&value, "choices/0/message/content").is("hi"));
            assert!(value.at("model").is("friendly"));
        }
        _ => panic!("a completion"),
    }
    let failed = br#"{"status":"failed","error":null}"#.to_vec();
    match answer(Some(&failed), "friendly", false) {
        Answer::Failed(value) => assert!(dig(&value, "error/message").is("Responses request failed")),
        _ => panic!("a failure"),
    }
    for body in [None, Some(&b"nonsense".to_vec())] {
        match answer(body, "friendly", false) {
            Answer::Refused(refusal) => {
                assert_eq!(refusal.status, 502);
                assert_eq!(refusal.message, "Could not read a valid Responses reply within 64 MiB");
            }
            _ => panic!("a refusal"),
        }
    }
}

#[test]
fn parts_of_replies_are_told_one_by_one() {
    assert!(usage(&Json::Null).is_null());
    assert_eq!(usage(&json(r#"{"input_tokens":4}"#)).at("prompt_tokens").as_u64(), Some(4));
    assert_eq!(finish_reason(&json(r#"{"status":"completed","output":[]}"#)).unwrap(), "stop");
    assert_eq!(
        finish_reason(&json(r#"{"status":"in_progress"}"#)).unwrap_err().message,
        "Response did not complete",
    );
    assert!(failure(&json(r#"{"status":"completed","error":null}"#)).is_none());
    let item = json(r#"{"id":"r","summary":[{"text":"a"},{"text":"b"}],"content":[{"text":"c"}],"encrypted_content":"d"}"#);
    let details = reasoning_details(&item, 2);
    assert_eq!(details.len(), 3);
    assert!(details[0].at("summary").is("ab"));
    assert_eq!(details[2].at("index").as_u64(), Some(8));
    assert_eq!(frame(&json(r#"{"a":1}"#)), "data: {\"a\":1}\n\n");
    let parts = content(&json(r#""hello""#), false).unwrap();
    assert!(parts[0].equals(&json(r#"{"type":"input_text","text":"hello"}"#)));
}

#[test]
fn the_proxy_answers_in_its_own_words() {
    assert_eq!(
        to_text(&error_body("no")),
        r#"{"error":{"message":"no","type":"proxy_error"}}"#,
    );
    assert!(dig(&timeout_body(), "error/proxy_code").is("proxy_recovery_timeout"));
    assert!(dig(&upgrade_body(), "error/code").is("websocket_not_supported"));
    assert!(parse(to_text(&upgrade_body()).as_bytes()).is_ok());
}
