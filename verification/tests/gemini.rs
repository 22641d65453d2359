use hey_proxy::chat::is_path;
use hey_proxy::config::{Alias, Config};
use hey_proxy::exchange::{parse, to_text};
use hey_proxy::gemini::error::ResponseError;
use hey_proxy::gemini::partial::PartialCalls;
use hey_proxy::gemini::parts::content_parts;
use hey_proxy::gemini::path::parse_path;
use hey_proxy::gemini::provider::{default_url, Auth, ProviderConfig, Thinking};
use hey_proxy::gemini::relay::{
    conversion_failure, native_base, native_path, native_query, native_relative, native_url, route_native,
    sse_bytes, tell_cause, StreamRelay,
};
use hey_proxy::gemini::replay::ReasoningCodec;
use hey_proxy::gemini::request::{convert_request, ConvertedRequest};
use hey_proxy::gemini::response::{convert_response, convert_response_at, usage};
use hey_proxy::gemini::sending::{Hop, Sending};
use hey_proxy::gemini::service::{
    arrive, credential, fits, read_failure, read_reply, Arrival, Credential,
};
use hey_proxy::gemini::stream::ResponseStream;
use hey_proxy::tree::Json;

fn json(text: &str) -> Json {
    parse(text.as_bytes()).unwrap()
}

fn dig<'a>(value: &'a Json, path: &str) -> &'a Json {
    let mut here = value;
    for key in path.split('/') {
        here = match here {
            Json::Array(items) => &items[key.parse::<usize>().unwrap()],
            other => other.at(key),
        };
    }
    here
}

fn alias(from: &str, to: Option<&str>) -> Alias {
    Alias {
        reasoning_routes: Vec::new(),
        from: from.into(),
        to: to.map(Into::into),
        reasoning: None,
        api_key: None,
        api_shape: None,
    }
}

fn fixture() -> Config {
    Config {
        api_keys: vec![
            ("default".into(), "something".into()),
            ("primary".into(), "replace-with-primary-api-key".into()),
        ],
        aliases: vec![
            Alias {
                api_key: Some("primary".into()),
                ..alias("model-primary", None)
            },
            Alias {
                reasoning: Some("low".into()),
                ..alias("gpt-4.1", Some("gpt-4.1-mini"))
            },
        ],
        ..Config::default()
    }
}

fn codec() -> ReasoningCodec {
    ReasoningCodec::new(&[7; 32])
}

fn provider() -> ProviderConfig {
    ProviderConfig {
        upstream_url: default_url(),
        auth: Auth::ApiKey,
        api_key: Some("synthetic".into()),
        thinking: Thinking::Auto,
        credential_cache_seconds: 2400,
    }
}

fn request(text: &str) -> ConvertedRequest {
    convert_request(&json(text), &provider(), &codec()).unwrap()
}

/// The name under which the only tool of a request is declared.
fn declared(request: &ConvertedRequest) -> String {
    dig(&request.body, "tools/0/functionDeclarations/0/name").as_str().unwrap().to_string()
}

const HELLO: &str = r#"{"candidates":[{"content":{"role":"model","parts":[{"text":"Hello"}]},"finishReason":"STOP"}],"usageMetadata":{"promptTokenCount":5,"candidatesTokenCount":2,"totalTokenCount":7}}"#;

#[test]
fn carriers_open_for_their_own_model_and_key_alone() {
    let codec = codec();
    let parts = json(r#"[{"text":"a","thoughtSignature":"s"}]"#);
    let items = json(r#"[{"type":"message"}]"#);
    let carrier = codec.seal("m", &parts, &items).unwrap();
    assert!(carrier.starts_with("hey_gemini_v1."));
    let turn = codec.open("m", &carrier).unwrap();
    assert!(turn.at("parts").equals(&parts));
    let floats = json(r#"[{"x":0.1,"y":-2.5e-300,"z":1e100}]"#);
    let held = codec.seal("m", &floats, &items).unwrap();
    assert!(codec.open("m", &held).unwrap().at("parts").equals(&floats));
    assert!(codec.replay_items("m", &carrier).unwrap()[0].at("type").is("message"));
    let refused = "Gemini reasoning authentication failed (different model, key or altered carrier)";
    assert_eq!(codec.open("other", &carrier).unwrap_err().message, refused);
    assert_eq!(
        ReasoningCodec::new(&[8; 32]).open("m", &carrier).unwrap_err().message,
        refused,
    );
    assert_eq!(
        codec.open("m", "opaque").unwrap_err().message,
        "Reasoning belongs to another provider or codec; cannot discard it",
    );
    assert_eq!(
        codec.open("m", "hey_gemini_v1.AAAA").unwrap_err().message,
        "Invalid Gemini reasoning carrier",
    );
    let nonce = [1u8; 12];
    assert_eq!(
        codec.seal_with(&nonce, "m", &parts, &items).unwrap(),
        codec.seal_with(&nonce, "m", &parts, &items).unwrap(),
    );
    assert_ne!(codec.seal("m", &parts, &items).unwrap(), codec.seal("m", &parts, &items).unwrap());
}

#[test]
fn requests_are_converted_to_native_contents() {
    let done = request(r#"{"model":"gemini/gemini-2.5-pro","instructions":"Be brief","input":"hi","max_output_tokens":9}"#);
    assert_eq!(done.model, "gemini-2.5-pro");
    assert!(!done.stream);
    assert!(dig(&done.body, "contents/0/role").is("user"));
    assert!(dig(&done.body, "contents/0/parts/0/text").is("hi"));
    assert!(dig(&done.body, "systemInstruction/parts/0/text")
        .as_str()
        .unwrap()
        .starts_with("Initial instruction: role=developer"));
    assert!(dig(&done.body, "systemInstruction/parts/1/text").is("Be brief"));
    assert_eq!(dig(&done.body, "generationConfig/maxOutputTokens").as_u64(), Some(9));
    for bad in [
        r#"{"model":"gemini/x"}"#,
        r#"{"model":"gemini/x","input":[{"type":"unknown"}]}"#,
        r#"{"model":"gemini/a/b","input":"hi"}"#,
    ] {
        assert!(convert_request(&json(bad), &provider(), &codec()).is_err(), "{bad}");
    }
}

#[test]
fn responses_are_converted_to_output_items() {
    let asked = request(r#"{"model":"gemini/x","input":"hi"}"#);
    let nonce = [3u8; 12];
    let done = convert_response_at(&json(HELLO), &asked, &codec(), "abc", 77, &nonce).unwrap();
    assert!(done.at("status").is("completed"));
    assert_eq!(done.at("created_at").as_u64(), Some(77));
    assert_eq!(dig(&done, "usage/input_tokens").as_u64(), Some(5));
    assert_eq!(dig(&done, "usage/output_tokens").as_u64(), Some(2));
    let again = convert_response_at(&json(HELLO), &asked, &codec(), "abc", 77, &nonce).unwrap();
    assert!(done.equals(&again));
    assert!(convert_response(&json(HELLO), &asked, &codec(), "abc").is_ok());
    assert!(convert_response(&json("[]"), &asked, &codec(), "abc").is_err());
    assert_eq!(usage(&json(HELLO)).unwrap().at("total_tokens").as_u64(), Some(7));
    assert!(usage(&json("{}")).is_none());
}

#[test]
fn streams_tell_what_whole_responses_tell() {
    let mut stream = ResponseStream::new(request(r#"{"model":"gemini/x","input":"hi","stream":true}"#), "abc");
    let mut events = stream
        .feed(&json(r#"{"candidates":[{"content":{"role":"model","parts":[{"text":"Hel"}]}}]}"#))
        .unwrap();
    events.extend(stream.feed(&json(r#"{"candidates":[{"content":{"role":"model","parts":[{"text":"lo"}]},"finishReason":"STOP"}]}"#)).unwrap());
    events.extend(stream.finish(&codec()).unwrap());
    assert!(stream.is_finished());
    assert!(events[0].at("type").is("response.created"));
    let text: String = events
        .iter()
        .filter(|e| e.at("type").is("response.output_text.delta"))
        .map(|e| e.at("delta").as_str().unwrap())
        .collect();
    assert_eq!(text, "Hello");
    assert!(events.last().unwrap().at("type").is("response.completed"));
    for (i, event) in events.iter().enumerate() {
        assert_eq!(event.at("sequence_number").as_u64(), Some(i as u64));
    }
    assert_eq!(
        stream.feed(&json(HELLO)).unwrap_err().message,
        "Gemini event arrived after stream completion",
    );
    assert_eq!(
        stream.finish(&codec()).unwrap_err().message,
        "Gemini stream already completed",
    );
}

#[test]
fn a_stream_that_breaks_off_finishes_nothing() {
    let tools = r#"{"model":"gemini/x","input":"hi","stream":true,"tools":[{"type":"function","name":"f","parameters":{"type":"object"}}]}"#;
    let asked = request(tools);
    let name = declared(&asked);
    let mut stream = ResponseStream::new(asked, "abc");
    let mut events = stream
        .feed(&json(&format!(r#"{{"candidates":[{{"content":{{"role":"model","parts":[{{"text":"Hel"}},{{"functionCall":{{"id":"1","name":"{name}","args":{{}}}}}}]}}}}]}}"#)))
        .unwrap();
    assert!(events.iter().any(|e| e.at("type").is("response.function_call_arguments.delta")));
    let last = stream.finish(&codec()).unwrap();
    assert_eq!(last.len(), 1);
    assert!(last[0].at("type").is("response.failed"));
    events.extend(last);
    for event in &events {
        for kind in [
            "response.output_item.done",
            "response.function_call_arguments.done",
            "response.completed",
        ] {
            assert!(!event.at("type").is(kind));
        }
    }
    assert!(stream.is_finished());
    assert!(stream.feed(&json(HELLO)).is_err());
    assert!(stream.finish(&codec()).is_err());
}

#[test]
fn an_answer_sent_back_is_replayed_with_its_native_parts() {
    let tools = r#"[{"type":"function","name":"f","parameters":{"type":"object"}}]"#;
    let asked = request(&format!(r#"{{"model":"gemini/x","input":"hi","tools":{tools}}}"#));
    let name = declared(&asked);
    let native = json(&format!(r#"{{"candidates":[{{"content":{{"role":"model","parts":[{{"text":"think","thought":true}},{{"text":"Hello","thoughtSignature":"sig"}},{{"functionCall":{{"id":"1","name":"{name}","args":{{"x":0.5}}}},"thoughtSignature":"call"}}]}},"finishReason":"STOP"}}]}}"#));
    let answer = convert_response(&native, &asked, &codec(), "abc").unwrap();
    assert!(answer.at("status").is("completed"));
    let parts = dig(&native, "candidates/0/content/parts");
    let output = answer.at("output");
    let send = |input: Json, model: &str| {
        let again = json(&format!(r#"{{"model":"{model}","tools":{tools}}}"#)).with("input", input);
        convert_request(&again, &provider(), &codec())
    };
    let again = send(output.copy(), "gemini/x").unwrap();
    assert!(dig(&again.body, "contents/0/role").is("model"));
    assert!(dig(&again.body, "contents/0/parts").equals(parts));
    let items = output.as_array().unwrap();
    let copies = || -> Vec<Json> { items.iter().map(|item| item.copy()).collect() };
    let mut dropped = copies();
    dropped.pop();
    assert!(send(Json::Array(dropped), "gemini/x").is_err());
    let mut altered = copies();
    let at = altered.len() - 1;
    altered[at].set("name", Json::text("g"));
    assert!(send(Json::Array(altered), "gemini/x").is_err());
    let mut said = copies();
    said[1].set("content", json(r#"[{"type":"output_text","text":"Bye"}]"#));
    assert!(send(Json::Array(said), "gemini/x").is_err());
    assert!(send(output.copy(), "gemini/y").is_err());

    let mut renamed = copies();
    renamed[1].set("content", json(r#"[{"type":"input_text","text":"Hello"}]"#));
    assert!(send(Json::Array(renamed), "gemini/x").is_ok());
    let mut more = copies();
    more[1].set("content", json(r#"[{"type":"output_text","text":"Hello"},{"type":"output_text","text":"!"}]"#));
    assert!(send(Json::Array(more), "gemini/x").is_err());
    let mut spaced = copies();
    spaced[2].set("arguments", Json::text(r#"{ "x": 0.50 }"#));
    assert!(send(Json::Array(spaced), "gemini/x").is_ok());
    for arguments in [r#"{"x":0.25}"#, r#"{"x":0.5"#, r#"{"x":0.5,"y":1}"#] {
        let mut argued = copies();
        argued[2].set("arguments", Json::text(arguments));
        let refused = send(Json::Array(argued), "gemini/x").err().unwrap();
        assert_eq!(
            refused.message,
            "Altered Gemini output replay (arguments); cannot preserve its thought signatures"
        );
    }

    let mut whole = vec![json(r#"{"role":"user","content":"hi"}"#)];
    whole.extend(copies());
    whole.push(json(r#"{"type":"function_call_output","call_id":"1","output":"done"}"#));
    let again = send(Json::Array(whole), "gemini/x").unwrap();
    assert_eq!(again.body.at("contents").as_array().unwrap().len(), 3);
    assert!(dig(&again.body, "contents/0/parts/0/text").is("hi"));
    assert!(dig(&again.body, "contents/1/parts").equals(parts));
    assert!(dig(&again.body, "contents/2/parts/0/functionResponse/id").is("1"));
    let mut stray = copies();
    stray.push(json(r#"{"type":"function_call_output","call_id":"9","output":"done"}"#));
    assert!(send(Json::Array(stray), "gemini/x").is_err());
}

#[test]
fn an_answer_that_was_cut_short_is_replayed_too() {
    let asked = request(r#"{"model":"gemini/x","input":"hi"}"#);
    let native = json(r#"{"candidates":[{"content":{"role":"model","parts":[{"text":"Hel","thoughtSignature":"sig"}]},"finishReason":"MAX_TOKENS"}]}"#);
    let answer = convert_response(&native, &asked, &codec(), "abc").unwrap();
    assert!(answer.at("status").is("incomplete"));
    let again = json(r#"{"model":"gemini/x"}"#).with("input", answer.at("output").copy());
    let again = convert_request(&again, &provider(), &codec()).unwrap();
    assert!(dig(&again.body, "contents/0/parts").equals(dig(&native, "candidates/0/content/parts")));
    assert!(dig(&again.body, "contents/1/parts/0/text").is("Continue."));
}

#[test]
fn a_stream_that_breaks_off_within_a_call_cannot_end() {
    let tools = r#"{"model":"gemini/x","input":"hi","stream":true,"tools":[{"type":"function","name":"f","parameters":{"type":"object"}}]}"#;
    let asked = request(tools);
    let name = declared(&asked);
    let mut stream = ResponseStream::new(asked, "abc");
    let begun = format!(r#"{{"candidates":[{{"content":{{"role":"model","parts":[{{"functionCall":{{"id":"1","name":"{name}","willContinue":true,"partialArgs":[{{"jsonPath":"$.x","stringValue":"a"}}]}}}}]}}}}]}}"#);
    stream.feed(&json(&begun)).unwrap();
    assert_eq!(
        stream.finish(&codec()).unwrap_err().message,
        "Gemini stream ended with incomplete function arguments"
    );
    assert!(stream.is_finished());
    assert!(stream.feed(&json(HELLO)).is_err());
    assert!(stream.finish(&codec()).is_err());
    let mut joined = ResponseStream::new(request(r#"{"model":"gemini/x","input":"hi","stream":true}"#), "abc");
    for part in [r#"{"text":"a"}"#, r#"{"text":"b"}"#, r#"{"thoughtSignature":"s"}"#, "{}"] {
        joined.feed(&json(&format!(r#"{{"candidates":[{{"content":{{"parts":[{part}]}}}}]}}"#))).unwrap();
    }
    let last = joined.finish(&codec()).unwrap();
    assert!(last.len() == 1 && last[0].at("type").is("response.failed"));
}

#[test]
fn a_refused_chunk_ends_its_stream() {
    let mut stream = ResponseStream::new(request(r#"{"model":"gemini/x","input":"hi","stream":true}"#), "abc");
    assert!(stream.feed(&json(r#"{"candidates":3}"#)).is_err());
    assert!(stream.is_finished());
    let mut stream = ResponseStream::new(request(r#"{"model":"gemini/x","input":"hi","stream":true}"#), "abc");
    let events = stream
        .feed(&json(r#"{"error":{"code":429,"status":"RESOURCE_EXHAUSTED","message":"slow down"}}"#))
        .unwrap();
    assert!(events[0].at("type").is("response.failed"));
    assert!(stream.is_finished());
}

#[test]
fn partial_arguments_are_put_together() {
    let mut calls = PartialCalls::new();
    let start = r#"{"functionCall":{"id":"1","name":"f","willContinue":true,"partialArgs":[{"jsonPath":"$.city","stringValue":"Pa","willContinue":true}]}}"#;
    assert!(calls.part(&json(start)).unwrap().is_empty());
    assert!(calls.pending());
    let more = r#"{"functionCall":{"willContinue":true,"partialArgs":[{"jsonPath":"$.city","stringValue":"ris"}]}}"#;
    assert!(calls.part(&json(more)).unwrap().is_empty());
    let done = calls.part(&json(r#"{"functionCall":{}}"#)).unwrap();
    assert_eq!(done.len(), 1);
    assert!(dig(&done[0], "functionCall/args/city").is("Paris"));
    assert!(!calls.pending());
    let mixed = r#"{"functionCall":{"id":"2","name":"f","args":{},"willContinue":true,"partialArgs":[]}}"#;
    assert_eq!(
        PartialCalls::new().part(&json(mixed)).unwrap_err().message,
        "Streaming function call cannot mix args and partialArgs",
    );
}

#[test]
fn argument_paths_are_read_step_by_step() {
    assert_eq!(parse_path("$.a[0]['b c']").unwrap().len(), 3);
    for (path, message) in [
        ("$", "Function partialArgs must address a field, not the root"),
        ("$.", "Empty function JSON path key"),
        ("$[70000]", "Function argument array index exceeds 65535"),
        ("$x", "Invalid function JSON path"),
    ] {
        assert_eq!(parse_path(path).err().unwrap().message, message, "{path}");
    }
}

#[test]
fn native_errors_tell_whether_a_retry_helps() {
    let quota = ResponseError::from_native(
        &json(r#"{"error":{"code":429,"status":"RESOURCE_EXHAUSTED","message":"slow"}}"#),
        Some(429),
    );
    assert!(quota.retryable);
    assert!(quota.error.at("message").as_str().unwrap().contains("slow"));
    let refused = ResponseError::from_native(
        &json(r#"{"error":{"code":403,"status":"PERMISSION_DENIED","message":"no"}}"#),
        Some(403),
    );
    assert!(!refused.retryable);
    let told = read_failure(br#"{"error":{"code":503,"status":"UNAVAILABLE","message":"busy"}}"#, 503);
    assert_eq!(told.code, "UNAVAILABLE");
    assert!(told.retryable);
    assert!(dig(&told.body, "gemini/error/message").is("busy"));
    let unread = read_failure(b"<html>", 500);
    assert_eq!(unread.code, "gemini_http_error");
    assert!(unread.body.at("gemini").is_null());
}

#[test]
fn providers_are_reached_at_their_endpoints() {
    let provider = provider();
    assert_eq!(
        provider.endpoint("gemini-2.5-pro", false).unwrap(),
        "https://generativelanguage.googleapis.com/v1beta/models/gemini-2.5-pro:generateContent",
    );
    assert_eq!(
        provider.endpoint("models/gemini-2.5-pro", true).unwrap(),
        "https://generativelanguage.googleapis.com/v1beta/models/gemini-2.5-pro:streamGenerateContent?alt=sse",
    );
    assert!(provider.endpoint("a/b", false).is_err());
    provider.validate().unwrap();
    assert!(ProviderConfig { api_key: None, ..provider.clone() }.validate().is_err());
    assert!(ProviderConfig { upstream_url: "file:///x".into(), ..provider }.validate().is_err());
}

#[test]
fn requests_for_gemini_come_as_responses_alone() {
    let config = Config {
        gemini: Some(provider()),
        ..fixture()
    };
    let body = json(r#"{"model":"gemini/x","input":"hi"}"#);
    let at = |post, path, has_query| {
        arrive(&Arrival { post, path, has_query }, &config, &body, &codec())
    };
    assert_eq!(at(true, "/v1/responses/", false).unwrap_or_else(|e| panic!("{}", e.message)).model, "x");
    for refused in [
        at(false, "/v1/responses", false),
        at(true, "/v1/chat/completions", false),
        at(true, "/v1/responses", true),
    ] {
        assert_eq!(
            refused.err().unwrap().message,
            "Gemini routes require POST /v1/responses without query parameters",
        );
    }
    let arrival = Arrival { post: true, path: "/v1/responses", has_query: false };
    assert_eq!(
        arrive(&arrival, &fixture(), &body, &codec()).err().unwrap().message,
        "Configure gemini before using a gemini/model_name override",
    );
}

#[test]
fn credentials_follow_the_way_to_authenticate() {
    assert!(matches!(credential(&provider()), Credential::Key(key) if key == "synthetic"));
    let adc = ProviderConfig { auth: Auth::Adc, ..provider() };
    assert!(matches!(credential(&adc), Credential::Default));
    let gcloud = ProviderConfig { auth: Auth::GcloudAdc, ..provider() };
    assert!(matches!(credential(&gcloud), Credential::Bearer(source) if source.starts_with("sh://gcloud")));
    let bearer = ProviderConfig { auth: Auth::Bearer, ..provider() };
    assert!(matches!(credential(&bearer), Credential::Bearer(key) if key == "synthetic"));
}

#[test]
fn replies_are_converted_or_told_to_be_bad() {
    let asked = request(r#"{"model":"gemini/x","input":"hi"}"#);
    assert!(read_reply(HELLO.as_bytes(), &asked, &codec(), "abc").unwrap().at("status").is("completed"));
    let bad = read_reply(b"<html>", &asked, &codec(), "abc").unwrap_err();
    assert_eq!(bad.message, "Invalid Gemini JSON response; retry the request");
    assert_eq!(bad.proxy_code, "gemini_response_read_failed");
    let bad = read_reply(b"[]", &asked, &codec(), "abc").unwrap_err();
    assert_eq!(bad.proxy_code, "gemini_conversion_error");
    assert!(fits(0, 32, 32) && !fits(1, 32, 32));
}

#[test]
fn requests_to_gemini_are_repeated_only_where_that_is_safe() {
    let told = |hop: Hop| match hop {
        Hop::Tell(answer) => answer,
        _ => panic!("nothing is told"),
    };
    let mut attempt = Sending::new(true);
    let answer = told(attempt.unsent(true, false));
    assert!(answer.eligible && !answer.native && answer.status == 502);
    assert!(answer.body.at("error").at("message").is("Could not reach Gemini upstream"));
    assert!(!told(attempt.unsent(false, false)).eligible);
    assert_eq!(attempt.code, "gemini_connect_failed");

    let mut plain = Sending::new(false);
    assert!(matches!(plain.unsent(true, false), Hop::Retry { asked: false }));
    assert!(matches!(plain.retried(true), Hop::Send));
    assert!(matches!(plain.unsent(true, false), Hop::Retry { asked: false }));
    let answer = told(plain.retried(false));
    let message = "Could not reach Gemini upstream; retry the request";
    assert!(!answer.eligible && answer.body.at("error").at("message").is(message));
    assert!(told(plain.unsent(false, true)).body.at("error").at("message").is(message));

    assert!(matches!(plain.responded(200), Hop::Accept));
    assert!(matches!(plain.responded(503), Hop::Read));
    let busy = br#"{"error":{"status":"UNAVAILABLE","message":"busy"}}"#;
    assert!(matches!(plain.read(busy), Hop::Retry { asked: true }));
    assert_eq!(plain.code, "UNAVAILABLE");
    let answer = told(plain.retried(false));
    assert!(answer.native && answer.status == 503);
    assert!(answer.body.at("gemini").at("error").at("message").is("busy"));
    assert!(matches!(plain.responded(400), Hop::Read));
    let refused = br#"{"error":{"status":"INVALID_ARGUMENT","message":"no"}}"#;
    assert!(told(plain.read(refused)).native);
    assert!(matches!(plain.run_out(), Hop::TimedOut));
    let unread = told(plain.unread());
    assert!(unread.body.at("error").at("proxy_code").is("gemini_error_read_failed"));
    let locked = told(plain.locked("no key"));
    assert!(locked.status == 502 && locked.body.at("error").at("message").is("no key"));
}

#[test]
fn native_requests_are_routed_under_the_provider_root() {
    assert!(native_path("/v1beta/models/x:generateContent"));
    assert!(native_path("/v1/models/x:countTokens"));
    assert!(!native_path("/v1/models/x"));
    assert_eq!(native_relative("/v1beta", "/v1beta/files").as_deref(), Some("/files"));
    assert_eq!(
        native_relative("/v1/projects/p", "/v1beta/models/x:go").as_deref(),
        Some("/models/x:go"),
    );
    assert_eq!(native_relative("/v1/projects/p", "/elsewhere"), None);
    let aliases = vec![
        alias("native-alias", Some("gemini/models/target")),
        alias("models/other", Some("openai-only")),
    ];
    let twice = route_native(&aliases, &provider(), "/models//models/foo:x").unwrap_or_else(|e| panic!("{}", e.message));
    assert_eq!(twice.models, Some(("gemini//models/foo".to_string(), "gemini/foo".to_string())));
    assert_eq!(native_base(&provider()).unwrap(), "/v1beta");
    let wrong = ProviderConfig { upstream_url: "no url".into(), ..provider() };
    assert_eq!(native_base(&wrong).err().unwrap().message, "Invalid Gemini root");
    let routed = route_native(&aliases, &provider(), "/models/native-alias:generateContent").unwrap_or_else(|e| panic!("{}", e.message));
    assert_eq!(routed.path, "/models/target:generateContent");
    assert_eq!(
        route_native(&aliases, &provider(), "/models/other:generateContent").err().unwrap().message,
        "Native Gemini cross-provider rewrites require a gemini/model target",
    );
    assert_eq!(native_query("alt=sse&key=secret&access_token=t&q=a+b"), "alt=sse&q=a+b");
    assert_eq!(
        native_url(&provider(), "/files", "alt=sse"),
        "https://generativelanguage.googleapis.com/v1beta/files?alt=sse",
    );
}

#[test]
fn relayed_streams_end_with_their_terminal_event() {
    let stream = ResponseStream::new(request(r#"{"model":"gemini/x","input":"hi","stream":true}"#), "abc");
    let mut relay = StreamRelay::new(stream);
    let mut events = Vec::new();
    for byte in format!("data: {HELLO}\n\n").bytes() {
        events.extend(relay.feed(&[byte], false, &codec()).unwrap());
    }
    events.extend(relay.feed(&[], true, &codec()).unwrap());
    assert!(events.last().unwrap().at("type").is("response.completed"));
    let bytes = sse_bytes(&json(r#"{"type":"x"}"#));
    assert_eq!(bytes, "event: x\ndata: {\"type\":\"x\"}\n\n");
    assert_eq!(tell_cause("Gemini called undeclared tool secret_name"), "Gemini called an undeclared tool");
    assert_eq!(
        conversion_failure("odd"),
        "Gemini stream conversion failed: odd; retry the request",
    );
}

#[test]
fn native_models_keep_their_letters() {
    let aliases = vec![alias("modèle", Some("gemini/日本"))];
    let routed = |path: &str| route_native(&aliases, &provider(), path).map(|route| route.path);
    assert_eq!(routed("/models/é:generateContent").unwrap(), "/models/é:generateContent");
    assert!(routed("/models/modèle:generateContent").is_err());
    let aliases = vec![alias("modèle", Some("gemini/x"))];
    let routed = route_native(&aliases, &provider(), "/models/modèle:é").unwrap();
    assert_eq!(routed.path, "/models/x:é");
    assert!(is_path("/v1/custom/chat/completions///"));
    assert!(!is_path("é/"));
}

#[test]
fn contents_become_native_parts() {
    let parts = content_parts(&json(r#"[{"type":"input_text","text":"a"},{"type":"input_image","image_url":"data:image/png;base64,AA=="}]"#)).unwrap();
    assert!(parts[0].at("text").is("a"));
    assert!(dig(&parts[1], "inlineData/mimeType").is("image/png"));
    assert!(content_parts(&json(r#"[{"type":"nonsense"}]"#)).is_err());
    assert!(parse(to_text(&parts[1]).as_bytes()).unwrap().equals(&parts[1]));
}
