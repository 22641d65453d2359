use hey_proxy::capacity::{event, prelude_event, Prelude};
use hey_proxy::config::{Alias, Config};
use hey_proxy::exchange::parse;
use hey_proxy::guidance::{apply, is_security_block, present, MESSAGE};
use hey_proxy::routing::rewrite;
use hey_proxy::tree::Json;
use hey_proxy::upstream::capacity_error;

fn json(text: &str) -> Json {
    parse(text.as_bytes()).unwrap()
}

fn dig<'a>(value: &'a Json, path: &str) -> &'a Json {
    let mut here = value;
    for key in path.split('/') {
        here = match here {
            Json::Array(items) => &items[key.parse::<usize>().unwrap()],
            other => other.at(key),
        };
    }
    here
}

fn alias(from: &str, to: Option<&str>) -> Alias {
    Alias {
        reasoning_routes: Vec::new(),
        from: from.into(),
        to: to.map(Into::into),
        reasoning: None,
        api_key: None,
        api_shape: None,
    }
}

fn fixture() -> Config {
    Config {
        api_keys: vec![
            ("default".into(), "something".into()),
            ("primary".into(), "replace-with-primary-api-key".into()),
        ],
        aliases: vec![
            Alias {
                api_key: Some("primary".into()),
                ..alias("model-primary", None)
            },
            Alias {
                reasoning: Some("low".into()),
                ..alias("gpt-4.1", Some("gpt-4.1-mini"))
            },
        ],
        ..Config::default()
    }
}

#[test]
fn responses_preserve_content_and_instructions_and_remain_idempotent() {
    let mut value = json(r#"{"model":"private","instructions":"Keep higher priority rules", "input":"Original task"}"#);
    assert!(apply("/v1/responses", &mut value));
    assert!(value.at("instructions").is("Keep higher priority rules"));
    assert!(dig(&value, "input/0").equals(&json(r#"{"role":"user","content":"Original task"}"#)));
    assert!(dig(&value, "input/1/role").is("user"));
    assert!(!apply("/v1/responses", &mut value));
    let output = json(r#"{"type":"function_call_output","call_id":"call-1","output":"Security warning: action denied"}"#);
    match value.remove("input") {
        Some(Json::Array(mut items)) => {
            items.push(output);
            value.set("input", Json::Array(items));
        }
        _ => panic!("input is an array"),
    }
    assert!(apply("/v1/responses", &mut value));
    assert_eq!(value.at("input").as_array().unwrap().len(), 3);
    assert!(dig(&value, "input/1/output").is("Security warning: action denied"));
    assert!(dig(&value, "input/2/content").is(MESSAGE));
}

#[test]
fn chat_keeps_system_and_tool_messages_and_other_protocols_are_untouched() {
    let mut value = json(r#"{"messages":[{"role":"system","content":"System instruction"},{"role":"tool","tool_call_id":"1","content":"denied"}]}"#);
    let original = value.copy();
    assert!(apply("/v1/chat/completions", &mut value));
    assert!(dig(&value, "messages/0").equals(dig(&original, "messages/0")));
    assert!(dig(&value, "messages/1").equals(dig(&original, "messages/1")));
    for path in ["/v1/responses/compact", "/v1/realtime", "/v1/images/generations"] {
        let mut v = original.copy();
        assert!(!apply(path, &mut v));
        assert!(v.equals(&original));
    }
    for mut v in [json(r#"{"input":42}"#), json(r#"{"type":"response.cancel"}"#), json("null")] {
        let original = v.copy();
        assert!(!apply("/v1/responses", &mut v));
        assert!(v.equals(&original));
    }
}

#[test]
fn routing_applies_guidance_only_when_enabled_and_preserves_replay() {
    let original = br#"{"model":"gpt-5.4","input":"original","instructions":"unchanged"}"#.to_vec();
    let mut config = fixture();
    assert_eq!(rewrite(&config, "/v1/responses", original.clone()).unwrap().0, original);
    config.skip_blocked_security_work = true;
    let once = rewrite(&config, "/v1/responses", original).unwrap().0;
    let twice = rewrite(&config, "/v1/responses", once.clone()).unwrap().0;
    assert_eq!(once, twice);
    let v = parse(&once).unwrap();
    assert!(present(&v));
    assert!(v.at("instructions").is("unchanged"));
    for code in [
        "cyber_policy",
        "misalignment_policy_violation",
        "bio_policy",
        "content_policy_violation",
    ] {
        assert!(is_security_block(code));
        let body = format!(r#"{{"error":{{"code":"{code}","message":"security block even if text mentions at capacity"}}}}"#);
        for status in [403, 429, 503, 500] {
            assert!(!capacity_error(status, body.as_bytes()));
        }
        let told = format!(r#"{{"type":"response.failed","response":{{"error":{{"code":"{code}","message":"at capacity"}}}}}}"#);
        assert!(event(told.as_bytes()).is_none());
        assert!(matches!(prelude_event(told.as_bytes()), Prelude::Started));
    }
}
