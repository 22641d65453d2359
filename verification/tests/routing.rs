use hey_proxy::config::{Alias, ApiShape, Config, ReasoningRoute};
use hey_proxy::chat::request::convert;
use hey_proxy::exchange::{parse, to_text};
use hey_proxy::gemini::replay::ReasoningCodec;
use hey_proxy::logs::entry::now_ms;
use hey_proxy::logs::store::Store;
use hey_proxy::routing::{requested_effort, rewrite, rewrite_uri, route_model};
use hey_proxy::tree::Json;
use hey_proxy::upstream::ip_not_authorized;

fn json(text: &str) -> Json {
    parse(text.as_bytes()).unwrap()
}

fn dig<'a>(value: &'a Json, path: &str) -> &'a Json {
    let mut here = value;
    for key in path.split('/') {
        here = match here {
            Json::Array(items) => &items[key.parse::<usize>().unwrap()],
            other => other.at(key),
        };
    }
    here
}

fn alias(from: &str, to: Option<&str>) -> Alias {
    Alias {
        reasoning_routes: Vec::new(),
        from: from.into(),
        to: to.map(Into::into),
        reasoning: None,
        api_key: None,
        api_shape: None,
    }
}

fn fixture() -> Config {
    Config {
        api_keys: vec![
            ("default".into(), "something".into()),
            ("primary".into(), "replace-with-primary-api-key".into()),
        ],
        aliases: vec![
            Alias {
                api_key: Some("primary".into()),
                ..alias("model-primary", None)
            },
            Alias {
                reasoning: Some("low".into()),
                ..alias("gpt-4.1", Some("gpt-4.1-mini"))
            },
        ],
        ..Config::default()
    }
}

fn route(to: &str, key: Option<&str>) -> ReasoningRoute {
    ReasoningRoute {
        to: to.into(),
        api_key: key.map(Into::into),
    }
}

#[test]
fn routes_by_incoming_effort_and_preserves_it() {
    let config = Config {
        aliases: vec![Alias {
            api_key: Some("primary".into()),
            reasoning_routes: vec![
                ("low".into(), route("model-secondary", Some("default"))),
                ("medium".into(), route("model-secondary", Some("default"))),
                ("mid".into(), route("model-secondary", Some("default"))),
            ],
            ..alias("gpt-5.4", Some("model-primary"))
        }],
        ..fixture()
    };
    config.validate().unwrap();
    for path in ["/v1/responses", "/v1/chat/completions"] {
        for effort in [
            None,
            Some("low"),
            Some("medium"),
            Some("mid"),
            Some("high"),
            Some("xhigh"),
            Some("unknown"),
        ] {
            let mut input = json(r#"{"model": "gpt-5.4", "input": "hello"}"#);
            if let Some(effort) = effort {
                if path.ends_with("responses") {
                    input.set("reasoning", Json::object().with("effort", Json::text(effort)));
                } else {
                    input.set("reasoning_effort", Json::text(effort));
                }
            }
            let (body, key) = rewrite(&config, path, to_text(&input).into_bytes()).unwrap();
            let mut output = parse(&body).unwrap();
            let lower = matches!(effort, Some("low" | "medium" | "mid"));
            assert!(output.at("model").is(if lower {
                "model-secondary"
            } else {
                "model-primary"
            }));
            assert_eq!(key, if lower { "default" } else { "primary" });
            output.set("model", input.at("model").copy());
            assert!(output.equals(&input));
        }
    }
}

#[test]
fn api_shape_gates_all_overrides_url_routing_and_log_evidence() {
    let config = Config {
        aliases: vec![Alias {
            api_key: Some("primary".into()),
            reasoning: Some("high".into()),
            api_shape: Some(ApiShape::Responses),
            reasoning_routes: vec![("low".into(), route("low-target", None))],
            ..alias("friendly", Some("primary"))
        }],
        ..fixture()
    };
    for path in [
        "/v1/chat/completions",
        "/v1/completions",
        "/v1/realtime",
        "/v1/models/friendly",
        "/v1/audio/transcriptions",
        "/v1/custom/chat/completions",
    ] {
        let bytes = br#"{"model":"friendly","reasoning_effort":"low","reasoning":{"effort":"low"}}"#.to_vec();
        let (result, key) = rewrite(&config, path, bytes.clone()).unwrap();
        assert_eq!(result, bytes, "{path}");
        assert_eq!(key, "default");
        let (uri, project) = rewrite_uri(&config, path, Some("model=friendly"), "default".into());
        assert_eq!(uri, format!("{path}?model=friendly"));
        assert_eq!(project, "default");
        let mut store = Store::new("standalone");
        let (id, _) = store.begin("POST", path, "HTTP");
        store.routing_decision(id, &config, path, &bytes, now_ms());
        assert_eq!(store.recent()[0].route_rule.as_deref(), Some("passthrough"));
    }
    let (bytes, key) = rewrite(
        &config,
        "/v1/responses",
        br#"{"model":"friendly","reasoning":{"effort":"low"}}"#.to_vec(),
    )
    .unwrap();
    let result = parse(&bytes).unwrap();
    assert!(result.at("model").is("low-target"));
    assert!(dig(&result, "reasoning/effort").is("high"));
    assert_eq!(key, "primary");
}

#[test]
fn chat_openrouter_enabled_setting_routes_like_its_converted_effort() {
    let config = Config {
        aliases: vec![Alias {
            reasoning_routes: vec![
                ("medium".into(), route("thinking", None)),
                ("none".into(), route("quick", None)),
            ],
            ..alias("friendly", Some("base"))
        }],
        ..fixture()
    };
    let codec = ReasoningCodec::new(&[7; 32]);
    for (enabled, expected) in [(true, "thinking"), (false, "quick")] {
        let mut input = json(r#"{"model":"friendly","messages":[{"role":"user","content":"hello"}]}"#);
        input.set("reasoning", Json::object().with("enabled", Json::Bool(enabled)));
        let (routed, _) = rewrite(
            &config,
            "/v1/custom/chat/completions",
            to_text(&input).into_bytes(),
        )
        .unwrap();
        assert!(parse(&routed).unwrap().at("model").is(expected));
        let converted = convert(&input, expected, &codec).unwrap();
        let (routed, _) = rewrite(
            &config,
            "/v1/responses",
            to_text(&converted.body).into_bytes(),
        )
        .unwrap();
        assert!(parse(&routed).unwrap().at("model").is(expected));
    }
}

#[test]
fn detects_ip_not_authorized_by_code_or_message() {
    let by_code = br#"{"error":{"code":"ip_not_authorized","message":"x"}}"#;
    let by_text = b"Your IP is not authorized to make this request.";
    assert!(ip_not_authorized(401, by_code));
    assert!(ip_not_authorized(403, by_text));
    assert!(!ip_not_authorized(200, by_code));
    assert!(!ip_not_authorized(401, br#"{"error":{"code":"invalid_api_key"}}"#));
}

#[test]
fn aliases_are_not_followed_twice() {
    let config = Config {
        aliases: vec![alias("coding", Some("fast")), alias("fast", Some("slow"))],
        ..fixture()
    };
    let (body, _) = rewrite(&config, "/v1/responses", br#"{"model":"coding"}"#.to_vec()).unwrap();
    assert!(parse(&body).unwrap().at("model").is("fast"));
}

#[test]
fn other_models_and_bodies_pass_as_they_are() {
    let config = fixture();
    let body = br#"{ "model" : "other" , "input":[1,2.50] }"#.to_vec();
    assert_eq!(
        rewrite(&config, "/v1/responses", body.clone()).unwrap(),
        (body, "default".to_string()),
    );
    assert_eq!(
        rewrite(&config, "/v1/responses", Vec::new()).unwrap(),
        (Vec::new(), "default".to_string()),
    );
    assert_eq!(
        rewrite(&config, "/v1/responses", b"{".to_vec()).unwrap_err().message,
        "Request body must be valid JSON",
    );
    assert_eq!(
        rewrite(&config, "/v1/responses", br#"{"model":"gpt-4.1","reasoning":3}"#.to_vec())
            .unwrap_err()
            .message,
        "reasoning must be an object for Responses requests",
    );
    let (body, _) = rewrite(&config, "/v1/responses", br#"{"model":"openai/gpt-5"}"#.to_vec()).unwrap();
    assert_eq!(body, br#"{"model":"gpt-5"}"#.to_vec());
}

#[test]
fn models_in_urls_are_routed_and_encoded() {
    let config = Config {
        aliases: vec![Alias {
            api_key: Some("primary".into()),
            ..alias("a b", Some("x/y"))
        }],
        ..fixture()
    };
    assert_eq!(
        rewrite_uri(&config, "/v1/models/a%20b", None, "default".into()),
        ("/v1/models/x%2Fy".to_string(), "primary".to_string()),
    );
    assert_eq!(
        rewrite_uri(&config, "/v1/realtime", Some("q=1&model=a+b&z"), "default".into()),
        ("/v1/realtime?q=1&model=x%2Fy&z".to_string(), "primary".to_string()),
    );
    assert_eq!(route_model(&config, "/v1/realtime", "a b"), (Some("x/y"), Some("primary")));
}

#[test]
fn efforts_are_read_where_the_kind_of_request_has_them() {
    let both = json(r#"{"reasoning_effort":"low","reasoning":{"effort":"high"}}"#);
    assert_eq!(requested_effort("/v1/chat/completions/", &both), Some("low"));
    assert_eq!(requested_effort("/v1/responses", &both), Some("high"));
    let enabled = json(r#"{"reasoning":{"enabled":true}}"#);
    assert_eq!(requested_effort("/v1/chat/completions", &enabled), Some("medium"));
    assert_eq!(requested_effort("/v1/responses", &enabled), None);
}
