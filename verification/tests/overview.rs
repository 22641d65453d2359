use hey_proxy::config::{Alias, ApiShape, ClientConnection, Config, Mode, ReasoningRoute};
use hey_proxy::exchange::{parse, to_text};
use hey_proxy::gemini::provider::{default_url, Auth, ProviderConfig, Thinking};
use hey_proxy::overview::{catalog, destinations, mode_text};
use hey_proxy::tree::Json;

fn json(text: &str) -> Json {
    parse(text.as_bytes()).unwrap()
}

fn dig<'a>(value: &'a Json, path: &str) -> &'a Json {
    let mut here = value;
    for key in path.split('/') {
        here = match here {
            Json::Array(items) => &items[key.parse::<usize>().unwrap()],
            other => other.at(key),
        };
    }
    here
}

fn alias(from: &str, to: Option<&str>) -> Alias {
    Alias {
        reasoning_routes: Vec::new(),
        from: from.into(),
        to: to.map(Into::into),
        reasoning: None,
        api_key: None,
        api_shape: None,
    }
}

fn route(to: &str) -> ReasoningRoute {
    ReasoningRoute { to: to.into(), api_key: None }
}

fn config() -> Config {
    Config {
        upstream_url: "http://127.0.0.1:9".into(),
        api_keys: vec![("default".into(), "PRIVATE_OPENAI_SOURCE".into())],
        gemini: Some(ProviderConfig {
            upstream_url: default_url(),
            auth: Auth::ApiKey,
            api_key: Some("PRIVATE_GEMINI_SOURCE".into()),
            thinking: Thinking::Auto,
            credential_cache_seconds: 2400,
        }),
        aliases: vec![
            Alias { api_shape: Some(ApiShape::Responses), ..alias("coding", Some("response-target")) },
            Alias {
                api_shape: Some(ApiShape::ChatCompletions),
                ..alias("coding", Some("gemini/chat-target"))
            },
            Alias {
                api_shape: Some(ApiShape::Completions),
                ..alias("legacy-only", Some("legacy-target"))
            },
            alias("native-alias", Some("gemini/models/native-target")),
            Alias {
                reasoning_routes: vec![
                    ("high".into(), route("gemini/deep")),
                    ("low".into(), route("fast")),
                ],
                ..alias("adaptive", Some("openai/primary"))
            },
            alias("models/native-target", Some("openai-only")),
        ],
        fallbacks: vec![(
            "response-target".into(),
            vec!["backup".into(), "gemini/fallback".into()],
        )],
        ..Config::default()
    }
}

fn list(value: &Json) -> &[Json] {
    value.as_array().unwrap()
}

fn api<'a>(catalog: &'a Json, id: &str) -> &'a Json {
    list(catalog.at("apis")).iter().find(|api| api.at("id").is(id)).unwrap()
}

fn model<'a>(api: &'a Json, id: &str) -> Option<&'a Json> {
    list(api.at("models")).iter().find(|model| model.at("id").is(id))
}

#[test]
fn overview_catalog_respects_shape_provider_and_reasoning_routes() {
    let catalog = catalog(&config());
    let responses = api(&catalog, "responses");
    let custom = api(&catalog, "custom-chat");
    let chat = api(&catalog, "chat");
    assert!(dig(model(responses, "coding").unwrap(), "routes/0/target").is("response-target"));
    assert!(dig(model(custom, "coding").unwrap(), "routes/0/target").is("gemini/chat-target"));
    assert!(model(chat, "coding").is_none());
    assert!(model(chat, "gemini/chat-target").is_none());
    assert!(model(responses, "legacy-only").is_none());
    assert!(model(api(&catalog, "completions"), "legacy-only").is_some());
    assert_eq!(list(model(custom, "adaptive").unwrap().at("routes")).len(), 3);
    let routes = list(model(chat, "adaptive").unwrap().at("routes"));
    assert_eq!(routes.len(), 2);
    assert!(routes[1].at("when").is("Reasoning: low"));
    assert!(model(responses, "backup").is_some());
    assert!(model(custom, "gemini/fallback").is_some());
    assert!(model(responses, "fast").is_some());
    assert!(model(responses, "invented-model").is_none());
    let json = to_text(&catalog);
    for private in [
        "PRIVATE_OPENAI_SOURCE",
        "PRIVATE_GEMINI_SOURCE",
        "127.0.0.1:9",
        "api_key",
        "upstream_url",
    ] {
        assert!(!json.contains(private), "Catalog exposed {private}");
    }
}

#[test]
fn overview_native_names_match_url_routing_and_cross_provider_rejections() {
    let catalog = catalog(&config());
    let native = api(&catalog, "gemini");
    assert!(dig(model(native, "native-alias").unwrap(), "routes/0/target").is("native-target"));
    assert!(model(native, "chat-target").is_some());
    assert!(model(native, "coding").is_none()); // Chat-scoped aliases do not apply to native URLs.
    assert!(model(native, "native-target").is_none()); // models/native-target rewrites to OpenAI.
    assert!(model(native, "gemini/chat-target").is_none());
    assert!(model(native, "deep").is_some());
    assert!(model(native, "fallback").is_some());
}

#[test]
fn overview_empty_gemini_only_and_relay_configs_do_not_invent_models() {
    let empty = catalog(&Config::default());
    for api in list(empty.at("apis")) {
        assert_eq!(api.at("configured").as_bool(), Some(false));
        assert!(api.at("models").equals(&json("[]")));
    }
    let mut gemini = config();
    gemini.api_keys.clear();
    let data = catalog(&gemini);
    assert!(api(&data, "chat").at("models").equals(&json("[]")));
    assert!(model(api(&data, "responses"), "gemini/deep").is_some());
    let relay = Config {
        mode: Mode::Client,
        connection: Some(ClientConnection {
            url: "http://host.example:8080".into(),
            api_key: "PRIVATE_HOST_KEY".into(),
        }),
        ..Config::default()
    };
    let data = catalog(&relay.effective());
    assert_eq!(data.at("relay").as_bool(), Some(true));
    assert!(!to_text(&data).contains("PRIVATE_HOST_KEY"));
    for api in list(data.at("apis")) {
        assert_eq!(api.at("configured").as_bool(), Some(false));
        assert!(api.at("models").equals(&json("[]")));
    }
}

#[test]
fn destinations_come_from_rules_and_fallbacks() {
    let names = destinations(&config());
    for name in ["response-target", "backup", "gemini/fallback", "gemini/deep", "fast"] {
        assert_eq!(names.iter().filter(|known| *known == name).count(), 1, "{name}");
    }
    assert_eq!(mode_text(Mode::Host), "host");
}
