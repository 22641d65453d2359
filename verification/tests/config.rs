use hey_proxy::address::{Address, Ip};
use hey_proxy::attempts::plan;
use hey_proxy::config::{
    default_upstream, Alias, ClientConnection, Config, DefaultRoute, IpVersion, Logging, Mode,
    RemoteHost, Retry, SshHost,
};
use hey_proxy::exchange::{parse, to_text};
use hey_proxy::gemini::provider::{Auth, ProviderConfig, Thinking};
use hey_proxy::routing::rewrite;
use hey_proxy::error::Error;
use hey_proxy::service::{
    after_login, check_start, login_cookie, reload, Mark, Options, Standing,
};
use hey_proxy::settings::{starter, starter_text, ConfigFile, OpenAiProvider, Providers};
use hey_proxy::tree::Json;

fn json(text: &str) -> Json {
    parse(text.as_bytes()).unwrap()
}

fn dig<'a>(value: &'a Json, path: &str) -> &'a Json {
    let mut here = value;
    for key in path.split('/') {
        here = match here {
            Json::Array(items) => &items[key.parse::<usize>().unwrap()],
            other => other.at(key),
        };
    }
    here
}

fn alias(from: &str, to: Option<&str>) -> Alias {
    Alias {
        reasoning_routes: Vec::new(),
        from: from.into(),
        to: to.map(Into::into),
        reasoning: None,
        api_key: None,
        api_shape: None,
    }
}

fn fixture() -> Config {
    Config {
        api_keys: vec![
            ("default".into(), "something".into()),
            ("primary".into(), "replace-with-primary-api-key".into()),
        ],
        aliases: vec![
            Alias {
                api_key: Some("primary".into()),
                ..alias("model-primary", None)
            },
            Alias {
                reasoning: Some("low".into()),
                ..alias("gpt-4.1", Some("gpt-4.1-mini"))
            },
        ],
        ..Config::default()
    }
}

fn listen() -> Address {
    Address::new(Ip::V4(127, 0, 0, 1), 8080)
}

fn file() -> ConfigFile {
    ConfigFile {
        fallbacks: Vec::new(),
        providers: Providers {
            openai: None,
            gemini: None,
        },
        ssh_hosts: Vec::new(),
        mode: Mode::Standalone,
        connection: None,
        listen: listen(),
        upstream_url: default_upstream(),
        api_keys: Vec::new(),
        gemini: None,
        default: DefaultRoute::default(),
        credential_cache_seconds: 2400,
        aliases: Vec::new(),
        retry: Retry::default(),
        logging: Logging::default(),
        skip_blocked_security_work: false,
        ip_version: IpVersion::Auto,
    }
}

fn words(value: &Json) -> Vec<String> {
    let items = value.as_array().unwrap();
    items.iter().map(|item| item.as_str().unwrap().to_string()).collect()
}

fn pairs(value: &Json) -> Vec<(String, String)> {
    let fields = value.as_object().unwrap();
    fields.iter().map(|(name, text)| (name.clone(), text.as_str().unwrap().to_string())).collect()
}

fn optional(value: &Json, key: &str) -> Option<String> {
    value.get(key).map(|text| text.as_str().unwrap().to_string())
}

/// Reads a configuration file from what was written, field by field.
fn read_back(value: &Json) -> ConfigFile {
    let openai = dig(value, "providers/openai");
    let rules = value.get("fallbacks").map(|rules| rules.as_object().unwrap());
    let retry = value.at("retry");
    ConfigFile {
        providers: Providers {
            openai: Some(OpenAiProvider {
                upstream_url: optional(openai, "upstream_url").unwrap(),
                api_keys: pairs(openai.at("api_keys")),
                default: DefaultRoute {
                    api_key: optional(openai.at("default"), "api_key").unwrap(),
                },
                credential_cache_seconds: openai.at("credential_cache_seconds").as_u64().unwrap(),
            }),
            gemini: None,
        },
        fallbacks: rules
            .into_iter()
            .flatten()
            .map(|(from, targets)| (from.clone(), words(targets)))
            .collect(),
        aliases: value
            .at("aliases")
            .as_array()
            .unwrap()
            .iter()
            .map(|entry| {
                assert!(!entry.has("reasoning_routes") && !entry.has("api_shape"));
                Alias {
                    reasoning: optional(entry, "reasoning"),
                    api_key: optional(entry, "api_key"),
                    ..alias(entry.at("from").as_str().unwrap(), optional(entry, "to").as_deref())
                }
            })
            .collect(),
        retry: Retry {
            max_retries: retry.at("max_retries").as_u64().unwrap() as _,
            initial_delay_ms: retry.at("initial_delay_ms").as_u64().unwrap(),
            max_delay_ms: retry.at("max_delay_ms").as_u64().unwrap(),
            recovery_timeout_ms: retry.at("recovery_timeout_ms").as_u64().unwrap(),
        },
        ..file()
    }
}

fn client() -> Config {
    Config {
        mode: Mode::Client,
        connection: Some(ClientConnection {
            url: "http://shared.local:8080".into(),
            api_key: "access-key".into(),
        }),
        ..Config::default()
    }
}

fn remote(host: &str, mode: Mode) -> RemoteHost {
    RemoteHost {
        host: host.into(),
        gemini_via_controller: false,
        gemini_model: None,
        mode,
        via: None,
        url: None,
        prepare: Vec::new(),
        listen: None,
        codex_home: None,
        model: None,
    }
}

#[test]
fn provider_config_and_legacy_config_have_the_same_canonical_shape() {
    let config = fixture();
    let canonical = config.to_json("127.0.0.1:8080", Vec::new());
    assert!(!canonical.has("api_keys"));
    assert!(!canonical.has("upstream_url"));
    assert!(dig(&canonical, "providers/openai/api_keys/default").is("something"));
    assert!(!canonical.at("providers").has("gemini"));
    let roundtrip = Config::from_file(read_back(&canonical)).ok().unwrap();
    roundtrip.validate().unwrap();
    assert_eq!(roundtrip.api_keys, config.api_keys);
    let legacy = ConfigFile {
        api_keys: vec![("default".into(), "synthetic".into())],
        gemini: Some(ProviderConfig {
            upstream_url: "https://aiplatform.googleapis.com/v1/projects/example-project/locations/global/publishers/google".into(),
            auth: Auth::Adc,
            api_key: None,
            thinking: Thinking::Auto,
            credential_cache_seconds: 2400,
        }),
        ..file()
    };
    let converted = Config::from_file(legacy).ok().unwrap();
    converted.validate().unwrap();
    let converted = converted.to_json("127.0.0.1:8080", Vec::new());
    assert!(dig(&converted, "providers/gemini/auth").is("adc"));
    let mixed = ConfigFile {
        api_keys: vec![("default".into(), "conflict".into())],
        ..read_back(&canonical)
    };
    assert_eq!(
        Config::from_file(mixed).err().unwrap().message,
        "Use providers.openai or legacy OpenAI fields, not both",
    );
}

#[test]
fn both_places_for_gemini_are_refused() {
    let provider = ProviderConfig {
        upstream_url: "https://example.com".into(),
        auth: Auth::ApiKey,
        api_key: Some("k".into()),
        thinking: Thinking::Auto,
        credential_cache_seconds: 2400,
    };
    let both = ConfigFile {
        gemini: Some(provider.clone()),
        providers: Providers {
            openai: None,
            gemini: Some(provider),
        },
        ..file()
    };
    assert_eq!(
        Config::from_file(both).err().unwrap().message,
        "Use providers.gemini or legacy gemini, not both",
    );
}

#[test]
fn rejects_unknown_projects_duplicates_and_unbounded_retry() {
    let mut config = fixture();
    config.default.api_key = "missing".into();
    assert!(config.validate().is_err());
    config = fixture();
    config.aliases.push(config.aliases[0].clone());
    assert!(config.validate().is_err());
    config = fixture();
    config.retry.max_retries = 100;
    assert!(config.validate().is_err());
    config = fixture();
    assert_eq!(config.retry.recovery_timeout_ms, 290_000);
    config.retry.recovery_timeout_ms = 3_600_001;
    assert!(config.validate().is_err());
    config.retry.recovery_timeout_ms = 0;
    assert!(config.validate().is_ok());
}

#[test]
fn inventory_requires_valid_host_client_relationships_and_minimal_client_config() {
    let mut config = fixture();
    config.ssh_hosts = vec![
        SshHost::Settings(RemoteHost {
            via: Some("shared".into()),
            ..remote("client-a", Mode::Client)
        }),
        SshHost::Settings(RemoteHost {
            url: Some("http://shared.local:8080".into()),
            listen: Some(Address::new(Ip::V4(0, 0, 0, 0), 8080)),
            ..remote("shared", Mode::Host)
        }),
    ];
    config.validate().unwrap();
    config.ssh_hosts[0] = SshHost::Settings(RemoteHost {
        via: Some("missing".into()),
        ..remote("client-a", Mode::Client)
    });
    assert_eq!(
        config.validate().unwrap_err().message,
        "Client via references unknown SSH host",
    );
    let mut client = client();
    client.validate().unwrap();
    client.api_keys.push(("upstream-secret".into(), "sk-secret".into()));
    assert_eq!(
        client.validate().unwrap_err().message,
        "Client config must not contain upstream API keys, aliases or fallback rules",
    );
}

#[test]
fn remote_settings_are_checked_one_by_one() {
    let refused = |settings: RemoteHost| {
        Config {
            ssh_hosts: vec![SshHost::Settings(settings)],
            ..fixture()
        }
        .validate()
        .unwrap_err()
        .message
    };
    let plain = |mode| remote("h", mode);
    assert_eq!(refused(plain(Mode::Client)), "Client SSH entry requires via");
    assert_eq!(refused(plain(Mode::Host)), "Host SSH entry requires its client-reachable url");
    assert_eq!(
        refused(RemoteHost { prepare: vec![vec![]], ..plain(Mode::Standalone) }),
        "Remote prepare commands must be nonempty argv arrays",
    );
    assert_eq!(
        refused(RemoteHost { listen: Some(Address::new(Ip::V4(10, 0, 0, 1), 1)), ..plain(Mode::Standalone) }),
        "Remote listen must be a loopback address with a nonzero port",
    );
    assert_eq!(
        refused(RemoteHost { codex_home: Some("relative".into()), ..plain(Mode::Standalone) }),
        "codex_home must be an absolute remote path without control characters",
    );
    assert_eq!(
        refused(RemoteHost { model: Some(" ".into()), ..plain(Mode::Standalone) }),
        "Remote model must be nonempty",
    );
    assert_eq!(
        refused(RemoteHost { via: Some("x".into()), ..plain(Mode::Standalone) }),
        "Standalone SSH entries do not use via or url",
    );
    let twice = Config {
        ssh_hosts: vec![SshHost::Name("a".into()), SshHost::Name("a".into())],
        ..fixture()
    };
    assert_eq!(
        twice.validate().unwrap_err().message,
        "ssh_hosts must contain unique SSH aliases or user@host destinations",
    );
}

#[test]
fn each_limit_of_a_configuration_has_its_message() {
    let message = |config: Config| config.validate().unwrap_err().message;
    let mut config = fixture();
    config.logging.batch_size = 0;
    assert!(message(config).starts_with("Logging limits:"));
    let mut config = fixture();
    config.credential_cache_seconds = 0;
    assert_eq!(message(config), "OpenAI credential_cache_seconds must be 1..86400");
    let mut config = fixture();
    config.upstream_url = "ftp://example.com".into();
    assert_eq!(
        message(config),
        "upstream_url must be an HTTP(S) URL without credentials, query, or fragment",
    );
    let mut config = fixture();
    config.upstream_url = "nonsense".into();
    assert_eq!(message(config), "Invalid upstream_url");
    let mut config = fixture();
    config.api_keys[0].1 = String::new();
    assert_eq!(message(config), "api_keys contains an empty or invalid HTTP header value");
    let mut config = fixture();
    config.aliases[1].to = Some(" ".into());
    assert_eq!(message(config), "Alias model and reasoning values must be nonempty");
    let mut config = fixture();
    config.aliases[0].api_key = Some("unknown".into());
    assert_eq!(message(config), "Alias references an unknown API key project");
    let mut config = client();
    config.connection = None;
    assert_eq!(message(config), "Client mode requires connection.url and connection.api_key");
    let mut config = client();
    config.listen = Address::new(Ip::V4(0, 0, 0, 0), 8080);
    assert_eq!(message(config), "Client mode requires a loopback listening address");
    let mut config = fixture();
    config.connection = client().connection;
    assert_eq!(message(config), "Only client mode accepts connection");
}

#[test]
fn fallback_config_roundtrip_alias_reasoning_and_client_ownership() {
    let mut config = Config {
        upstream_url: "http://127.0.0.1:1".into(),
        fallbacks: vec![("model-primary".into(), vec!["model-secondary".into()])],
        ..fixture()
    };
    config.aliases.push(Alias {
        reasoning: Some("high".into()),
        api_key: Some("primary".into()),
        ..alias("logical", Some("model-primary"))
    });
    let value = config.to_json("127.0.0.1:8080", Vec::new());
    let loaded = Config::from_file(read_back(&value)).ok().unwrap();
    loaded.validate().unwrap();
    assert!(loaded.to_json("127.0.0.1:8080", Vec::new()).equals(&value));
    let request = json(r#"{"model":"logical","reasoning":{"effort":"low","summary":"auto"}}"#);
    let (bytes, key) = rewrite(&loaded, "/v1/responses", to_text(&request).into_bytes()).unwrap();
    assert_eq!(key, "primary");
    let rewritten = parse(&bytes).unwrap();
    assert!(rewritten
        .at("reasoning")
        .equals(&json(r#"{"effort":"high","summary":"auto"}"#)));
    assert_eq!(
        plan(&loaded, "/v1/responses", &request, &rewritten).unwrap()[0].actual,
        "model-primary"
    );
    assert!(!value.has("models"));
    assert!(!value.has("fallback"));
    assert!(value
        .at("fallbacks")
        .equals(&json(r#"{"model-primary":["model-secondary"]}"#)));
    let mut client = client();
    client.fallbacks = config.fallbacks;
    assert!(client.validate().is_err());
    assert!(client.effective().fallbacks.is_empty());
}

#[test]
fn a_client_in_force_sends_everything_to_its_host() {
    let mut config = client();
    config.connection.as_mut().unwrap().url = "http://shared.local:8080///".into();
    let once = config.effective();
    assert_eq!(once.upstream_url, "http://shared.local:8080");
    assert_eq!(once.api_keys, vec![("host".to_string(), "access-key".to_string())]);
    assert_eq!(once.default.api_key, "host");
    assert_eq!(once.retry.max_retries, 0);
    let twice = once.clone().effective();
    assert_eq!(twice.upstream_url, once.upstream_url);
    assert_eq!(twice.api_keys, once.api_keys);
}

#[test]
fn only_host_mode_needs_access_keys() {
    let host = Config {
        mode: Mode::Host,
        ..fixture()
    };
    assert_eq!(
        check_start(&host, false).unwrap_err().message,
        "Host mode requires an access key file",
    );
    assert!(check_start(&host, true).is_ok());
    assert!(check_start(&fixture(), false).is_ok());
}

#[test]
fn reloads_keep_the_mode_and_the_storage() {
    let current = fixture();
    let host = Config {
        mode: Mode::Host,
        ..fixture()
    };
    assert_eq!(
        reload(&current, host).err().unwrap().message,
        "Mode changed; restart the proxy to apply it",
    );
    let mut next = fixture();
    next.logging.enabled = false;
    next.listen.port = 9090;
    next.ip_version = IpVersion::Ipv4;
    let done = reload(&current, next).ok().unwrap();
    assert!(done.config.logging.enabled);
    assert!(done.logging_changed && done.listen_changed && done.reconnect);
    let done = reload(&current, fixture()).ok().unwrap();
    assert!(!done.logging_changed && !done.listen_changed && !done.reconnect);
}

#[test]
fn logins_lead_to_known_pages() {
    assert_eq!(after_login(Some("/")), "/");
    assert_eq!(after_login(Some("https://untrusted.example")), "/logs");
    assert_eq!(after_login(None), "/logs");
    assert_eq!(
        login_cookie("abc").unwrap(),
        "hey_proxy_access=abc; HttpOnly; SameSite=Strict; Path=/",
    );
    assert!(login_cookie("a\nb").is_none());
}

#[test]
fn the_first_configuration_has_no_credentials() {
    assert!(starter().equals(&json(
        r#"{"listen":"127.0.0.1:8080","providers":{"openai":{"api_keys":{}}},"aliases":[],"fallbacks":{}}"#
    )));
    let options = Options::default();
    assert_eq!(options.ip_lookup.v4.len(), 2);
    assert_eq!(options.connectivity_probes[1], "https://cp.cloudflare.com/");
}

#[test]
fn addresses_for_all_interfaces_are_reached_locally() {
    let mut config = Config::default();
    config.listen = Address::new(Ip::V4(0, 0, 0, 0), 1);
    assert_eq!(config.local_address().ip, Ip::V4(127, 0, 0, 1));
    config.listen = Address::new(Ip::V6(0), 1);
    assert_eq!(config.local_address().ip, Ip::V6(1));
    config.listen = Address::new(Ip::V4(10, 0, 0, 1), 1);
    assert_eq!(config.local_address().ip, Ip::V4(10, 0, 0, 1));
}

#[test]
fn the_first_file_is_laid_out_on_lines() {
    let text = starter_text();
    assert!(text.ends_with("}\n"));
    assert!(text.contains("\n  \"listen\": \"127.0.0.1:8080\""));
    assert!(parse(text.as_bytes()).unwrap().equals(&starter()));
}

#[test]
fn invalid_edits_leave_the_last_valid_config_in_force() {
    let mut standing = Standing {
        config: std::sync::Arc::new(fixture().effective()),
        mark: Mark::Dated(1, 10),
    };
    assert!(!standing.is_stale(Mark::Dated(1, 10)));
    let mut broken = fixture();
    broken.default.api_key = "missing".into();
    let edits = [
        Err(Error::new("Invalid config JSON at line 1, column 1")),
        Ok(broken),
        Ok(client()),
    ];
    for (n, edit) in edits.into_iter().enumerate() {
        let mark = Mark::Undated(n as u64);
        assert!(standing.is_stale(mark));
        let next = standing.consider(edit);
        assert!(next.is_err());
        standing = standing.settle(mark, next, true);
        assert!(!standing.is_stale(mark));
        assert_eq!(standing.config.api_keys, fixture().api_keys);
        assert_eq!(standing.config.aliases.len(), 2);
    }
    let mut valid = fixture();
    valid.aliases.pop();
    valid.logging.batch_size = 1;
    let next = standing.consider(Ok(valid.clone()));
    assert!(next.as_ref().is_ok_and(|next| next.logging_changed && !next.reconnect));
    standing = standing.settle(Mark::Missing, next, false);
    assert_eq!(standing.config.aliases.len(), 2);
    let next = standing.consider(Ok(valid));
    standing = standing.settle(Mark::Dated(2, 10), next, true);
    assert_eq!(standing.config.aliases.len(), 1);
    assert_eq!(standing.config.logging.batch_size, fixture().logging.batch_size);
}

#[test]
fn scopes_of_addresses_are_kept() {
    let mut config = Config::default();
    config.listen = Address { ip: Ip::V6(1), port: 8080, flow: 0, scope: 2 };
    assert_eq!(config.local_address(), config.listen);
    assert_ne!(config.listen, Address::new(Ip::V6(1), 8080));
    config.listen.ip = Ip::V6(0);
    assert_eq!(config.local_address(), Address::new(Ip::V6(1), 8080));
}
