use hey_proxy::access::{enroll, enroll_with, equal, generate, key_of, key_path, Keys};
use hey_proxy::attempts::{
    attempt_key, attempt_payload, forwarding, judge_head, media_kind, next_attempt, own_key, plan,
    plan_body, tell_attempt, tell_result, Arrival, Candidate, Forwarding, Inspection, Look,
    Planned, Reply,
};
use hey_proxy::config::{Alias, Config, IpVersion, Mode, Retry};
use hey_proxy::credentials::{
    make_room, read_output, source_of, take_turn, validate_source, Admission, Source, Turn,
    MAX_ENTRIES,
};
use hey_proxy::delivery::{
    failure_code, is_event_stream, upstream_id, Delivery, Outlet, Step,
};
use hey_proxy::exchange::parse;
use hey_proxy::fallback::{
    canonical, judge_event, replay_blocker, targets, transient_error, transient_http, validate,
    Prelude, SsePrelude, MAX_ATTEMPTS,
};
use hey_proxy::headers::{
    native_headers, pass_headers, reply_headers, sized_headers, streamed_headers,
    translated_headers, upstream_headers,
};
use hey_proxy::preparation::{
    field_kind, field_start, form_boundary, form_end, goes_to_gemini, prepare_json, prepare_model,
    prepare_session, Field,
};
use hey_proxy::recovery::{
    connection_failure, delay_with, read_asked_wait, retry_delay, unbounded_model_wait, Budget,
    Verdict,
};
use hey_proxy::tree::Json;
use hey_proxy::upstream::{
    annotate, annotate_body, capacity_error, describe_send_error, explain_unreachable, filter_protocols, gate,
    ip_not_authorized, is_client_header, is_hop_header, nominated, place_path, token,
    unreachable_host, upstream_url, Gate, SendFailure,
};
use std::time::{Duration, SystemTime};

fn json(text: &str) -> Json {
    parse(text.as_bytes()).unwrap()
}

fn dig<'a>(value: &'a Json, path: &str) -> &'a Json {
    let mut here = value;
    for key in path.split('/') {
        here = match here {
            Json::Array(items) => &items[key.parse::<usize>().unwrap()],
            other => other.at(key),
        };
    }
    here
}

fn alias(from: &str, to: Option<&str>) -> Alias {
    Alias {
        reasoning_routes: Vec::new(),
        from: from.into(),
        to: to.map(Into::into),
        reasoning: None,
        api_key: None,
        api_shape: None,
    }
}

fn fixture() -> Config {
    Config {
        api_keys: vec![
            ("default".into(), "something".into()),
            ("primary".into(), "replace-with-primary-api-key".into()),
        ],
        aliases: vec![
            Alias {
                api_key: Some("primary".into()),
                ..alias("model-primary", None)
            },
            Alias {
                reasoning: Some("low".into()),
                ..alias("gpt-4.1", Some("gpt-4.1-mini"))
            },
        ],
        ..Config::default()
    }
}

fn planned() -> Config {
    let mut config = fixture();
    config.fallbacks = vec![("model-primary".into(), vec!["model-secondary".into()])];
    config
}

#[test]
fn fallback_target_rewrites_determine_subsequent_rules_and_cycles_are_bounded() {
    let mut config = planned();
    config.aliases.push(alias("model-secondary", Some("openai/actual-secondary")));
    config.fallbacks.push(("model-secondary".into(), vec!["must-not-run".into()]));
    config.fallbacks.push(("actual-secondary".into(), vec!["last".into()]));
    config.fallbacks.push(("last".into(), vec!["loop-alias".into()]));
    config.aliases.push(Alias {
        api_key: Some("primary".into()),
        ..alias("loop-alias", Some("model-primary"))
    });
    config.validate().unwrap();
    let original = json(r#"{"model":"model-primary"}"#);
    let candidates = plan(&config, "/v1/responses", &original, &original).unwrap();
    assert_eq!(
        candidates.iter().map(|c| c.actual.as_str()).collect::<Vec<_>>(),
        ["model-primary", "actual-secondary", "last"]
    );
}

#[test]
fn retry_delay_is_bounded_exponential_and_honors_retry_after() {
    let config = fixture();
    let delay = |attempt: u32, retry_after: Option<&str>| {
        Duration::from_nanos(retry_delay(&config.retry, attempt, retry_after) as u64)
    };
    for attempt in 0..8 {
        let wait = delay(attempt, None);
        let bound = (500 * (1u64 << attempt)).min(30_000);
        assert!(wait >= Duration::from_millis(bound / 2));
        assert!(wait <= Duration::from_millis(bound));
    }
    assert_eq!(delay(0, Some("12")), Duration::from_secs(12));
    assert_eq!(delay(0, Some("999999")), Duration::from_secs(30));
    let date = httpdate::fmt_http_date(SystemTime::now() + Duration::from_secs(15));
    let wait = delay(0, Some(date.as_str()));
    assert!(wait >= Duration::from_secs(14) && wait <= Duration::from_secs(15));
}

#[test]
fn waits_follow_the_draw_and_the_asked_wait() {
    let retry = Retry::default();
    assert_eq!(delay_with(&retry, 0, 0, 0), 250_000_000);
    assert_eq!(delay_with(&retry, 0, 250, 0), 500_000_000);
    assert_eq!(delay_with(&retry, 0, 0, 7_000_000_001), 7_000_000_001);
    assert_eq!(delay_with(&retry, 0, 0, 31_000_000_000), 30_000_000_000);
    assert_eq!(read_asked_wait(Some("3"), 0), 3_000_000_000);
    let date = Some("Thu, 01 Jan 1970 00:00:09 GMT");
    assert_eq!(read_asked_wait(date, 2_000_000_000), 7_000_000_000);
    assert_eq!(read_asked_wait(date, 2_999_999_999), 6_000_000_001);
    assert_eq!(read_asked_wait(date, 8_999_999_999), 1);
    assert_eq!(read_asked_wait(date, 9_000_000_000), 0);
    assert_eq!(read_asked_wait(Some("soon"), 0), 0);
    assert_eq!(read_asked_wait(None, 0), 0);
}

#[test]
fn retries_end_by_count_or_by_time() {
    let mut counted = Budget::new(
        &Retry { max_retries: 1, recovery_timeout_ms: 0, ..Retry::default() },
        false,
    );
    assert!(matches!(counted.decide(5, 0), Verdict::Wait(5)));
    assert!(matches!(counted.decide(5, 0), Verdict::Stop));
    let timed = Retry { recovery_timeout_ms: 1000, ..Retry::default() };
    let mut timed = Budget::new(&timed, false);
    assert!(matches!(timed.decide(5, 100_000_000), Verdict::Wait(10_000_000)));
    assert!(matches!(timed.decide(5, 10_000_001), Verdict::Wait(10_000_000)));
    assert!(matches!(timed.decide(5, 10_000_000), Verdict::RunOut));
    assert!(matches!(timed.decide(5, 0), Verdict::RunOut));
    let mut fallback = Budget::new(&Retry::default(), true);
    assert!(matches!(fallback.decide(5, 0), Verdict::Stop));
    assert!(unbounded_model_wait(Mode::Standalone, &planned().fallbacks));
    assert!(!unbounded_model_wait(Mode::Standalone, &Vec::new()));
    assert!(connection_failure(true, ""));
}

#[test]
fn chains_are_checked_and_names_are_canonical() {
    assert_eq!(canonical("openai/x"), "x");
    assert_eq!(canonical("x"), "x");
    assert_eq!(canonical("openai/modèle-日本"), "modèle-日本");
    assert_eq!(canonical("openaÏ/x"), "openaÏ/x");
    assert_eq!(canonical("open"), "open");
    assert_eq!(canonical("gemini/x"), "gemini/x");
    let fallbacks = planned().fallbacks;
    assert_eq!(targets(&fallbacks, "openai/model-primary"), ["model-secondary".to_string()]);
    validate(&fallbacks).unwrap();
    for bad in [
        vec![("a".to_string(), vec!["b".to_string()]), ("b".to_string(), vec!["a".to_string()])],
        vec![(" a".to_string(), vec!["b".to_string()])],
        vec![("a".to_string(), vec!["a".to_string()])],
        vec![("a".to_string(), (0..MAX_ATTEMPTS).map(|i| format!("m{i}")).collect())],
    ] {
        assert!(validate(&bad).is_err(), "{bad:?}");
    }
    let chain = |models: usize| -> Vec<(String, Vec<String>)> {
        let mut rules: Vec<(String, Vec<String>)> =
            (1..models).map(|i| (format!("m{i:02}"), vec![format!("m{:02}", i + 1)])).collect();
        rules.sort();
        rules
    };
    validate(&chain(MAX_ATTEMPTS)).unwrap();
    assert_eq!(
        validate(&chain(MAX_ATTEMPTS + 1)).err().unwrap().message,
        "Fallback chain exceeds 16 models"
    );
}

#[test]
fn lasting_errors_never_switch() {
    assert!(transient_error(503, &Json::Null));
    assert!(!transient_error(
        429,
        &json(r#"{"error":{"code":"insufficient_quota","message":"slow"}}"#)
    ));
    assert!(!transient_error(400, &Json::Null));
    assert!(transient_http(429, b"{}"));
    assert!(replay_blocker(&json(r#"{"model":"x","input":"hi"}"#)).is_none());
    assert!(replay_blocker(&json(r#"{"model":"x","previous_response_id":"r"}"#)).is_some());
}

#[test]
fn stream_openings_decide_at_the_first_telling_event() {
    let refused = b"data: {\"type\":\"response.failed\",\"response\":{\"error\":{\"code\":\"server_is_overloaded\"}}}\n\n";
    let mut whole = SsePrelude::new(false);
    assert_eq!(whole.feed(refused), Prelude::Refused);
    let mut split = SsePrelude::new(false);
    let mut last = Prelude::Waiting;
    for byte in refused {
        last = split.feed(&[*byte]);
    }
    assert_eq!(last, Prelude::Refused);
    assert_eq!(split.feed(b"data: {\"type\":\"x.delta\"}\n\n"), Prelude::Refused);
    assert_eq!(
        judge_event(&json(r#"{"type":"response.output_text.delta","delta":"a"}"#), false),
        Prelude::Committed
    );
    assert_eq!(judge_event(&json(r#"{"type":"response.created"}"#), false), Prelude::Waiting);
}

#[test]
fn requests_are_planned_where_rules_apply() {
    let config = planned();
    let arrival = Arrival {
        path: "/v1/responses/",
        post: true,
        websocket: false,
        encoded: false,
        content_type: Some("Application/JSON; charset=utf-8"),
    };
    assert_eq!(forwarding(&config, &arrival), Forwarding::Planned);
    assert_eq!(forwarding(&fixture(), &arrival), Forwarding::Direct);
    assert_eq!(
        forwarding(&config, &Arrival { websocket: true, post: false, ..arrival }),
        Forwarding::UpgradeRequired
    );
    assert_eq!(media_kind("Application/JSON; charset=utf-8"), "application/json");
    let key = attempt_key(b"client-key", "model");
    assert_ne!(key, attempt_key(b"client-key", "other"));
    assert_eq!(key, attempt_key(b"client-key", "model"));
    assert_ne!(key, "client-key");
}

#[test]
fn attempts_switch_only_before_their_reply_is_taken() {
    let reply = |status| Reply { encoded: false, unreached: false, upstream: true, status };
    assert!(matches!(judge_head(&reply(200)), Look::More));
    assert!(matches!(judge_head(&Reply { unreached: true, ..reply(502) }), Look::Switch(_)));
    let mut stream = Inspection::new(true, 200, false);
    assert!(matches!(
        stream.chunk(b"data: {\"type\":\"response.output_text.delta\",\"delta\":\"a\"}\n\n"),
        Look::Pass
    ));
    let mut error = Inspection::new(false, 503, false);
    assert!(matches!(error.chunk(b"{\"error\":{}}"), Look::More));
    assert!(matches!(error.end(), Look::Switch(_)));
}

#[test]
fn refusals_are_told_from_other_errors() {
    assert!(capacity_error(429, b"{}"));
    assert!(capacity_error(500, br#"{"error":{"message":"Selected model is at capacity"}}"#));
    assert!(!capacity_error(500, b"\xffplain"));
    assert!(!capacity_error(429, br#"{"error":{"code":"insufficient_quota"}}"#));
    assert!(ip_not_authorized(401, b"Your IP is not authorized"));
    assert!(ip_not_authorized(403, br#"{"error":{"code":"ip_not_authorized"}}"#));
    assert!(!ip_not_authorized(400, b"Your IP is not authorized"));
    let told = annotate(
        &json(r#"{"error":{"message":"No. "}}"#),
        true,
        IpVersion::Auto,
        Some("::1"),
    )
    .unwrap();
    assert!(dig(&told, "error/message").is("No. hey-proxy: this request reached the upstream over IPv6 from ::1. Allow that address, or set \"ip_version\": \"ipv4\" in the hey-proxy config to use your IPv4 address instead."));
    assert!(annotate(&json("{}"), true, IpVersion::Auto, None).is_none());
    let body = br#"{"error":{"message":"No."}}"#.to_vec();
    assert_eq!(
        annotate_body(body, false, IpVersion::Auto, None),
        br#"{"error":{"message":"No. hey-proxy: this request reached the upstream over IPv4 from an unknown address (public IP lookup failed). Allow that address on the upstream project."}}"#.to_vec()
    );
    for body in ["<html>", "{ }", r#"{"error": {"message": 1}}"#] {
        let bytes = body.as_bytes().to_vec();
        assert_eq!(annotate_body(bytes.clone(), true, IpVersion::Auto, None), bytes);
    }
}

#[test]
fn bodies_are_planned_for_one_model_or_several() {
    let config = planned();
    let plan = |body: &str| plan_body(&config, "/v1/responses", &body.as_bytes().to_vec());
    match plan(r#"{"model":"model-primary","input":"hi"}"#) {
        Ok(Planned::Each(value, changed, candidates)) => {
            assert!(value.at("model").is("model-primary") && changed.at("input").is("hi"));
            assert_eq!(
                candidates.iter().map(|c| c.actual.as_str()).collect::<Vec<_>>(),
                ["model-primary", "model-secondary"]
            );
        }
        _ => panic!("several models are tried"),
    }
    assert!(matches!(plan(r#"{"model":"other"}"#), Ok(Planned::Direct)));
    assert!(matches!(plan("{}"), Ok(Planned::Direct)));
    let stateful = r#"{"model":"model-primary","previous_response_id":"r"}"#;
    assert!(matches!(plan(stateful), Ok(Planned::Skipped("server_side_conversation"))));
    let alone = r#"{"model":"other","previous_response_id":"r"}"#;
    assert!(matches!(plan(alone), Ok(Planned::Direct)));
    for body in ["", "{"] {
        let Err(refusal) = plan(body) else { panic!("not JSON") };
        assert_eq!((refusal.status, refusal.message.as_str()), (400, "Request body must be valid JSON"));
    }
}

#[test]
fn failures_and_responses_are_named_on_record() {
    assert_eq!(failure_code(true), "connect_failed");
    assert_eq!(failure_code(false), "transport_error");
    assert_eq!(upstream_id(None), None);
    assert_eq!(upstream_id(Some("req_1")).as_deref(), Some("req_1"));
    assert_eq!(upstream_id(Some(&"é".repeat(200))), Some("é".repeat(128)));
}

#[test]
fn unreachable_upstreams_are_explained() {
    let failure = |timeout, cause| SendFailure { timeout, connect: true, cause };
    assert_eq!(describe_send_error(&failure(true, "x")), "connection timed out");
    assert_eq!(describe_send_error(&failure(false, "dns error")), "DNS lookup failed: dns error");
    assert_eq!(describe_send_error(&failure(false, "bad Certificate")), "TLS handshake failed: bad Certificate");
    assert_eq!(describe_send_error(&failure(false, "refused")), "connection failed: refused");
    assert_eq!(
        explain_unreachable("h", "c", Some(true)),
        "Could not reach upstream h (c): your internet connection works, so h appears to be down or unreachable"
    );
}

#[test]
fn headers_and_keys_of_clients_are_kept_back() {
    assert_eq!(nominated("close, X-Private"), ["close", "X-Private"]);
    assert!(is_hop_header("te") && !is_hop_header("accept"));
    assert!(is_client_header("authorization") && !is_client_header("accept"));
    assert_eq!(
        filter_protocols("realtime, openai-insecure-api-key.secret, openai-beta.realtime-v1"),
        "realtime, openai-beta.realtime-v1"
    );
    assert_eq!(token(Some("Bearer a"), Some("hey_proxy_access=b")).as_deref(), Some("a"));
    assert_eq!(token(Some("Basic a"), Some("x=1; hey_proxy_access=b")).as_deref(), Some("b"));
    assert_eq!(token(None, None), None);
    assert_eq!(gate(true, "/", false), Gate::OverviewLogin);
    assert_eq!(gate(true, "/logs", false), Gate::LogsLogin);
    assert_eq!(gate(true, "/logs/api", false), Gate::Refuse);
    assert_eq!(gate(true, "/v1/responses", false), Gate::RefuseAndRecord);
    assert_eq!(gate(true, "/v1/responses", true), Gate::Open);
    assert_eq!(gate(false, "/v1/responses", false), Gate::Open);
}

#[test]
fn access_keys_are_made_kept_and_compared() {
    assert_eq!(key_path("/etc/proxy/config.json"), "/etc/proxy/config.access-keys.json");
    assert!(equal("abc", "abc") && !equal("abc", "abd") && !equal("abc", "ab"));
    let one = generate().unwrap();
    assert_ne!(one, generate().unwrap());
    assert!(one.len() > 40);
    let keys = Keys { local: one.clone(), clients: Vec::new() };
    keys.check().unwrap();
    let (keys, changed) = enroll(keys, &vec!["laptop".to_string()]).unwrap();
    assert!(changed);
    assert!(keys.accepts(&one) && keys.accepts(&keys.clients[0].1) && !keys.accepts("guess"));
    let held = keys.clients[0].1.clone();
    let (keys, changed) = enroll(keys, &vec!["laptop".to_string()]).unwrap();
    assert!(!changed);
    assert_eq!(keys.clients.len(), 1);
    assert_eq!(keys.clients[0].1, held);
    assert_eq!(key_of(&[0xab; 32]), format!("hp_{}", "ab".repeat(32)));
    assert_eq!(
        enroll(keys, &vec![String::new()]).err().unwrap().message,
        "Client name cannot be empty"
    );
}

#[test]
fn every_client_gets_a_key_of_its_own() {
    let names = |list: &[&str]| -> Vec<String> { list.iter().map(|name| name.to_string()).collect() };
    let first = Keys { local: generate().unwrap(), clients: Vec::new() };
    let (first, changed) = enroll(first, &names(&["a", "b"])).unwrap();
    assert!(changed);
    let (again, changed) = enroll(first.clone(), &names(&["a", "c"])).unwrap();
    assert!(changed);
    assert_eq!(again.local, first.local);
    assert_eq!(again.clients[..2], first.clients[..]);
    let held: Vec<&str> = again.clients.iter().map(|(name, _)| name.as_str()).collect();
    assert_eq!(held, ["a", "b", "c"]);
    let mut all: Vec<&String> = again.clients.iter().map(|(_, key)| key).collect();
    all.push(&again.local);
    all.sort();
    all.dedup();
    assert_eq!(all.len(), 4);

    let keys = Keys { local: "l".into(), clients: vec![("b".into(), "old".into())] };
    let (keys, changed) =
        enroll_with(keys, &names(&["c", "b", "a", "c"]), &names(&["one", "two", "three"])).unwrap();
    assert!(changed);
    let held: Vec<(&str, &str)> =
        keys.clients.iter().map(|(name, key)| (name.as_str(), key.as_str())).collect();
    assert_eq!(held, [("a", "two"), ("b", "old"), ("c", "one")]);
    assert_eq!(
        enroll_with(keys, &names(&["d"]), &Vec::new()).err().unwrap().message,
        "Could not generate secure access key"
    );
}

fn header(name: &str, value: &str) -> (String, Vec<u8>) {
    (name.to_string(), value.as_bytes().to_vec())
}

#[test]
fn headers_go_on_without_those_of_the_connection_and_the_client() {
    let headers = vec![
        header("host", "proxy"),
        header("connection", "close, X-Private"),
        header("x-private", "1"),
        header("accept", "a"),
        header("authorization", "Bearer client"),
        header("x-goog-api-key", "k"),
        header("accept", "b"),
        header("sec-websocket-protocol", "realtime, openai-insecure-api-key.secret"),
        ("x-raw".to_string(), vec![0xff]),
    ];
    let names = |list: &Vec<(String, Vec<u8>)>| -> Vec<String> {
        list.iter().map(|(name, _)| name.clone()).collect()
    };
    assert_eq!(
        names(&pass_headers(&headers)),
        [
            "host", "accept", "authorization", "x-goog-api-key", "accept",
            "sec-websocket-protocol", "x-raw"
        ]
    );
    let sent = upstream_headers(&headers);
    assert_eq!(
        names(&sent),
        ["accept", "x-goog-api-key", "accept", "x-raw", "sec-websocket-protocol"]
    );
    assert_eq!(sent[4].1, b"realtime");
    assert_eq!(names(&native_headers(&headers)), ["accept", "accept", "sec-websocket-protocol", "x-raw"]);
    let only_key = vec![header("sec-websocket-protocol", "openai-insecure-api-key.secret")];
    assert!(upstream_headers(&only_key).is_empty());
    let translated = translated_headers(&vec![
        header("content-type", "text/plain"),
        header("etag", "1"),
        header("x-request-id", "7"),
    ]);
    assert_eq!(
        translated,
        [header("x-request-id", "7"), header("content-type", "application/json")]
    );
}

#[test]
fn replies_tell_the_length_of_their_own_body() {
    let headers = vec![
        header("content-length", "900"),
        header("connection", "close"),
        header("content-type", "text/plain"),
        header("x-request-id", "7"),
    ];
    assert_eq!(
        reply_headers(headers.clone(), Some(12)),
        [
            header("x-request-id", "7"),
            header("content-type", "application/json"),
            header("content-length", "12"),
        ]
    );
    let plain = reply_headers(headers, None);
    assert_eq!(plain[0], header("content-length", "900"));
    assert_eq!(plain.len(), 3);
    assert_eq!(sized_headers(plain.clone(), 3)[2], header("content-length", "3"));
    assert_eq!(streamed_headers(plain).len(), 2);
}

#[test]
fn attempts_follow_each_other_while_they_switch() {
    let candidate = Candidate { requested: "b".into(), actual: "openai/b".into() };
    let value = parse(br#"{"model":"a","input":"x"}"#).unwrap();
    let changed = parse(br#"{"model":"a2","input":"y"}"#).unwrap();
    assert!(attempt_payload(&value, &changed, &candidate, 0).equals(&value));
    assert!(attempt_payload(&value, &changed, &candidate, 1)
        .equals(&parse(br#"{"model":"b","input":"y"}"#).unwrap()));
    assert_eq!(next_attempt(0, 2, true), Some(1));
    assert_eq!(next_attempt(1, 2, true), None);
    assert_eq!(next_attempt(0, 2, false), None);
    assert_eq!(own_key(0, Some(b"k"), &candidate), None);
    assert_eq!(own_key(1, None, &candidate), None);
    assert_eq!(own_key(1, Some(b"k"), &candidate), Some(attempt_key(b"k", "openai/b")));
    assert!(tell_result(&candidate, 1, Some("busy"), 503).equals(
        &parse(br#"{"model":"openai/b","attempt":2,"reason":"busy","status":503}"#).unwrap()
    ));
    assert!(tell_attempt(&candidate, 0)
        .equals(&parse(br#"{"model":"openai/b","attempt":1}"#).unwrap()));
}

#[test]
fn urls_and_boundaries_are_read_as_their_crates_do() {
    assert_eq!(unreachable_host("https://api.openai.com/v1"), "api.openai.com");
    assert_eq!(unreachable_host("no url"), "no url");
    assert_eq!(upstream_url("https://x.example//", "/v1/models?a=1"), "https://x.example/v1/models?a=1");
    assert_eq!(place_path("/v1/models?a=1?b"), "/v1/models");
    assert_eq!(form_boundary("multipart/form-data; boundary=abc").unwrap(), "abc");
    assert!(form_boundary("text/plain").is_err());
}

#[test]
fn credential_sources_are_checked() {
    for good in ["literal", "sh://print-key", "op://vault/item/field"] {
        validate_source(good).unwrap();
    }
    for (bad, message) in [
        ("sh:// ", "sh:// requires a nonempty shell command without NUL"),
        ("op://vault/item", "op:// requires vault/item/field or vault/item/section/field without query parameters"),
        ("http://x", "Unsupported credential source scheme; supported sources are literal keys, sh:// and op://"),
        ("a\nb", "Invalid literal credential"),
    ] {
        assert_eq!(validate_source(bad).unwrap_err().message, message);
    }
    assert!(matches!(source_of("sh://a b"), Ok(Source::Shell(command)) if command == "a b"));
    assert_eq!(read_output(b" key\n", true).unwrap(), "key");
    for (output, succeeded, message) in [
        (vec![b'x'; 16385], true, "Credential command output exceeds 16 KiB"),
        (b"key".to_vec(), false, "Credential command failed"),
        (vec![0xff], true, "Credential command output must be UTF-8"),
        (b" \n".to_vec(), true, "Credential command returned an empty credential"),
        (b"a\nb".to_vec(), true, "Credential command output is not a valid HTTP header"),
    ] {
        assert_eq!(read_output(&output, succeeded).unwrap_err().message, message);
    }
    assert_eq!(take_turn(Some(1), 2, false), Turn::Reuse);
    assert_eq!(take_turn(Some(2), 2, true), Turn::ShareFailure);
    assert_eq!(take_turn(None, 2, false), Turn::Execute);
    let mut idle = vec![false; MAX_ENTRIES];
    assert_eq!(make_room(false, &idle), Admission::Busy);
    idle[3] = true;
    assert_eq!(make_room(false, &idle), Admission::Evict(3));
    assert_eq!(make_room(true, &idle), Admission::Enter);
}

#[test]
fn bodies_and_forms_are_prepared() {
    let config = fixture();
    let done = prepare_json(&config, "/v1/responses", br#"{"model":"gpt-4.1"}"#.to_vec())
        .unwrap_or_else(|e| panic!("{}", e.message));
    assert!(done.value.at("model").is("gpt-4.1-mini"));
    let route = done.route.unwrap();
    assert_eq!(route.requested.as_deref(), Some("gpt-4.1"));
    assert_eq!(route.routed.as_deref(), Some("gpt-4.1-mini"));
    assert_eq!(route.project, "default");
    assert!(goes_to_gemini(Mode::Standalone, &json(r#"{"model":"gemini/x"}"#)));
    assert!(!goes_to_gemini(Mode::Client, &json(r#"{"model":"gemini/x"}"#)));
    let path = "/v1/audio/transcriptions";
    assert_eq!(field_kind(path, false, Some("model")), Field::Model);
    assert_eq!(field_kind(path, true, Some("model")), Field::Other);
    assert_eq!(field_kind("/v1/realtime/calls", false, Some("session")), Field::Session);
    let field = prepare_model(&config, path, b"gpt-4.1".to_vec()).unwrap_or_else(|e| panic!("{}", e.message));
    assert_eq!(field.bytes, b"gpt-4.1-mini");
    assert!(field.changed);
    assert!(prepare_model(&config, path, vec![0xff]).is_err());
    let session = prepare_session(&config, "/v1/realtime/calls", br#"{"model":"gpt-4.1"}"#.to_vec())
        .unwrap_or_else(|e| panic!("{}", e.message));
    assert!(parse(&session.bytes).unwrap().at("model").is("gpt-4.1-mini"));
    let headers = vec![("content-disposition".to_string(), b"form-data".to_vec())];
    assert_eq!(
        field_start("B", &headers),
        b"--B\r\ncontent-disposition: form-data\r\n\r\n"
    );
    assert_eq!(form_end("B"), b"--B--\r\n");
}

#[test]
fn deliveries_repeat_refusals_alone() {
    let mut delivery = Delivery::new(false, true);
    assert_eq!(delivery.responded(503, false), Step::Read);
    assert_eq!(delivery.read(b"{}"), Step::Read);
    assert_eq!(delivery.ended(), Step::RetryRefused);
    assert_eq!(delivery.retried(true), Step::Send);
    assert_eq!(delivery.unsent(true, false), Step::RetryUnreached);
    assert_eq!(delivery.retried(true), Step::Send);
    assert_eq!(delivery.responded(200, true), Step::Read);
    assert_eq!(
        delivery.read(b"data: {\"type\":\"response.output_text.delta\",\"delta\":\"a\"}\n\n"),
        Step::Deliver
    );
    let head = delivery.head(Mode::Standalone);
    assert_eq!((head.status, head.translated, head.rejected), (200, false, false));
    let mut attempt = Delivery::new(true, false);
    assert_eq!(attempt.unsent(true, false), Step::TransportFailed { eligible: true });
    let mut plain = Delivery::new(false, false);
    assert_eq!(plain.unsent(false, false), Step::Diagnose);
    let mut late = Delivery::new(false, true);
    late.responded(200, true);
    assert_eq!(late.broken(), Step::Interrupted);
    assert_eq!(Delivery::new(false, true).run_out(), Step::TimedOut);
    let mut lasting = Delivery::new(false, true);
    assert_eq!(lasting.responded(429, false), Step::Read);
    lasting.read(br#"{"error":{"code":"insufficient_quota"}}"#);
    assert_eq!(lasting.ended(), Step::Deliver);
}

#[test]
fn delivered_streams_are_translated_and_observed() {
    assert!(is_event_stream("text/event-stream; charset=utf-8"));
    let mut outlet = Outlet::new(false, "text/event-stream");
    let (_, seen) = outlet.feed(b"data: {\"usage\":{\"input_tokens\":1}}\n\n");
    assert_eq!(seen.len(), 1);
    let mut outlet = Outlet::new(false, "text/event-stream");
    let (bytes, _) = outlet.feed(b"data: {\"type\":\"response.failed\",\"response\":{\"error\":{\"code\":\"server_is_overloaded\",\"message\":\"busy\"}}}\n\n");
    let (rest, _) = outlet.finish();
    let text = String::from_utf8([bytes, rest].concat()).unwrap();
    let told = json(text.trim().strip_prefix("data: ").unwrap());
    assert!(dig(&told, "response/error/code").is("server_error"));
    assert!(dig(&told, "response/error/upstream_code").is("server_is_overloaded"));
}
