use hey_proxy::config::{Alias, Config, SshHost};
use hey_proxy::exchange::{parse, to_text};
use hey_proxy::logs::dashboard;
use hey_proxy::logs::entry::Entry;
use hey_proxy::logs::model::{find_query_model, json_model, uri_model, value_model};
use hey_proxy::logs::query::{
    bucket_width, csv_cell, csv_line, export_columns, page, previous_span, Export, Filter, Param,
    Query, MAX_EXPORTED,
};
use hey_proxy::logs::report;
use hey_proxy::logs::store::Store;
use hey_proxy::logs::writer::{
    check_schema, disabled_report, event_row, gives_up, integer, latest, next_act, request_row,
    wants_more, Act, Cell, Desk, Health,
};
use hey_proxy::ordering::sort_places;
use hey_proxy::tree::Json;

fn json(text: &str) -> Json {
    parse(text.as_bytes()).unwrap()
}

fn dig<'a>(value: &'a Json, path: &str) -> &'a Json {
    let mut here = value;
    for key in path.split('/') {
        here = match here {
            Json::Array(items) => &items[key.parse::<usize>().unwrap()],
            other => other.at(key),
        };
    }
    here
}

fn alias(from: &str, to: Option<&str>) -> Alias {
    Alias {
        reasoning_routes: Vec::new(),
        from: from.into(),
        to: to.map(Into::into),
        reasoning: None,
        api_key: None,
        api_shape: None,
    }
}

fn fixture() -> Config {
    Config {
        api_keys: vec![
            ("default".into(), "something".into()),
            ("primary".into(), "replace-with-primary-api-key".into()),
        ],
        aliases: vec![
            Alias {
                api_key: Some("primary".into()),
                ..alias("model-primary", None)
            },
            Alias {
                reasoning: Some("low".into()),
                ..alias("gpt-4.1", Some("gpt-4.1-mini"))
            },
        ],
        ..Config::default()
    }
}

fn query() -> Query {
    Query {
        start: Some(1_000),
        end: Some(61_000),
        model: None,
        model_field: None,
        format: None,
        project: None,
        path: None,
        state: None,
        transport: None,
        q: None,
        group: None,
        include_clients: false,
        limit: None,
        cursor: None,
    }
}

fn filter(query: &Query) -> Filter {
    query.filter_at(0).unwrap_or_else(|e| panic!("{}", e.message))
}

fn refusal(query: &Query) -> String {
    query.filter_at(0).err().unwrap().message
}

#[test]
fn questions_become_conditions_with_parameters() {
    let asked = Query {
        project: Some("primary".into()),
        q: Some("gpt".into()),
        group: Some("path".into()),
        limit: Some(2),
        cursor: Some("55:ab-1".into()),
        ..query()
    };
    let told = filter(&asked);
    assert_eq!((told.start, told.end, told.limit), (1_000, 61_000, 2));
    assert_eq!(told.group, "path");
    assert!(told.sql.contains(" AND project = ?"));
    assert!(!told.sql.contains("primary"));
    assert_eq!(told.params.len(), told.sql.matches('?').count());
    assert!(matches!(&told.params[0], Param::Integer(1_000)));
    assert_eq!(told.cursor, Some((55, "ab-1".to_string())));
    let (sql, params) = report::history_statement(&told);
    assert!(sql.ends_with(" ORDER BY timestamp_ms DESC,request_id DESC LIMIT 3"));
    assert_eq!(params.len(), told.params.len() + 3);
    let before = report::previous_params(&told);
    assert!(matches!(&before[0], Param::Integer(0)));
    assert!(matches!(&before[1], Param::Integer(1_000)));
    let open = Query { start: None, end: None, ..query() }.filter_at(90_000_000);
    let open = open.unwrap_or_else(|e| panic!("{}", e.message));
    assert_eq!((open.start, open.end), (3_600_000, 90_000_000));
}

#[test]
fn questions_out_of_bounds_are_refused() {
    assert_eq!(
        refusal(&Query { project: Some("x".repeat(2049)), ..query() }),
        "Filter value is too long"
    );
    assert_eq!(
        refusal(&Query { q: Some("x".repeat(257)), ..query() }),
        "Search is limited to 256 characters"
    );
    assert_eq!(refusal(&Query { cursor: Some("55".into()), ..query() }), "Invalid request cursor");
    assert_eq!(refusal(&Query { cursor: Some("5:zz".into()), ..query() }), "Invalid request cursor");
    assert!(Query { cursor: Some("x:ab".into()), ..query() }.filter_at(0).is_err());
    assert!(Query { group: Some("record".into()), ..query() }.filter_at(0).is_err());
    assert!(Query { start: Some(2), end: Some(1), ..query() }.filter_at(0).is_err());
    assert!(query().filter().is_ok());
}

#[test]
fn reports_are_cut_and_divided() {
    assert_eq!(bucket_width(0, 61), 2);
    assert_eq!(bucket_width(5, 5), 1);
    assert_eq!(previous_span(1_000, 61_000), (0, 1_000));
    assert_eq!(previous_span(10, 15), (5, 10));
    let records = vec![
        json(r#"{"timestamp_ms":9,"request_id":"b"}"#),
        json(r#"{"timestamp_ms":8,"request_id":"a"}"#),
    ];
    let (shown, next) = page(records, 1);
    assert_eq!((shown.len(), next.as_deref()), (1, Some("9:b")));
    let answers = report::Answers {
        totals: json(r#"{"requests":3}"#),
        previous: Json::Null,
        series: Vec::new(),
        groups: vec![Json::object()],
        errors: Vec::new(),
        slowest: Vec::new(),
        expensive: Vec::new(),
        storage: disabled_report(),
        query_ms: 4,
        snapshot_ms: 5,
    };
    let told = report::report(&filter(&query()), answers);
    assert_eq!(told.at("bucket_ms").as_u64(), Some(1_000));
    assert_eq!(dig(&told, "summary/requests").as_u64(), Some(3));
    assert_eq!(told.at("groups_truncated").as_bool(), Some(false));
    let told = report::summary(Json::object(), &vec![json("1"), json("2"), json("3"), json("4")]);
    assert_eq!(told.at("first_output_ms").as_u64(), Some(4));
    assert!(report::check_id("abc").is_ok());
    assert_eq!(report::check_id(&"x".repeat(101)).unwrap_err().message, "Invalid request ID");
    let event = Json::object().with("details", Json::text(r#"{"a":1}"#));
    let told = report::detail(Json::Null, vec![event]).unwrap();
    assert_eq!(dig(&told, "events/0/details/a").as_u64(), Some(1));
    assert!(report::detail(Json::Null, vec![Json::object()]).is_err());
    assert!(report::read_record("{}").unwrap().at("machine").is("local"));
    assert!(report::read_record("{").is_err());
    let told = report::window(vec![Json::object()], Json::natural(3), 7);
    assert_eq!(dig(&told, "coverage/earliest_ms").as_u64(), Some(3));
}

#[test]
fn formulas_are_marked_in_exports() {
    assert_eq!(csv_cell(&Json::text("=1+1")), "\"'=1+1\"");
    assert_eq!(csv_cell(&Json::text("say \"hi\"")), "\"say \"\"hi\"\"\"");
    assert_eq!(csv_cell(&Json::Null), "\"\"");
    assert_eq!(csv_cell(&Json::natural(5)), "\"5\"");
    let mut export = Export::new(true);
    assert!(export.output.starts_with("request_id,session_id,"));
    export.add_record(r#"{"request_id":"r"}"#).unwrap();
    assert!(export.output.ends_with(&format!("{}\r\n", csv_line(&json(r#"{"request_id":"r"}"#)))));
    assert!(export.add_record("nonsense").is_err());
    let mut lines = Export::new(false);
    lines.add_record("{}").unwrap();
    assert_eq!(lines.output, "{}\n");
    lines.count = MAX_EXPORTED;
    assert_eq!(
        lines.add_record("{}").unwrap_err().message,
        "Export exceeds 50,000 requests; narrow the time range or filters"
    );
    let mut large = Export::new(false);
    assert_eq!(
        large.add_record(&"x".repeat(33_554_432)).unwrap_err().message,
        "Export exceeds 32 MiB; narrow the time range or filters"
    );
    assert_eq!(export_columns().len(), 31);
}

#[test]
fn the_writer_batches_and_reports() {
    assert_eq!(integer(u64::MAX), i64::MAX);
    assert!(check_schema(1).is_ok());
    assert_eq!(
        check_schema(2).unwrap_err().message,
        "Logging database schema 2 is newer than this executable supports"
    );
    let mut health = Health::new(0);
    assert!(health.offer(true, 3, 1));
    assert!(!health.offer(true, 3, 1));
    assert!(health.offer(true, 3, 1));
    let mut unbatched = Health::new(0);
    assert!(unbatched.offer(true, 0, 1));
    assert!(!unbatched.offer(true, 0, 1));
    assert!(health.report(10, 0, 9).at("status").is("healthy"));
    assert_eq!(health.report(10, 0, 9).at("lag_ms").as_u64(), Some(9));
    health.failed("disk full");
    assert!(health.report(10, 0, 9).at("status").is("error"));
    health.wrote(3, 8, 2);
    assert_eq!(health.report(10, 0, 9).at("committed_events").as_u64(), Some(3));
    health.offer(false, 3, 5);
    assert!(health.report(10, 0, 9).at("status").is("gaps"));
    let desk = Desk {
        held: 1,
        batch_size: 2,
        disconnected: false,
        flushing: false,
        new_drops: false,
        due: false,
    };
    assert!(wants_more(&desk));
    assert_eq!(next_act(&desk), Act::Wait);
    assert_eq!(next_act(&Desk { due: true, ..desk }), Act::Write);
    assert_eq!(next_act(&Desk { held: 0, flushing: true, ..desk }), Act::Answer);
    assert!(gives_up(true, 5_001) && !gives_up(false, 9_000));
}

#[test]
fn the_last_snapshot_of_each_request_is_written() {
    let mut store = Store::new("standalone");
    let (one, first) = store.begin("POST", "/a", "HTTP");
    let (_, second) = store.begin("POST", "/b", "HTTP");
    let third = store.retries(one, 2, 5).unwrap();
    let row = event_row(&third, 5);
    assert!(matches!(&row[1], Cell::Integer(5)));
    let events = vec![first, second, third];
    assert_eq!(latest(&events), [1, 2]);
    let row = request_row(&events[2].entry);
    assert!(row.iter().any(|cell| matches!(cell, Cell::Text(text) if text == "/a")));
    let record = row.iter().find_map(|cell| match cell {
        Cell::Text(text) if text.starts_with('{') => Some(json(text)),
        _ => None,
    });
    assert_eq!(record.unwrap().at("retries").as_u64(), Some(2));
}

#[test]
fn memory_overlays_what_was_recorded() {
    let mut store = Store::new("standalone");
    let (id, event) = store.begin_at("POST", "/v1/responses", "HTTP", 9_000_000, None);
    store.complete(id, "succeeded", "http", None, 1, 9_000_001, 1);
    let key = event.entry.request_id;
    let recorded = json(&format!(
        r#"{{"entries":[{{"request_id":"{key}","timestamp_ms":9000000,"state":"pending"}},{{"request_id":"old","timestamp_ms":8999999}}],"coverage":{{"source":"sqlite"}}}}"#
    ));
    dashboard::check_minutes(Some(15)).unwrap();
    assert!(dashboard::check_minutes(Some(16)).is_err());
    let (shown, coverage) = dashboard::view_local(
        &store.recent(),
        &fixture(),
        Some(&recorded),
        Some(15),
        9_000_005,
    );
    assert_eq!(shown.len(), 2);
    assert!(shown[0].at("state").is("succeeded"));
    assert!(shown[1].at("request_id").is("old"));
    assert!(coverage.at("source").is("sqlite"));
    let (shown, coverage) = dashboard::view_local(&store.recent(), &fixture(), None, None, 9_000_005);
    assert_eq!(shown.len(), 1);
    assert!(coverage.at("source").is("memory"));
    assert_eq!(dashboard::time_span(9_000_000, 15), (8_100_001, 9_000_001));
    assert!(dashboard::window_is_fresh(Some(15), 15, 4_999));
    assert!(!dashboard::window_is_fresh(Some(15), 60, 1));
}

#[test]
fn machines_are_shown_as_far_as_they_answered() {
    let reply = Some(json(r#"{"mode":"host","entries":[{"request_id":"r"}]}"#));
    let (machine, entries) = dashboard::view_remote("build", &reply);
    assert!(machine.at("status").is("live"));
    assert!(entries[0].at("machine").is("build"));
    let (gone, none) = dashboard::view_remote("other", &None);
    assert!(gone.at("status").is("unavailable"));
    assert!(none.is_empty());
    let hosts = vec![SshHost::Name("build".into()), SshHost::Name("new".into())];
    let machines = dashboard::show_machines(&hosts, &vec![machine, gone]);
    assert!(machines[0].at("status").is("live"));
    assert!(machines[1].at("status").is("connecting"));
    assert_eq!(dashboard::show_entries(&entries, &hosts).len(), 1);
    assert!(dashboard::asks_remotes(false, None));
    assert!(!dashboard::asks_remotes(false, Some(9_999)));
    let local = dashboard::local_machine(&fixture(), dashboard::cover_memory(1));
    assert!(dig(&local, "routing/default_project").is("default"));
    let whole = dashboard::page(entries, machines, disabled_report());
    assert_eq!(whole.at("limit").as_u64(), Some(500));
    assert!(!to_text(&local).contains("replace-with-primary-api-key"));
}

#[test]
fn models_are_found_in_bodies_and_addresses() {
    assert_eq!(value_model(&json(r#"{"session":{"model":"m"}}"#)).as_deref(), Some("m"));
    assert_eq!(json_model(br#"{"model":"m"}"#).as_deref(), Some("m"));
    assert_eq!(json_model(b"nonsense"), None);
    let uri = "/v1/realtime?voice=x&model=gpt%2Drealtime";
    assert_eq!(uri_model("/v1/realtime", uri).as_deref(), Some("gpt-realtime"));
    assert_eq!(uri_model("/v1/models/m%2D1", "/v1/models/m%2D1").as_deref(), Some("m-1"));
    let pairs = vec![("model".to_string(), "m".to_string())];
    assert_eq!(find_query_model(&pairs).as_deref(), Some("m"));
}

#[test]
fn places_are_sorted_newest_first() {
    let keys = vec![(1, "a".to_string()), (3, "b".to_string()), (3, "c".to_string())];
    let places = sort_places(&keys);
    assert_eq!(places[2], 0);
    assert_eq!(keys[places[0]].0, 3);
    assert_eq!(Entry::default().id, 0);
    assert_eq!(alias("a", None).from, "a");
    let mut object = Json::object();
    for name in ["b", "c", "a", "b"] {
        object.set(name, Json::text(name));
    }
    assert_eq!(to_text(&object), r#"{"a":"a","b":"b","c":"c"}"#);
    assert!(object.remove("b").unwrap().is("b"));
    assert_eq!(to_text(&object), r#"{"a":"a","c":"c"}"#);
}

#[test]
fn pages_hold_every_record_once() {
    // Newest first, and by the id where the time is the same.
    let all: Vec<Json> = [(9, "b"), (9, "a"), (7, "f"), (7, "e"), (7, "d"), (1, "c")]
        .iter()
        .map(|(time, id)| {
            Json::object()
                .with("timestamp_ms", Json::natural(*time))
                .with("request_id", Json::text(id))
        })
        .collect();
    let mut cursor: Option<String> = None;
    let mut seen: Vec<String> = Vec::new();
    let mut sizes: Vec<usize> = Vec::new();
    loop {
        let place = Query { cursor: cursor.clone(), ..query() }
            .filter_at(0)
            .unwrap_or_else(|e| panic!("{}", e.message))
            .cursor;
        let found: Vec<Json> = all
            .iter()
            .filter(|record| {
                let time = record.at("timestamp_ms").as_u64().unwrap();
                let id = record.at("request_id").as_str().unwrap();
                match &place {
                    None => true,
                    Some((t, i)) => time < *t || (time == *t && id < i.as_str()),
                }
            })
            .take(3)
            .map(|record| record.copy())
            .collect();
        let (shown, next) = page(found, 2);
        sizes.push(shown.len());
        seen.extend(shown.iter().map(|record| record.at("request_id").as_str().unwrap().to_string()));
        cursor = next;
        if cursor.is_none() {
            break;
        }
    }
    assert_eq!(seen, ["b", "a", "f", "e", "d", "c"]);
    assert_eq!(sizes, [2, 2, 2]);
}
