use tora::entries::Logs;
use tora::json::Json;
use tora::search::classify_transport;
use tora::search::next_delay_ms;
use tora::search::search_url;
use tora::search::serialize_query;
use tora::search::LogClient;
use tora::search::SearchQuery;
use tora::search::TransportDisposition;
use tora::search::TransportEvent;

fn sort_spec() -> Vec<(String, String)> {
    vec![
        ("@timestamp".to_string(), "asc".to_string()),
        ("_id".to_string(), "asc".to_string()),
    ]
}

fn obj(fields: Vec<(&str, Json)>) -> Json {
    Json::Obj(fields.into_iter().map(|(k, v)| (k.to_string(), v)).collect())
}

fn s(v: &str) -> Json {
    Json::Str(v.to_string())
}

fn hit(msg: &str, sort: Vec<Json>) -> Json {
    obj(vec![
        (
            "_source",
            obj(vec![
                ("msg", s(msg)),
                ("@timestamp", s("2019-01-26T00:00:00.074Z")),
                (
                    "syslog",
                    obj(vec![
                        ("severity", s("info")),
                        ("app-name", s("appd")),
                        ("host", s("host1")),
                    ]),
                ),
            ]),
        ),
        ("sort", Json::Arr(sort)),
    ])
}

fn envelope(hits: Vec<Json>) -> Json {
    obj(vec![("hits", obj(vec![("hits", Json::Arr(hits))]))])
}

fn client(cursor: Option<Json>) -> LogClient {
    LogClient {
        index: "apps".to_string(),
        query: SearchQuery {
            cursor: None,
            query: "lukla".to_string(),
            size: 10,
            sort: sort_spec(),
        },
        creds: ("user".to_string(), "pass".to_string()),
        logs: None,
        cursor,
    }
}

#[test]
fn search_query_no_cursor() {
    let query = SearchQuery {
        cursor: None,
        query: "lukla".to_string(),
        size: 10,
        sort: sort_spec(),
    };
    let expected = "{\"query\":{\"query_string\":{\"query\":\"lukla\"}},\"size\":10,\"sort\":[{\"@timestamp\":\"asc\"},{\"_id\":\"asc\"}]}";
    let serialized = serialize_query(&query);
    assert!(!serialized.is_empty());
    assert_eq!(serialized, expected);
}

#[test]
fn search_query_with_cursor() {
    let cursor = Json::Arr(vec![
        Json::Int(1548460800075),
        Json::Str("Arx0h2gB5h6KTWImzOwm".to_string()),
    ]);
    let query = SearchQuery {
        cursor: Some(cursor),
        query: "lukla".to_string(),
        size: 10,
        sort: sort_spec(),
    };
    let expected = "{\"query\":{\"query_string\":{\"query\":\"lukla\"}},\"size\":10,\"sort\":[{\"@timestamp\":\"asc\"},{\"_id\":\"asc\"}],\"search_after\":[1548460800075,\"Arx0h2gB5h6KTWImzOwm\"]}";
    let serialized = serialize_query(&query);
    assert!(!serialized.is_empty());
    assert_eq!(serialized, expected);
}

#[test]
fn empty_query_means_match_all() {
    let query = SearchQuery {
        cursor: None,
        query: "".to_string(),
        size: 500,
        sort: sort_spec(),
    };
    let expected = "{\"query\":{\"query_string\":{\"query\":\"*:*\"}},\"size\":500,\"sort\":[{\"@timestamp\":\"asc\"},{\"_id\":\"asc\"}]}";
    assert_eq!(serialize_query(&query), expected);
}

#[test]
fn query_string_is_escaped() {
    let query = SearchQuery {
        cursor: Some(Json::Arr(vec![Json::Str("a\"b".to_string()), Json::Int(-5)])),
        query: "say \"hi\"\\now\n".to_string(),
        size: 1,
        sort: vec![],
    };
    let expected = "{\"query\":{\"query_string\":{\"query\":\"say \\\"hi\\\"\\\\now\\n\"}},\"size\":1,\"sort\":[],\"search_after\":[\"a\\\"b\",-5]}";
    assert_eq!(serialize_query(&query), expected);
}

#[test]
fn cursor_advances_to_last_hit() {
    let env = envelope(vec![
        hit("one", vec![Json::Int(100), s("ida")]),
        hit("two", vec![Json::Int(200), s("idb")]),
    ]);
    let c = client(None).ingest_response(&env, 0).unwrap();
    let cur = c.cursor.as_ref().unwrap();
    let parts = match cur {
        Json::Arr(parts) => parts,
        _ => panic!("unexpected cursor shape"),
    };
    assert!(matches!(parts[0], Json::Int(200)));
    assert!(matches!(parts[1], Json::Str(ref t) if t == "idb"));
    assert_eq!(c.logs.as_ref().unwrap().0.len(), 2);
}

#[test]
fn empty_batch_keeps_cursor() {
    let prior = Json::Arr(vec![Json::Int(42), Json::Str("x".to_string())]);
    let env = envelope(vec![]);
    let c = client(Some(prior)).ingest_response(&env, 0).unwrap();
    let cur = c.cursor.as_ref().unwrap();
    let parts = match cur {
        Json::Arr(parts) => parts,
        _ => panic!("unexpected cursor shape"),
    };
    assert!(matches!(parts[0], Json::Int(42)));
    assert_eq!(c.logs.as_ref().unwrap().0.len(), 0);
}

#[test]
fn cursor_monotone_over_rounds() {
    // two non-empty rounds in backend order: the tracked cursor after
    // the second is strictly after the one after the first
    let env1 = envelope(vec![hit("one", vec![Json::Int(100), s("ida")])]);
    let env2 = envelope(vec![hit("two", vec![Json::Int(200), s("idb")])]);
    let c = client(None).ingest_response(&env1, 0).unwrap();
    let first_key = |cur: &Json| -> i64 {
        match cur {
            Json::Arr(parts) => match parts[0] {
                Json::Int(v) => v,
                _ => panic!("unexpected cursor shape"),
            },
            _ => panic!("unexpected cursor shape"),
        }
    };
    let after_first = first_key(c.cursor.as_ref().unwrap());
    let (c, _deliver, _empty) = c.process_logs();
    let c = c.ingest_response(&env2, 0).unwrap();
    let after_second = first_key(c.cursor.as_ref().unwrap());
    assert_eq!(after_first, 100);
    assert_eq!(after_second, 200);
    assert!(after_second > after_first);
}

#[test]
fn process_logs_hands_off_and_embeds_cursor() {
    let env = envelope(vec![hit("one", vec![Json::Int(100), s("ida")])]);
    let c = client(None).ingest_response(&env, 0).unwrap();
    let (c, deliver, is_empty) = c.process_logs();
    assert!(!is_empty);
    let batch = deliver.unwrap();
    assert_eq!(batch.len(), 1);
    assert_eq!(batch[0].msg, "one");
    assert!(c.logs.is_none());
    // the tracked cursor is now embedded in the next query
    let qc = c.query.cursor.as_ref().unwrap();
    assert!(matches!(qc, Json::Arr(ref parts) if matches!(parts[0], Json::Int(100))));
    let tc = c.cursor.as_ref().unwrap();
    assert!(matches!(tc, Json::Arr(ref parts) if matches!(parts[0], Json::Int(100))));
}

#[test]
fn process_logs_flags_empty_batch() {
    let mut c = client(None);
    c.logs = Some(Logs(vec![]));
    let (c, deliver, is_empty) = c.process_logs();
    assert!(is_empty);
    assert!(deliver.is_none());
    assert!(c.logs.is_none());
    assert!(c.query.cursor.is_none());
}

#[test]
fn process_logs_without_batch() {
    // a round that ingested nothing (a transient transport failure)
    // counts as empty, so the backoff path applies to it
    let (_, deliver, is_empty) = client(None).process_logs();
    assert!(is_empty);
    assert!(deliver.is_none());
    assert_eq!(next_delay_ms(is_empty), 2000);
}

#[test]
fn transport_classification() {
    let resp = TransportEvent::Response(Json::Null);
    assert_eq!(classify_transport(&resp), TransportDisposition::Ingest);
    let transient = TransportEvent::Failure { would_block: true };
    assert_eq!(classify_transport(&transient), TransportDisposition::SkipRound);
    let fatal = TransportEvent::Failure { would_block: false };
    assert_eq!(classify_transport(&fatal), TransportDisposition::Fatal);
}

#[test]
fn search_url_pattern() {
    let url = search_url("https://backend.example:9998", "apps");
    assert_eq!(url, "https://backend.example:9998/logstash-xerpa-apps-*/_search");
}

#[test]
fn oversized_number_cursor_round_trips_verbatim() {
    // a sort key that does not fit a signed 64-bit integer is carried
    // and echoed back unchanged
    let env = envelope(vec![hit(
        "one",
        vec![Json::Num("18446744073709551615".to_string()), s("ida")],
    )]);
    let c = client(None).ingest_response(&env, 0).unwrap();
    let (c, _deliver, _empty) = c.process_logs();
    let body = serialize_query(&c.query);
    assert!(body.ends_with("\"search_after\":[18446744073709551615,\"ida\"]}"));
}

#[test]
fn non_array_sort_key_is_kept_verbatim() {
    // the cursor is opaque: a sort value of any JSON shape is
    // accepted and echoed back unchanged
    let h = obj(vec![
        (
            "_source",
            obj(vec![
                ("msg", s("one")),
                ("@timestamp", s("2019-01-26T00:00:00.074Z")),
                (
                    "syslog",
                    obj(vec![
                        ("severity", s("info")),
                        ("app-name", s("appd")),
                        ("host", s("host1")),
                    ]),
                ),
            ]),
        ),
        ("sort", Json::Int(5)),
    ]);
    let env = envelope(vec![h]);
    let c = client(None).ingest_response(&env, 0).unwrap();
    assert_eq!(c.logs.as_ref().unwrap().0.len(), 1);
    let (c, _deliver, _empty) = c.process_logs();
    let body = serialize_query(&c.query);
    assert!(body.ends_with("\"search_after\":5}"));
}

#[test]
fn pacing_rule() {
    // an empty round backs off, a productive round continues at once
    assert_eq!(next_delay_ms(true), 2000);
    assert_eq!(next_delay_ms(false), 0);
}
