use tora::entries::Logs;
use tora::entries::parse_entry;
use tora::json::Json;
use tora::severity::Severity;
use tora::time::parse_rfc3339_utc;
use tora::time::parse_timestamp;
use tora::time::with_offset_seconds;
use tora::time::DateTime;

fn obj(fields: Vec<(&str, Json)>) -> Json {
    Json::Obj(fields.into_iter().map(|(k, v)| (k.to_string(), v)).collect())
}

fn s(v: &str) -> Json {
    Json::Str(v.to_string())
}

fn hit(msg: &str, ts: &str, severity: &str, app: &str, host: &str, sort: Vec<Json>) -> Json {
    obj(vec![
        (
            "_source",
            obj(vec![
                ("msg", s(msg)),
                ("@timestamp", s(ts)),
                (
                    "syslog",
                    obj(vec![
                        ("severity", s(severity)),
                        ("app-name", s(app)),
                        ("host", s(host)),
                    ]),
                ),
            ]),
        ),
        ("sort", Json::Arr(sort)),
    ])
}

fn envelope(hits: Vec<Json>) -> Json {
    obj(vec![("hits", obj(vec![("hits", Json::Arr(hits))]))])
}

#[test]
fn parse0() {
    let env = envelope(vec![
        hit(
            "Accepted publickey for deploy",
            "2019-01-26T00:00:00.074Z",
            "info",
            "sshd",
            "web-1",
            vec![Json::Int(1548460800074), s("Arx0h2gB5h6KTWImzOwl")],
        ),
        hit(
            "Connection closed by peer",
            "2019-01-26T00:00:00.075Z",
            "err",
            "nginx",
            "web-2",
            vec![Json::Int(1548460800075), s("Arx0h2gB5h6KTWImzOwm")],
        ),
    ]);
    assert!(Logs::from_json(&env, 0).is_ok());
}

#[test]
fn test_parse_timestamp() {
    let raw = "2019-01-26T00:00:00.074Z";
    let parsed = parse_rfc3339_utc(raw);
    assert!(parsed.is_ok());
    let dt = parsed.unwrap();
    // rendered in a UTC-2 local zone, as the fixed offset -7200 s
    let local = with_offset_seconds(dt, -7200);
    let expected = DateTime {
        year: 2019,
        month: 1,
        day: 25,
        hour: 22,
        minute: 0,
        second: 0,
        millisecond: 74,
    };
    assert_eq!(local, expected);
}

#[test]
fn parse_timestamp_utc_fields() {
    let dt = parse_rfc3339_utc("2019-01-26T00:00:00.074Z").unwrap();
    let expected = DateTime {
        year: 2019,
        month: 1,
        day: 26,
        hour: 0,
        minute: 0,
        second: 0,
        millisecond: 74,
    };
    assert_eq!(dt, expected);
}

#[test]
fn parse_timestamp_offset_input() {
    // an explicit zone offset in the input is normalized away
    let dt = parse_rfc3339_utc("2019-03-01T01:30:00+02:00").unwrap();
    let expected = DateTime {
        year: 2019,
        month: 2,
        day: 28,
        hour: 23,
        minute: 30,
        second: 0,
        millisecond: 0,
    };
    assert_eq!(dt, expected);
}

#[test]
fn parse_timestamp_leap_day() {
    let dt = parse_rfc3339_utc("2020-03-01T00:10:00Z").unwrap();
    let back = with_offset_seconds(dt, -3600);
    let expected = DateTime {
        year: 2020,
        month: 2,
        day: 29,
        hour: 23,
        minute: 10,
        second: 0,
        millisecond: 0,
    };
    assert_eq!(back, expected);
}

#[test]
fn parse_timestamp_local_zone() {
    // machine-zone dependent rendering: only zone-independent facts
    // are asserted. Offsets are whole seconds under a day, so the
    // millisecond field always survives the shift.
    let parsed = parse_timestamp("2019-01-26T00:00:00.074Z");
    assert!(parsed.is_ok());
    assert_eq!(parsed.unwrap().millisecond, 74);
    assert!(parse_timestamp("2019-01-26T00:00:00.074").is_err());
}

#[test]
fn parse_timestamp_space_separator() {
    let dt = parse_rfc3339_utc("2019-01-26 00:00:00Z").unwrap();
    assert_eq!(dt.day, 26);
    assert_eq!(dt.hour, 0);
}

#[test]
fn parse_timestamp_leap_second() {
    // a leap second is accepted and folded into second 59 of the
    // same minute, keeping the fraction
    let dt = parse_rfc3339_utc("2016-12-31T23:59:60Z").unwrap();
    let expected = DateTime {
        year: 2016,
        month: 12,
        day: 31,
        hour: 23,
        minute: 59,
        second: 59,
        millisecond: 0,
    };
    assert_eq!(dt, expected);
    let frac = parse_rfc3339_utc("2016-12-31T23:59:60.250Z").unwrap();
    assert_eq!(frac.second, 59);
    assert_eq!(frac.millisecond, 250);
}

#[test]
fn parse_timestamp_year_edges() {
    // the full four-digit year range is accepted, and a zone shift
    // may leave it by a day at either end
    assert!(parse_rfc3339_utc("0000-01-01T00:00:00Z").is_ok());
    assert!(parse_rfc3339_utc("9999-12-31T23:59:59Z").is_ok());
    let dt = parse_rfc3339_utc("0000-01-01T00:30:00+01:00").unwrap();
    let expected = DateTime {
        year: -1,
        month: 12,
        day: 31,
        hour: 23,
        minute: 30,
        second: 0,
        millisecond: 0,
    };
    assert_eq!(dt, expected);
}

#[test]
fn parse_timestamp_rejects_malformed() {
    assert!(parse_rfc3339_utc("2019-01-26").is_err());
    assert!(parse_rfc3339_utc("2019-13-26T00:00:00Z").is_err());
    assert!(parse_rfc3339_utc("2019-02-30T00:00:00Z").is_err());
    assert!(parse_rfc3339_utc("2019-01-26T00:00:00.Z").is_err());
    assert!(parse_rfc3339_utc("2019-01-26T00:00:00").is_err());
}

#[test]
fn lenient_batch_drops_malformed_hit() {
    // one well-formed hit and one hit missing `msg`: a one-entry batch
    let bad = obj(vec![
        (
            "_source",
            obj(vec![
                ("@timestamp", s("2019-01-26T00:00:00.074Z")),
                (
                    "syslog",
                    obj(vec![
                        ("severity", s("info")),
                        ("app-name", s("x")),
                        ("host", s("y")),
                    ]),
                ),
            ]),
        ),
        ("sort", Json::Arr(vec![Json::Int(7)])),
    ]);
    let good = hit(
        "all is well",
        "2019-01-26T00:00:00.074Z",
        "info",
        "appd",
        "host9",
        vec![Json::Int(8)],
    );
    let env = envelope(vec![good, bad]);
    let logs = Logs::from_json(&env, 0).unwrap();
    assert_eq!(logs.0.len(), 1);
    assert_eq!(logs.0[0].msg, "all is well");
}

#[test]
fn bad_timestamp_drops_only_that_hit() {
    let bad = hit("m", "not-a-timestamp", "info", "a", "h", vec![Json::Int(1)]);
    let good = hit("n", "2019-01-26T00:00:00Z", "info", "a", "h", vec![Json::Int(2)]);
    let env = envelope(vec![bad, good]);
    let logs = Logs::from_json(&env, 0).unwrap();
    assert_eq!(logs.0.len(), 1);
    assert_eq!(logs.0[0].msg, "n");
}

#[test]
fn malformed_envelope_is_fatal() {
    // missing the inner hits level
    let env = obj(vec![("hits", obj(vec![]))]);
    assert!(Logs::from_json(&env, 0).is_err());
    // inner hits not an array
    let env2 = obj(vec![("hits", obj(vec![("hits", s("nope"))]))]);
    assert!(Logs::from_json(&env2, 0).is_err());
    // no hits at all
    assert!(Logs::from_json(&obj(vec![]), 0).is_err());
}

#[test]
fn parse_entry_fields_and_quirk() {
    let h = hit(
        "kernel panic",
        "2019-01-26T00:00:00.074Z",
        "err",
        "kern",
        "db-3",
        vec![Json::Int(11), s("abc")],
    );
    let e = parse_entry(&h, -7200).unwrap();
    assert_eq!(e.msg, "kernel panic");
    assert!(matches!(e.severity, Severity::Error));
    assert_eq!(e.app_name, "kern");
    assert_eq!(e.host, "db-3");
    // the process id is read from the same backend field as the host:
    // a quirk of the source data layout, preserved as found
    assert_eq!(e.procid, "db-3");
    assert_eq!(e.timestamp.day, 25);
    assert_eq!(e.timestamp.hour, 22);
    let parts = match &e.cursor {
        Json::Arr(parts) => parts,
        _ => panic!("unexpected cursor shape"),
    };
    assert!(matches!(parts[0], Json::Int(11)));
    assert!(matches!(parts[1], Json::Str(ref t) if t == "abc"));
}

#[test]
fn severity_round_trip() {
    assert!(matches!(Severity::from_str("debug"), Severity::Debug));
    assert!(matches!(Severity::from_str("info"), Severity::Info));
    assert!(matches!(Severity::from_str("warning"), Severity::Warn));
    assert!(matches!(Severity::from_str("notice"), Severity::Notice));
    assert!(matches!(Severity::from_str("err"), Severity::Error));
    assert!(matches!(
        Severity::from_str("emerg"),
        Severity::Custom(ref t) if t == "emerg"
    ));
    assert!(matches!(
        Severity::from_str(""),
        Severity::Custom(ref t) if t.is_empty()
    ));
}
