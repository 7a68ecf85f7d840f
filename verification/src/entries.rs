//! The entry model: one structured log record, and the lenient
//! raw-to-typed parsing of a whole search response. A malformed
//! individual hit is dropped; a malformed response envelope is fatal.

use vstd::prelude::*;
use crate::ToraError;
use crate::json::Json;
use crate::json::Cursor;
use crate::json::spec_get;
use crate::json::spec_as_str;
use crate::json::json_text;
use crate::json::json_dup;
use crate::severity::Severity;
use crate::severity::SeverityModel;
use crate::severity::sev_of;
use crate::time::DateTime;
use crate::time::spec_parse_utc;
use crate::time::spec_with_offset;
use crate::time::parse_rfc3339_utc;
use crate::time::with_offset_seconds;

verus! {

/// One parsed log record. The timestamp is civil time in the zone the
/// caller's offset selected; the cursor is the backend's sort key for
/// this record, an opaque JSON value kept verbatim for pagination.
#[derive(Debug)]
pub struct LogEntry {
    pub msg: String,
    pub timestamp: DateTime,
    pub severity: Severity,
    pub host: String,
    pub app_name: String,
    pub procid: String,
    pub cursor: Cursor,
}

/// The abstract value of a log record. The cursor appears as its
/// exact JSON rendering: the token the engine echoes and compares,
/// never interprets.
pub struct EntryModel {
    pub msg: Seq<char>,
    pub timestamp: DateTime,
    pub severity: SeverityModel,
    pub host: Seq<char>,
    pub app_name: Seq<char>,
    pub procid: Seq<char>,
    pub cursor: Seq<char>,
}

impl View for LogEntry {
    type V = EntryModel;

    open spec fn view(&self) -> EntryModel {
        EntryModel {
            msg: self.msg@,
            timestamp: self.timestamp,
            severity: self.severity@,
            host: self.host@,
            app_name: self.app_name@,
            procid: self.procid@,
            cursor: json_text(self.cursor),
        }
    }
}

/// The string under `_source.<key>` of a raw hit, if present.
pub open spec fn spec_source_str(hit: Json, key: Seq<char>) -> Option<Seq<char>> {
    match spec_get(hit, "_source"@) {
        Some(src) => match spec_get(src, key) {
            Some(v) => spec_as_str(v),
            None => None,
        },
        None => None,
    }
}

/// The string under `_source.syslog.<key>` of a raw hit, if present.
pub open spec fn spec_syslog_str(hit: Json, key: Seq<char>) -> Option<Seq<char>> {
    match spec_get(hit, "_source"@) {
        Some(src) => match spec_get(src, "syslog"@) {
            Some(sl) => match spec_get(sl, key) {
                Some(v) => spec_as_str(v),
                None => None,
            },
            None => None,
        },
        None => None,
    }
}

/// What one raw hit parses to, given the zone offset the timestamp is
/// rendered in: every required field present and a string, the
/// timestamp valid RFC3339, the sort value present — or nothing. The
/// sort value is opaque: whatever JSON it holds is kept verbatim as
/// the cursor. The process id is read from the same backend field as
/// the host: a quirk of the source data layout, preserved as found.
pub open spec fn spec_entry(hit: Json, off: int) -> Option<EntryModel> {
    let msg = spec_source_str(hit, "msg"@);
    let ts = spec_source_str(hit, "@timestamp"@);
    let sev = spec_syslog_str(hit, "severity"@);
    let app = spec_syslog_str(hit, "app-name"@);
    let host = spec_syslog_str(hit, "host"@);
    let cur = match spec_get(hit, "sort"@) {
        Some(v) => Some(json_text(v)),
        None => None,
    };
    if msg is Some && ts is Some && spec_parse_utc(ts.unwrap()) is Some && sev is Some && app
        is Some && host is Some && cur is Some {
        Some(
            EntryModel {
                msg: msg.unwrap(),
                timestamp: spec_with_offset(spec_parse_utc(ts.unwrap()).unwrap(), off),
                severity: sev_of(sev.unwrap()),
                host: host.unwrap(),
                app_name: app.unwrap(),
                procid: host.unwrap(),
                cursor: cur.unwrap(),
            },
        )
    } else {
        None
    }
}

/// Parses one raw hit into a typed record; `tz_offset_seconds` is the
/// zone offset the timestamp is rendered in.
pub fn parse_entry(v: &Json, tz_offset_seconds: i32) -> (r: Result<LogEntry, ToraError>)
    requires
        -86400 < tz_offset_seconds < 86400,
    ensures
        match r {
            Ok(e) => spec_entry(*v, tz_offset_seconds as int) == Some(e@),
            Err(_) => spec_entry(*v, tz_offset_seconds as int) is None,
        },
{
    let src = match v.get("_source") {
        Some(s) => s,
        None => {
            return Err(ToraError);
        },
    };
    let msg = match src.get("msg") {
        Some(m) => match m.str_value() {
            Some(s) => s,
            None => {
                return Err(ToraError);
            },
        },
        None => {
            return Err(ToraError);
        },
    };
    let ts_str = match src.get("@timestamp") {
        Some(t) => match t.str_value() {
            Some(s) => s,
            None => {
                return Err(ToraError);
            },
        },
        None => {
            return Err(ToraError);
        },
    };
    let utc = match parse_rfc3339_utc(ts_str.as_str()) {
        Ok(dt) => dt,
        Err(e) => {
            return Err(e);
        },
    };
    let timestamp = with_offset_seconds(utc, tz_offset_seconds);
    let syslog = match src.get("syslog") {
        Some(s) => s,
        None => {
            return Err(ToraError);
        },
    };
    let severity = match syslog.get("severity") {
        Some(v) => match v.str_value() {
            Some(s) => Severity::from_str(s.as_str()),
            None => {
                return Err(ToraError);
            },
        },
        None => {
            return Err(ToraError);
        },
    };
    let app_name = match syslog.get("app-name") {
        Some(v) => match v.str_value() {
            Some(s) => s,
            None => {
                return Err(ToraError);
            },
        },
        None => {
            return Err(ToraError);
        },
    };
    let host = match syslog.get("host") {
        Some(v) => match v.str_value() {
            Some(s) => s,
            None => {
                return Err(ToraError);
            },
        },
        None => {
            return Err(ToraError);
        },
    };
    let procid = match syslog.get("host") {
        Some(v) => match v.str_value() {
            Some(s) => s,
            None => {
                return Err(ToraError);
            },
        },
        None => {
            return Err(ToraError);
        },
    };
    let cursor = match v.get("sort") {
        Some(sv) => json_dup(sv),
        None => {
            return Err(ToraError);
        },
    };
    Ok(LogEntry { msg, timestamp, severity, host, app_name, procid, cursor })
}

/// An ordered batch of parsed records: what one poll round delivers.
#[derive(Debug)]
pub struct Logs(pub Vec<LogEntry>);

/// The abstract value of a sequence of records.
pub open spec fn batch_model(entries: Seq<LogEntry>) -> Seq<EntryModel> {
    entries.map_values(|e: LogEntry| e@)
}

impl View for Logs {
    type V = Seq<EntryModel>;

    open spec fn view(&self) -> Seq<EntryModel> {
        batch_model(self.0@)
    }
}

/// The raw hit array of a response envelope `{hits:{hits:[...]}}`,
/// if both levels are present and the inner one is an array.
pub open spec fn spec_hits(v: Json) -> Option<Seq<Json>> {
    match spec_get(v, "hits"@) {
        Some(h) => match spec_get(h, "hits"@) {
            Some(hh) => match hh {
                Json::Arr(items) => Some(items@),
                _ => None,
            },
            None => None,
        },
        None => None,
    }
}

/// What a raw hit array parses to: the well-formed hits, in order,
/// with every malformed hit silently dropped.
pub open spec fn spec_batch(hits: Seq<Json>, off: int) -> Seq<EntryModel>
    decreases hits.len(),
{
    if hits.len() == 0 {
        Seq::empty()
    } else {
        let init = spec_batch(hits.drop_last(), off);
        match spec_entry(hits.last(), off) {
            Some(e) => init.push(e),
            None => init,
        }
    }
}

impl Logs {
    /// Parses a whole response envelope leniently: a malformed hit is
    /// dropped, never the batch; a malformed envelope is fatal.
    #[verifier::loop_isolation(false)]
    pub fn from_json(v: &Json, tz_offset_seconds: i32) -> (r: Result<Logs, ToraError>)
        requires
            -86400 < tz_offset_seconds < 86400,
        ensures
            match r {
                Ok(logs) => spec_hits(*v) matches Some(hits) && logs@ == spec_batch(
                    hits,
                    tz_offset_seconds as int,
                ),
                Err(_) => spec_hits(*v) is None,
            },
    {
        let h1 = match v.get("hits") {
            Some(h) => h,
            None => {
                return Err(ToraError);
            },
        };
        let arr = match h1.get("hits") {
            Some(hh) => match hh {
                Json::Arr(items) => items,
                _ => {
                    return Err(ToraError);
                },
            },
            None => {
                return Err(ToraError);
            },
        };
        let n = arr.len();
        let mut out: Vec<LogEntry> = Vec::new();
        let mut i: usize = 0;
        while i < n
            invariant
                i <= n,
                batch_model(out@) =~= spec_batch(arr@.take(i as int), tz_offset_seconds as int),
            decreases n - i,
        {
            let ghost prev = out@;
            match parse_entry(&arr[i], tz_offset_seconds) {
                Ok(e) => {
                    out.push(e);
                    proof {
                        assert(batch_model(out@) =~= batch_model(prev).push(out@.last()@));
                    }
                },
                Err(_) => {},
            }
            proof {
                assert(arr@.take(i + 1).drop_last() =~= arr@.take(i as int));
                assert(arr@.take(i + 1).last() == arr@[i as int]);
                assert(batch_model(out@) =~= spec_batch(
                    arr@.take(i + 1),
                    tz_offset_seconds as int,
                ));
            }
            i = i + 1;
        }
        proof {
            assert(arr@.take(n as int) =~= arr@);
        }
        Ok(Logs(out))
    }
}

} // verus!
