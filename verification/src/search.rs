//! The outbound search request and the polling client: exact JSON
//! serialization of the paginated query, the cursor tracker, the
//! batch hand-off decision, and the pacing rule.

use vstd::prelude::*;
use vstd::string::StrSliceExecFns;
use vstd::string::StringExecFns;
use crate::ToraError;
use crate::text::append_u64;
use crate::text::append_escaped;
use crate::text::dec_digits;
use crate::text::quoted;
use crate::json::Json;
use crate::json::Cursor;
use crate::json::json_text;
use crate::json::json_dup;
use crate::json::append_json;
use crate::entries::LogEntry;
use crate::entries::Logs;
use crate::entries::EntryModel;
use crate::entries::spec_hits;
use crate::entries::spec_batch;

verus! {

/// What the poller hands the consumer: a non-empty batch, or an
/// explicit end-of-stream signal.
#[derive(Debug)]
pub enum CommandMsg {
    More(Vec<LogEntry>),
    Enough,
}

/// The outbound request: free-text query, page size, fixed sort
/// specification, and the optional pagination cursor.
#[derive(Debug)]
pub struct SearchQuery {
    pub query: String,
    pub size: u32,
    pub sort: Vec<(String, String)>,
    pub cursor: Option<Cursor>,
}

/// The abstract value of a search query; the cursor appears as its
/// exact JSON rendering.
pub struct QueryModel {
    pub query: Seq<char>,
    pub size: u32,
    pub sort: Seq<(Seq<char>, Seq<char>)>,
    pub cursor: Option<Seq<char>>,
}

impl View for SearchQuery {
    type V = QueryModel;

    open spec fn view(&self) -> QueryModel {
        QueryModel {
            query: self.query@,
            size: self.size,
            sort: self.sort@.map_values(|p: (String, String)| (p.0@, p.1@)),
            cursor: match self.cursor {
                Some(c) => Some(json_text(c)),
                None => None,
            },
        }
    }
}

/// One sort entry as the single-member object `{"field":"direction"}`.
pub open spec fn sort_item_text(p: (Seq<char>, Seq<char>)) -> Seq<char> {
    "{"@ + quoted(p.0) + ":"@ + quoted(p.1) + "}"@
}

/// Sort entries joined with commas.
pub open spec fn sort_text(ss: Seq<(Seq<char>, Seq<char>)>) -> Seq<char>
    decreases ss.len(),
{
    if ss.len() == 0 {
        Seq::empty()
    } else if ss.len() == 1 {
        sort_item_text(ss[0])
    } else {
        sort_text(ss.drop_last()) + ","@ + sort_item_text(ss.last())
    }
}

/// An empty free-text query stands for "match everything".
pub open spec fn effective_query(q: Seq<char>) -> Seq<char> {
    if q.len() == 0 {
        "*:*"@
    } else {
        q
    }
}

/// The exact request body: keys in fixed order, the `search_after`
/// key omitted entirely when no cursor is set; the cursor value is
/// its own verbatim rendering.
pub open spec fn query_text(m: QueryModel) -> Seq<char> {
    "{\"query\":{\"query_string\":{\"query\":"@ + quoted(effective_query(m.query))
        + "}},\"size\":"@ + dec_digits(m.size as int) + ",\"sort\":["@ + sort_text(m.sort) + "]"@
        + (match m.cursor {
        Some(t) => ",\"search_after\":"@ + t,
        None => Seq::<char>::empty(),
    }) + "}"@
}

/// Appends a JSON string literal for `s`.
fn append_quoted(out: &mut String, s: &str)
    ensures
        final(out)@ == old(out)@ + quoted(s@),
{
    let ghost pre = out@;
    out.append("\"");
    append_escaped(out, s);
    out.append("\"");
    proof {
        assert(out@ =~= pre + quoted(s@));
    }
}

/// Serializes the search request to its exact JSON body. Total and
/// pure: every query value has exactly one well-formed rendering.
#[verifier::loop_isolation(false)]
#[verifier::rlimit(80)]
pub fn serialize_query(q: &SearchQuery) -> (body: String)
    ensures
        body@ == query_text(q@),
{
    let mut out = String::new();
    out.append("{\"query\":{\"query_string\":{\"query\":");
    if q.query.as_str().is_empty() {
        append_quoted(&mut out, "*:*");
    } else {
        append_quoted(&mut out, q.query.as_str());
    }
    let ghost g1 = out@;
    proof {
        assert(g1 =~= "{\"query\":{\"query_string\":{\"query\":"@ + quoted(
            effective_query(q@.query),
        ));
    }
    out.append("}},\"size\":");
    append_u64(&mut out, q.size as u64);
    out.append(",\"sort\":[");
    let ghost g2 = out@;
    let n = q.sort.len();
    let mut i: usize = 0;
    while i < n
        invariant
            i <= n,
            n == q.sort@.len(),
            out@ =~= g2 + sort_text(q@.sort.take(i as int)),
        decreases n - i,
    {
        if i > 0 {
            out.append(",");
        }
        let ghost g3 = out@;
        out.append("{");
        append_quoted(&mut out, q.sort[i].0.as_str());
        out.append(":");
        append_quoted(&mut out, q.sort[i].1.as_str());
        out.append("}");
        proof {
            assert(q@.sort[i as int] == (q.sort@[i as int].0@, q.sort@[i as int].1@));
            assert(out@ =~= g3 + sort_item_text(q@.sort[i as int]));
            assert(q@.sort.take(i + 1).drop_last() =~= q@.sort.take(i as int));
            assert(q@.sort.take(i + 1).last() == q@.sort[i as int]);
            assert(out@ =~= g2 + sort_text(q@.sort.take(i + 1)));
        }
        i = i + 1;
    }
    proof {
        assert(q@.sort.take(n as int) =~= q@.sort);
    }
    out.append("]");
    match &q.cursor {
        Some(c) => {
            out.append(",\"search_after\":");
            append_json(&mut out, c);
        },
        None => {},
    }
    out.append("}");
    proof {
        assert(out@ =~= query_text(q@));
    }
    out
}

/// The abstract value of an optional cursor: its JSON rendering.
pub open spec fn opt_cursor_text(c: Option<Cursor>) -> Option<Seq<char>> {
    match c {
        Some(cur) => Some(json_text(cur)),
        None => None,
    }
}

/// The client state threaded through the poll loop: target index,
/// query template, credentials, the batch pending delivery, and the
/// tracked cursor.
#[derive(Debug)]
pub struct LogClient {
    pub index: String,
    pub query: SearchQuery,
    pub creds: (String, String),
    pub logs: Option<Logs>,
    pub cursor: Option<Cursor>,
}

impl LogClient {
    /// Absorbs one parsed response body: parses the batch leniently,
    /// stores it for delivery, and advances the cursor to the last
    /// entry's sort key — or keeps it unchanged when the batch is
    /// empty. A malformed envelope is fatal.
    pub fn ingest_response(self, body: &Json, tz_offset_seconds: i32) -> (r: Result<
        LogClient,
        ToraError,
    >)
        requires
            -86400 < tz_offset_seconds < 86400,
        ensures
            match r {
                Ok(c) => spec_hits(*body) matches Some(hits) && {
                    let batch = spec_batch(hits, tz_offset_seconds as int);
                    &&& c.logs matches Some(l) && l@ == batch
                    &&& batch.len() > 0 ==> opt_cursor_text(c.cursor) == Some(
                        batch.last().cursor,
                    )
                    &&& batch.len() == 0 ==> c.cursor == self.cursor
                    &&& opt_cursor_text(c.cursor) == cursor_after(
                        opt_cursor_text(self.cursor),
                        batch,
                    )
                    &&& c.index == self.index
                    &&& c.creds == self.creds
                    &&& c.query == self.query
                },
                Err(_) => spec_hits(*body) is None,
            },
    {
        let logs = match Logs::from_json(body, tz_offset_seconds) {
            Ok(l) => l,
            Err(e) => {
                return Err(e);
            },
        };
        let cursor: Option<Cursor> = if logs.0.len() > 0 {
            let last = &logs.0[logs.0.len() - 1];
            proof {
                assert(logs@.last() == logs.0@.last()@);
            }
            Some(json_dup(&last.cursor))
        } else {
            self.cursor
        };
        Ok(
            LogClient {
                index: self.index,
                query: self.query,
                creds: self.creds,
                logs: Some(logs),
                cursor,
            },
        )
    }

    /// Takes the pending batch out for delivery and embeds the tracked
    /// cursor into the query for the next round: returns the client,
    /// the non-empty batch to hand to the consumer (if any), and
    /// whether the round was empty. A round that produced no data at
    /// all — a transient transport failure ingested nothing — counts
    /// as empty too, so the backoff path applies to it.
    pub fn process_logs(self) -> (r: (LogClient, Option<Vec<LogEntry>>, bool))
        ensures
            ({
                let (c, deliver, is_empty) = r;
                &&& c.logs is None
                &&& c.cursor == self.cursor
                &&& c.index == self.index
                &&& c.creds == self.creds
                &&& c.query.query == self.query.query
                &&& c.query.size == self.query.size
                &&& c.query.sort == self.query.sort
                &&& opt_cursor_text(c.query.cursor) == opt_cursor_text(self.cursor)
                &&& is_empty == !(self.logs matches Some(l) && l.0@.len() > 0)
                &&& match deliver {
                    Some(es) => self.logs matches Some(l) && es == l.0 && es@.len() > 0,
                    None => !(self.logs matches Some(l) && l.0@.len() > 0),
                }
            }),
    {
        let LogClient { index, query, creds, logs, cursor } = self;
        let mut is_empty = true;
        let deliver: Option<Vec<LogEntry>> = match logs {
            Some(l) => {
                let Logs(es) = l;
                if es.len() > 0 {
                    is_empty = false;
                    Some(es)
                } else {
                    None
                }
            },
            None => None,
        };
        let qcur: Option<Cursor> = match &cursor {
            Some(c) => Some(json_dup(c)),
            None => None,
        };
        let query2 = SearchQuery { query: query.query, size: query.size, sort: query.sort, cursor: qcur };
        (LogClient { index, query: query2, creds, logs: None, cursor }, deliver, is_empty)
    }
}

/// One poll round's transport result, reduced to the plain facts the
/// shell reports: a response body arrived, or the request failed, and
/// the failure was or was not a recognized retryable would-block
/// condition.
pub enum TransportEvent {
    Response(Json),
    Failure { would_block: bool },
}

/// What the poll loop does with a transport result.
#[derive(Debug, PartialEq, Eq, Structural)]
pub enum TransportDisposition {
    Ingest,
    SkipRound,
    Fatal,
}

/// The transient/fatal classification: a response is ingested; a
/// recognized would-block failure is a no-data round, left to the
/// normal backoff path; any other failure is fatal and ends the loop.
pub fn classify_transport(event: &TransportEvent) -> (r: TransportDisposition)
    ensures
        match event {
            TransportEvent::Response(_) => r == TransportDisposition::Ingest,
            TransportEvent::Failure { would_block } => r == (if *would_block {
                TransportDisposition::SkipRound
            } else {
                TransportDisposition::Fatal
            }),
        },
{
    match event {
        TransportEvent::Response(_) => TransportDisposition::Ingest,
        TransportEvent::Failure { would_block } => {
            if *would_block {
                TransportDisposition::SkipRound
            } else {
                TransportDisposition::Fatal
            }
        },
    }
}

/// The per-round search URL: the backend base followed by the index
/// pattern derived from the logical index name, and the search
/// endpoint.
pub fn search_url(base: &str, index: &str) -> (r: String)
    ensures
        r@ == base@ + "/logstash-xerpa-"@ + index@ + "-*/_search"@,
{
    let mut out = String::new();
    out.append(base);
    out.append("/logstash-xerpa-");
    out.append(index);
    out.append("-*/_search");
    proof {
        assert(out@ =~= base@ + "/logstash-xerpa-"@ + index@ + "-*/_search"@);
    }
    out
}

/// The pacing rule: an empty round backs off for a fixed two seconds,
/// a productive round polls again at once.
pub fn next_delay_ms(batch_was_empty: bool) -> (r: u64)
    ensures
        r == if batch_was_empty {
            2000int
        } else {
            0int
        },
{
    if batch_was_empty {
        2000
    } else {
        0
    }
}

/// The cursor tracker's rule for one round: a non-empty batch moves
/// the cursor to its last entry's sort key, an empty one keeps it.
pub open spec fn cursor_after(
    prev: Option<Seq<char>>,
    batch: Seq<EntryModel>,
) -> Option<Seq<char>> {
    if batch.len() > 0 {
        Some(batch.last().cursor)
    } else {
        prev
    }
}

/// The cursor after a run of rounds, oldest first.
pub open spec fn cursor_after_rounds(
    init: Option<Seq<char>>,
    rounds: Seq<Seq<EntryModel>>,
) -> Option<Seq<char>>
    decreases rounds.len(),
{
    if rounds.len() == 0 {
        init
    } else {
        cursor_after(cursor_after_rounds(init, rounds.drop_last()), rounds.last())
    }
}

/// After any run of non-empty rounds the tracked cursor is the last
/// entry's sort key of the latest round.
pub proof fn lemma_cursor_after_nonempty(
    init: Option<Seq<char>>,
    rounds: Seq<Seq<EntryModel>>,
    k: int,
)
    requires
        1 <= k <= rounds.len(),
        forall|n: int| 0 <= n < rounds.len() ==> #[trigger] rounds[n].len() > 0,
    ensures
        cursor_after_rounds(init, rounds.take(k)) == Some(rounds[k - 1].last().cursor),
{
    assert(rounds.take(k).drop_last() =~= rounds.take(k - 1));
    assert(rounds.take(k).last() == rounds[k - 1]);
}

/// Cursor monotonicity: over any sequence of non-empty batches in
/// which the backend honors the pagination order — each batch's
/// closing sort key comes strictly after the previous batch's, in
/// the backend's own sort order `after` — the tracked cursor strictly
/// advances every round and is never equal to its predecessor. The
/// ordering itself is a precondition on the backend, not something
/// the tracker can check.
pub proof fn lemma_cursor_monotonic(
    init: Option<Seq<char>>,
    rounds: Seq<Seq<EntryModel>>,
    after: spec_fn(Seq<char>, Seq<char>) -> bool,
)
    requires
        forall|n: int| 0 <= n < rounds.len() ==> #[trigger] rounds[n].len() > 0,
        forall|n: int|
            1 <= n < rounds.len() ==> #[trigger] after(
                rounds[n - 1].last().cursor,
                rounds[n].last().cursor,
            ),
        forall|a: Seq<char>, b: Seq<char>| #[trigger] after(a, b) ==> a != b,
    ensures
        forall|n: int|
            1 <= n < rounds.len() ==> {
                let c0 = cursor_after_rounds(init, rounds.take(n));
                let c1 = cursor_after_rounds(init, #[trigger] rounds.take(n + 1));
                &&& c0 matches Some(a) && c1 matches Some(b) && after(a, b) && a != b
            },
{
    assert forall|n: int|
        1 <= n < rounds.len() implies {
        let c0 = cursor_after_rounds(init, rounds.take(n));
        let c1 = cursor_after_rounds(init, #[trigger] rounds.take(n + 1));
        &&& c0 matches Some(a) && c1 matches Some(b) && after(a, b) && a != b
    } by {
        lemma_cursor_after_nonempty(init, rounds, n);
        lemma_cursor_after_nonempty(init, rounds, n + 1);
    }
}

} // verus!
