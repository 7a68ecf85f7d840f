//! A cursor-paginated log-polling engine: it builds paginated search
//! requests against a remote index, parses the returned hits into typed
//! log entries, tracks the pagination cursor, and decides the pacing of
//! the next poll round.

pub mod text;
pub mod severity;
pub mod time;
pub mod json;
pub mod entries;
pub mod search;

use vstd::prelude::*;

verus! {

/// The single fatal error value: raised on malformed response envelopes
/// and on malformed timestamps, never on a single bad record in a batch.
#[derive(Debug, Clone, Copy)]
pub struct ToraError;

} // verus!
