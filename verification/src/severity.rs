//! The syslog-style severity of a log record: a closed set of known
//! levels plus an open fallback that preserves any unrecognized value.

use vstd::prelude::*;
use crate::text::str_eq;

verus! {

/// A severity level. Unknown strings are never rejected: they are
/// preserved verbatim in the `Custom` fallback.
#[derive(Debug)]
pub enum Severity {
    Debug,
    Info,
    Warn,
    Notice,
    Error,
    Custom(String),
}

/// The abstract value of a severity: the same levels with the raw
/// text of an unrecognized value as a character sequence.
pub enum SeverityModel {
    Debug,
    Info,
    Warn,
    Notice,
    Error,
    Custom(Seq<char>),
}

impl View for Severity {
    type V = SeverityModel;

    open spec fn view(&self) -> SeverityModel {
        match self {
            Severity::Debug => SeverityModel::Debug,
            Severity::Info => SeverityModel::Info,
            Severity::Warn => SeverityModel::Warn,
            Severity::Notice => SeverityModel::Notice,
            Severity::Error => SeverityModel::Error,
            Severity::Custom(s) => SeverityModel::Custom(s@),
        }
    }
}

/// The fixed mapping from a severity string to its level; every string
/// not in the closed set maps to `Custom` carrying that string.
pub open spec fn sev_of(s: Seq<char>) -> SeverityModel {
    if s == "debug"@ {
        SeverityModel::Debug
    } else if s == "info"@ {
        SeverityModel::Info
    } else if s == "warning"@ {
        SeverityModel::Warn
    } else if s == "notice"@ {
        SeverityModel::Notice
    } else if s == "err"@ {
        SeverityModel::Error
    } else {
        SeverityModel::Custom(s)
    }
}

impl Severity {
    /// Maps a raw severity string to its level, preserving unknown
    /// values verbatim.
    pub fn from_str(s: &str) -> (r: Severity)
        ensures
            r@ == sev_of(s@),
    {
        if str_eq(s, "debug") {
            Severity::Debug
        } else if str_eq(s, "info") {
            Severity::Info
        } else if str_eq(s, "warning") {
            Severity::Warn
        } else if str_eq(s, "notice") {
            Severity::Notice
        } else if str_eq(s, "err") {
            Severity::Error
        } else {
            Severity::Custom(s.to_owned())
        }
    }
}

} // verus!
