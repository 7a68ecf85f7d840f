//! Civil date-time handling: a structured timestamp, an RFC3339
//! parser, and the shift from one UTC offset to another. The machine's
//! local offset itself is the one thing delegated to an outside crate.

use vstd::prelude::*;
use vstd::string::StrSliceExecFns;
use crate::ToraError;
use chrono::Offset;
use chrono::TimeZone;

verus! {

/// A civil date and time with millisecond precision. No zone is
/// attached: which instant it denotes is fixed by the caller's choice
/// of offset.
#[derive(Debug, Clone, Copy, PartialEq, Eq, Structural)]
pub struct DateTime {
    pub year: i32,
    pub month: u8,
    pub day: u8,
    pub hour: u8,
    pub minute: u8,
    pub second: u8,
    pub millisecond: u16,
}

pub open spec fn is_leap(y: int) -> bool {
    (y % 4 == 0 && y % 100 != 0) || y % 400 == 0
}

pub open spec fn days_in_month(y: int, m: int) -> int {
    if m == 2 {
        if is_leap(y) {
            29
        } else {
            28
        }
    } else if m == 4 || m == 6 || m == 9 || m == 11 {
        30
    } else {
        31
    }
}

/// A calendar-valid date and time. The year range is generous: wide
/// enough that every parseable year, shifted by any two sub-day
/// offsets, stays inside it.
pub open spec fn wf(dt: DateTime) -> bool {
    -100000 <= dt.year <= 100000 && 1 <= dt.month <= 12 && 1 <= dt.day <= days_in_month(
        dt.year as int,
        dt.month as int,
    ) && dt.hour <= 23 && dt.minute <= 59 && dt.second <= 59 && dt.millisecond <= 999
}

pub open spec fn spec_prev_day(y: int, m: int, d: int) -> (int, int, int) {
    if d > 1 {
        (y, m, d - 1)
    } else if m > 1 {
        (y, m - 1, days_in_month(y, m - 1))
    } else {
        (y - 1, 12, 31)
    }
}

pub open spec fn spec_next_day(y: int, m: int, d: int) -> (int, int, int) {
    if d < days_in_month(y, m) {
        (y, m, d + 1)
    } else if m < 12 {
        (y, m + 1, 1)
    } else {
        (y + 1, 1, 1)
    }
}

/// The civil time reached from `dt` by moving `off` seconds forward
/// (backward when negative); `off` stays within one day, so at most
/// one calendar day boundary is crossed.
pub open spec fn spec_with_offset(dt: DateTime, off: int) -> DateTime {
    let t = dt.hour * 3600 + dt.minute * 60 + dt.second + off;
    if t < 0 {
        let t2 = t + 86400;
        let d = spec_prev_day(dt.year as int, dt.month as int, dt.day as int);
        DateTime {
            year: d.0 as i32,
            month: d.1 as u8,
            day: d.2 as u8,
            hour: (t2 / 3600) as u8,
            minute: ((t2 % 3600) / 60) as u8,
            second: (t2 % 60) as u8,
            millisecond: dt.millisecond,
        }
    } else if t >= 86400 {
        let t2 = t - 86400;
        let d = spec_next_day(dt.year as int, dt.month as int, dt.day as int);
        DateTime {
            year: d.0 as i32,
            month: d.1 as u8,
            day: d.2 as u8,
            hour: (t2 / 3600) as u8,
            minute: ((t2 % 3600) / 60) as u8,
            second: (t2 % 60) as u8,
            millisecond: dt.millisecond,
        }
    } else {
        DateTime {
            year: dt.year,
            month: dt.month,
            day: dt.day,
            hour: (t / 3600) as u8,
            minute: ((t % 3600) / 60) as u8,
            second: (t % 60) as u8,
            millisecond: dt.millisecond,
        }
    }
}

proof fn lemma_leap_shift(y: int)
    ensures
        is_leap(y + 400000) == is_leap(y),
{
    vstd::arithmetic::div_mod::lemma_mod_multiples_vanish(100000, y, 4);
    vstd::arithmetic::div_mod::lemma_mod_multiples_vanish(4000, y, 100);
    vstd::arithmetic::div_mod::lemma_mod_multiples_vanish(1000, y, 400);
}

fn days_in_month_x(y: i32, m: u8) -> (r: u8)
    requires
        -100000 <= y <= 100000,
        1 <= m <= 12,
    ensures
        r as int == days_in_month(y as int, m as int),
{
    // leap years repeat every 400 years; shifting keeps the
    // divisibility tests on a non-negative value
    let yy: i32 = y + 400000;
    proof {
        lemma_leap_shift(y as int);
    }
    if m == 2 {
        if (yy % 4 == 0 && yy % 100 != 0) || yy % 400 == 0 {
            29
        } else {
            28
        }
    } else if m == 4 || m == 6 || m == 9 || m == 11 {
        30
    } else {
        31
    }
}

/// Moves a well-formed civil time by `off` seconds, crossing at most
/// one day boundary. Away from the extreme ends of the supported year
/// range the result is again well formed.
pub fn with_offset_seconds(dt: DateTime, off: i32) -> (r: DateTime)
    requires
        wf(dt),
        -86400 < off < 86400,
    ensures
        r == spec_with_offset(dt, off as int),
        -99999 <= dt.year <= 99999 ==> wf(r),
{
    let t: i32 = dt.hour as i32 * 3600 + dt.minute as i32 * 60 + dt.second as i32 + off;
    if t < 0 {
        let t2: u32 = (t + 86400) as u32;
        let (y, m, d): (i32, u8, u8) = if dt.day > 1 {
            (dt.year, dt.month, dt.day - 1)
        } else if dt.month > 1 {
            (dt.year, dt.month - 1, days_in_month_x(dt.year, dt.month - 1))
        } else {
            (dt.year - 1, 12, 31)
        };
        DateTime {
            year: y,
            month: m,
            day: d,
            hour: (t2 / 3600) as u8,
            minute: ((t2 % 3600) / 60) as u8,
            second: (t2 % 60) as u8,
            millisecond: dt.millisecond,
        }
    } else if t >= 86400 {
        let t2: u32 = (t - 86400) as u32;
        let dim = days_in_month_x(dt.year, dt.month);
        let (y, m, d): (i32, u8, u8) = if dt.day < dim {
            (dt.year, dt.month, dt.day + 1)
        } else if dt.month < 12 {
            (dt.year, dt.month + 1, 1)
        } else {
            (dt.year + 1, 1, 1)
        };
        DateTime {
            year: y,
            month: m,
            day: d,
            hour: (t2 / 3600) as u8,
            minute: ((t2 % 3600) / 60) as u8,
            second: (t2 % 60) as u8,
            millisecond: dt.millisecond,
        }
    } else {
        let tu: u32 = t as u32;
        DateTime {
            year: dt.year,
            month: dt.month,
            day: dt.day,
            hour: (tu / 3600) as u8,
            minute: ((tu % 3600) / 60) as u8,
            second: (tu % 60) as u8,
            millisecond: dt.millisecond,
        }
    }
}

pub open spec fn is_dig(c: char) -> bool {
    '0' <= c && c <= '9'
}

pub open spec fn dv(c: char) -> int {
    c as int - 48
}

pub open spec fn n2(s: Seq<char>, i: int) -> int {
    dv(s[i]) * 10 + dv(s[i + 1])
}

pub open spec fn n4(s: Seq<char>, i: int) -> int {
    dv(s[i]) * 1000 + dv(s[i + 1]) * 100 + dv(s[i + 2]) * 10 + dv(s[i + 3])
}

/// The fixed `YYYY-MM-DDTHH:MM:SS` prefix of an RFC3339 string; the
/// date-time separator may be `T`, `t`, or a space.
pub open spec fn shape_ok(s: Seq<char>) -> bool {
    s.len() >= 20 && is_dig(s[0]) && is_dig(s[1]) && is_dig(s[2]) && is_dig(s[3]) && s[4] == '-'
        && is_dig(s[5]) && is_dig(s[6]) && s[7] == '-' && is_dig(s[8]) && is_dig(s[9]) && (s[10]
        == 'T' || s[10] == 't' || s[10] == ' ') && is_dig(s[11]) && is_dig(s[12]) && s[13] == ':' && is_dig(s[14])
        && is_dig(s[15]) && s[16] == ':' && is_dig(s[17]) && is_dig(s[18])
}

/// The first position at or after `i` holding a non-digit.
pub open spec fn digits_end(s: Seq<char>, i: int) -> int
    decreases s.len() - i when 0 <= i <= s.len()
{
    if i < s.len() && is_dig(s[i]) {
        digits_end(s, i + 1)
    } else {
        i
    }
}

/// Where the zone designator starts: after the fractional seconds if
/// a decimal point is present, else right after the seconds.
pub open spec fn offset_pos(s: Seq<char>) -> int {
    if 19 < s.len() && s[19] == '.' {
        digits_end(s, 20)
    } else {
        19
    }
}

/// A decimal point must be followed by at least one digit.
pub open spec fn frac_ok(s: Seq<char>) -> bool {
    if 19 < s.len() && s[19] == '.' {
        digits_end(s, 20) > 20
    } else {
        true
    }
}

/// The milliseconds encoded by the first three fractional digits;
/// missing places count as zero, further digits are ignored.
pub open spec fn millis_of(s: Seq<char>) -> int {
    if 19 < s.len() && s[19] == '.' {
        let e = digits_end(s, 20);
        (if e - 20 >= 1 {
            dv(s[20]) * 100
        } else {
            0
        }) + (if e - 20 >= 2 {
            dv(s[21]) * 10
        } else {
            0
        }) + (if e - 20 >= 3 {
            dv(s[22])
        } else {
            0
        })
    } else {
        0
    }
}

/// The zone designator: `Z` (either case) or a signed `HH:MM` offset,
/// ending the string.
pub open spec fn offset_shape_ok(s: Seq<char>, o: int) -> bool {
    if o >= s.len() {
        false
    } else if s[o] == 'Z' || s[o] == 'z' {
        s.len() == o + 1
    } else if s[o] == '+' || s[o] == '-' {
        s.len() == o + 6 && is_dig(s[o + 1]) && is_dig(s[o + 2]) && s[o + 3] == ':' && is_dig(
            s[o + 4],
        ) && is_dig(s[o + 5]) && n2(s, o + 1) <= 23 && n2(s, o + 4) <= 59
    } else {
        false
    }
}

pub open spec fn offset_secs_of(s: Seq<char>, o: int) -> int {
    if s[o] == 'Z' || s[o] == 'z' {
        0
    } else {
        let mag = n2(s, o + 1) * 3600 + n2(s, o + 4) * 60;
        if s[o] == '-' {
            -mag
        } else {
            mag
        }
    }
}

/// The encoded date and time denote a real calendar moment; second
/// 60 is the leap-second marker.
pub open spec fn fields_ok(s: Seq<char>) -> bool {
    1 <= n2(s, 5) <= 12 && 1 <= n2(s, 8) <= days_in_month(n4(s, 0), n2(s, 5)) && n2(s, 11) <= 23
        && n2(s, 14) <= 59 && n2(s, 17) <= 60
}

/// The accepted RFC3339 grammar: the full four-digit year range, a
/// leap second (second `60`) admitted anywhere, any fraction length.
/// Two readings are fixed by the millisecond civil-time model: a leap
/// second is folded into second 59 of the same minute with its
/// fraction kept, and fractional digits beyond the third are ignored.
pub open spec fn rfc_valid(s: Seq<char>) -> bool {
    shape_ok(s) && frac_ok(s) && offset_shape_ok(s, offset_pos(s)) && fields_ok(s)
}

/// The civil fields written in the string, offset not yet applied; a
/// leap second folds into second 59 of the same minute.
pub open spec fn spec_parse_fields(s: Seq<char>) -> DateTime {
    DateTime {
        year: n4(s, 0) as i32,
        month: n2(s, 5) as u8,
        day: n2(s, 8) as u8,
        hour: n2(s, 11) as u8,
        minute: n2(s, 14) as u8,
        second: (if n2(s, 17) == 60 {
            59int
        } else {
            n2(s, 17)
        }) as u8,
        millisecond: millis_of(s) as u16,
    }
}

/// What a valid RFC3339 string denotes, normalized to UTC.
pub open spec fn spec_parse_utc(s: Seq<char>) -> Option<DateTime> {
    if rfc_valid(s) {
        Some(spec_with_offset(spec_parse_fields(s), -offset_secs_of(s, offset_pos(s))))
    } else {
        None
    }
}

fn dig_val(c: char) -> (r: Option<u8>)
    ensures
        match r {
            Some(d) => is_dig(c) && d as int == dv(c),
            None => !is_dig(c),
        },
{
    if '0' <= c && c <= '9' {
        Some((c as u8) - 48)
    } else {
        None
    }
}

fn read2(s: &str, i: usize) -> (r: Option<u32>)
    requires
        i + 2 <= s@.len(),
        s@.len() <= usize::MAX,
    ensures
        match r {
            Some(v) => is_dig(s@[i as int]) && is_dig(s@[i + 1]) && v as int == n2(s@, i as int),
            None => !(is_dig(s@[i as int]) && is_dig(s@[i + 1])),
        },
{
    let a = match dig_val(s.get_char(i)) {
        Some(d) => d,
        None => {
            return None;
        },
    };
    let b = match dig_val(s.get_char(i + 1)) {
        Some(d) => d,
        None => {
            return None;
        },
    };
    Some(a as u32 * 10 + b as u32)
}

fn read4(s: &str, i: usize) -> (r: Option<u32>)
    requires
        i + 4 <= s@.len(),
        s@.len() <= usize::MAX,
    ensures
        match r {
            Some(v) => is_dig(s@[i as int]) && is_dig(s@[i + 1]) && is_dig(s@[i + 2]) && is_dig(
                s@[i + 3],
            ) && v as int == n4(s@, i as int),
            None => !(is_dig(s@[i as int]) && is_dig(s@[i + 1]) && is_dig(s@[i + 2]) && is_dig(
                s@[i + 3],
            )),
        },
{
    let hi = match read2(s, i) {
        Some(v) => v,
        None => {
            return None;
        },
    };
    let lo = match read2(s, i + 2) {
        Some(v) => v,
        None => {
            return None;
        },
    };
    Some(hi * 100 + lo)
}

/// Parses an RFC3339 date-time and normalizes it to UTC; `rfc_valid`
/// is the accepted grammar.
#[verifier::loop_isolation(false)]
pub fn parse_rfc3339_utc(s: &str) -> (r: Result<DateTime, ToraError>)
    ensures
        match r {
            Ok(dt) => spec_parse_utc(s@) == Some(dt) && wf(dt),
            Err(_) => spec_parse_utc(s@) is None,
        },
{
    let len = s.unicode_len();
    if len < 20 {
        return Err(ToraError);
    }
    let y = match read4(s, 0) {
        Some(v) => v,
        None => {
            return Err(ToraError);
        },
    };
    if s.get_char(4) != '-' {
        return Err(ToraError);
    }
    let mo = match read2(s, 5) {
        Some(v) => v,
        None => {
            return Err(ToraError);
        },
    };
    if s.get_char(7) != '-' {
        return Err(ToraError);
    }
    let da = match read2(s, 8) {
        Some(v) => v,
        None => {
            return Err(ToraError);
        },
    };
    let sep = s.get_char(10);
    if !(sep == 'T' || sep == 't' || sep == ' ') {
        return Err(ToraError);
    }
    let ho = match read2(s, 11) {
        Some(v) => v,
        None => {
            return Err(ToraError);
        },
    };
    if s.get_char(13) != ':' {
        return Err(ToraError);
    }
    let mi = match read2(s, 14) {
        Some(v) => v,
        None => {
            return Err(ToraError);
        },
    };
    if s.get_char(16) != ':' {
        return Err(ToraError);
    }
    let se = match read2(s, 17) {
        Some(v) => v,
        None => {
            return Err(ToraError);
        },
    };
    // fractional seconds
    let dot = s.get_char(19) == '.';
    let mut o: usize = 19;
    if dot {
        let mut j: usize = 20;
        while j < len && dig_val(s.get_char(j)).is_some()
            invariant
                20 <= j <= len,
                digits_end(s@, 20) == digits_end(s@, j as int),
                forall|t: int| 20 <= t < j ==> is_dig(s@[t]),
            decreases len - j,
        {
            j = j + 1;
        }
        proof {
            assert(digits_end(s@, j as int) == j);
        }
        if j == 20 {
            return Err(ToraError);
        }
        o = j;
    }
    let mut ms: u32 = 0;
    if dot {
        if o - 20 >= 1 {
            if let Some(d) = dig_val(s.get_char(20)) {
                ms = ms + d as u32 * 100;
            }
        }
        if o - 20 >= 2 {
            if let Some(d) = dig_val(s.get_char(21)) {
                ms = ms + d as u32 * 10;
            }
        }
        if o - 20 >= 3 {
            if let Some(d) = dig_val(s.get_char(22)) {
                ms = ms + d as u32;
            }
        }
        proof {
            assert(ms as int == millis_of(s@));
        }
    }
    // zone designator
    if o >= len {
        return Err(ToraError);
    }
    let zc = s.get_char(o);
    let off: i32 = if zc == 'Z' || zc == 'z' {
        if len - o != 1 {
            return Err(ToraError);
        }
        0
    } else if zc == '+' || zc == '-' {
        if len - o != 6 {
            return Err(ToraError);
        }
        let oh = match read2(s, o + 1) {
            Some(v) => v,
            None => {
                return Err(ToraError);
            },
        };
        if s.get_char(o + 3) != ':' {
            return Err(ToraError);
        }
        let om = match read2(s, o + 4) {
            Some(v) => v,
            None => {
                return Err(ToraError);
            },
        };
        if oh > 23 || om > 59 {
            return Err(ToraError);
        }
        let mag = (oh * 3600 + om * 60) as i32;
        if zc == '-' {
            -mag
        } else {
            mag
        }
    } else {
        return Err(ToraError);
    };
    proof {
        assert(offset_pos(s@) == o as int);
        assert(offset_shape_ok(s@, o as int));
        assert(off as int == offset_secs_of(s@, o as int));
    }
    // calendar validity
    if !(1 <= mo && mo <= 12) {
        return Err(ToraError);
    }
    let dim = days_in_month_x(y as i32, mo as u8);
    if !(1 <= da && da <= dim as u32) {
        return Err(ToraError);
    }
    if ho > 23 || mi > 59 || se > 60 {
        return Err(ToraError);
    }
    let naive = DateTime {
        year: y as i32,
        month: mo as u8,
        day: da as u8,
        hour: ho as u8,
        minute: mi as u8,
        second: if se == 60 {
            59
        } else {
            se as u8
        },
        millisecond: ms as u16,
    };
    proof {
        assert(rfc_valid(s@));
        assert(naive == spec_parse_fields(s@));
    }
    let utc = with_offset_seconds(naive, -off);
    Ok(utc)
}

/// Relies on chrono (Local::offset_from_utc_datetime, Offset::fix,
/// FixedOffset::local_minus_utc): the machine's local offset from UTC,
/// in seconds, at the given UTC civil time. chrono documents that a
/// fixed offset lies strictly between -86400 and 86400 seconds; out of
/// calendar range the offset is reported as zero.
#[verifier::external_body]
fn local_offset_seconds(utc: &DateTime) -> (r: i32)
    ensures
        -86400 < r < 86400,
{
    let nd = chrono::NaiveDate::from_ymd_opt(utc.year, utc.month as u32, utc.day as u32);
    let ndt = nd.and_then(|d| d.and_hms_opt(utc.hour as u32, utc.minute as u32, utc.second as u32));
    match ndt {
        Some(t) => chrono::Local.offset_from_utc_datetime(&t).fix().local_minus_utc(),
        None => 0,
    }
}

/// What a valid RFC3339 string denotes after moving it `off` seconds
/// from UTC.
pub open spec fn spec_local_of(s: Seq<char>, off: int) -> Option<DateTime> {
    match spec_parse_utc(s) {
        Some(u) => Some(spec_with_offset(u, off)),
        None => None,
    }
}

/// Parses an RFC3339 timestamp and renders it in the machine's local
/// zone: the result is the parsed UTC instant moved by some fixed
/// local offset of less than a day.
pub fn parse_timestamp(s: &str) -> (r: Result<DateTime, ToraError>)
    ensures
        r is Ok <==> spec_parse_utc(s@) is Some,
        r matches Ok(dt) ==> exists|off: int|
            -86400 < off < 86400 && #[trigger] spec_local_of(s@, off) == Some(dt),
{
    let utc = match parse_rfc3339_utc(s) {
        Ok(dt) => dt,
        Err(e) => {
            return Err(e);
        },
    };
    let off = local_offset_seconds(&utc);
    let local = with_offset_seconds(utc, off);
    proof {
        assert(spec_local_of(s@, off as int) == Some(local));
    }
    Ok(local)
}

} // verus!
