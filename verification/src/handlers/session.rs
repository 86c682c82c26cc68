//! `/session`: what is known of the topic's session and instance.

use vstd::prelude::*;
use crate::text::{decimal, push_decimal, push_str, string_from_chars};
use crate::types::{InstanceInfo, InstanceState, TopicMapping};

verus! {

/// Division rounding toward zero, as Rust's `/` on signed integers (`b > 0`).
pub open spec fn tdiv(a: int, b: int) -> int {
    if a >= 0 { a / b } else { -((-a) / b) }
}

/// Remainder with the sign of `a`, as Rust's `%` on signed integers (`b > 0`).
pub open spec fn trem(a: int, b: int) -> int {
    a - b * tdiv(a, b)
}

/// Gregorian leap year.
pub open spec fn is_leap(y: int) -> bool {
    (y % 4 == 0 && y % 100 != 0) || y % 400 == 0
}

/// Days in year `y`.
pub open spec fn days_in_year(y: int) -> int {
    if is_leap(y) { 366 } else { 365 }
}

/// Starting in year `y` with `rem` days left, the year reached and the days
/// left in it.
pub open spec fn year_and_rest(y: int, rem: int) -> (int, int)
    decreases rem,
{
    if rem < days_in_year(y) {
        (y, rem)
    } else {
        year_and_rest(y + 1, rem - days_in_year(y))
    }
}

/// Days in month `m` (1 to 12).
pub open spec fn month_len(leap: bool, m: int) -> int {
    if m == 2 {
        if leap { 29 } else { 28 }
    } else if m == 4 || m == 6 || m == 9 || m == 11 {
        30
    } else {
        31
    }
}

/// Starting in month `m` on day `day` (counted from 1), the month reached and the day in it.
pub open spec fn month_and_day(leap: bool, m: int, day: int) -> (int, int)
    decreases 13 - m,
{
    if m >= 12 || day <= month_len(leap, m) {
        (m, day)
    } else {
        month_and_day(leap, m + 1, day - month_len(leap, m))
    }
}

/// `{:02}` of an integer.
pub open spec fn pad2(n: int) -> Seq<char> {
    if n < 0 {
        "-"@ + decimal((-n) as nat)
    } else if n < 10 {
        "0"@ + decimal(n as nat)
    } else {
        decimal(n as nat)
    }
}

/// `{:04}` of a non-negative integer.
pub open spec fn pad4(n: nat) -> Seq<char> {
    if n < 10 {
        "000"@ + decimal(n)
    } else if n < 100 {
        "00"@ + decimal(n)
    } else if n < 1000 {
        "0"@ + decimal(n)
    } else {
        decimal(n)
    }
}

/// `YYYY-MM-DD HH:MM:SS` for a Unix time in seconds (UTC).
pub open spec fn timestamp_text(ts: int) -> Seq<char> {
    let days = tdiv(ts, 86400);
    let secs = trem(ts, 86400);
    let (year, rest) = year_and_rest(1970, days);
    let (month, day) = month_and_day(is_leap(year), 1, rest + 1);
    pad4(year as nat) + "-"@ + pad2(month) + "-"@ + pad2(day) + " "@ + pad2(tdiv(secs, 3600)) + ":"@ + pad2(
        tdiv(trem(secs, 3600), 60),
    ) + ":"@ + pad2(trem(secs, 60))
}

fn push_pad2(v: &mut Vec<char>, n: i64)
    ensures
        final(v)@ == old(v)@ + pad2(n as int),
{
    if n < 0 {
        push_str(v, "-");
        push_decimal(v, (0i128 - n as i128) as u64);
    } else {
        if n < 10 {
            push_str(v, "0");
        }
        push_decimal(v, n as u64);
    }
}

/// `a / b` and `a % b` rounding toward zero, for `b > 0`.
fn tdivrem(a: i64, b: i64) -> (r: (i64, i64))
    requires
        b > 0,
    ensures
        r.0 == tdiv(a as int, b as int),
        r.1 == trem(a as int, b as int),
{
    if a >= 0 {
        let q = a / b;
        let m = a % b;
        assert(m == a - b * (a / b)) by (nonlinear_arith)
            requires m == a % b, b > 0, a >= 0;
        (q, m)
    } else {
        let p: i128 = 0i128 - a as i128;
        let bb: i128 = b as i128;
        let q: i128 = p / bb;
        let m: i128 = p % bb;
        assert(m == p - bb * (p / bb) && 0 <= m < bb && 0 <= q <= p) by (nonlinear_arith)
            requires q == p / bb, m == p % bb, bb > 0, p > 0;
        assert(q == (-(a as int)) / (b as int));
        let rq: i64 = (0 - q) as i64;
        let rm: i64 = (0 - m) as i64;
        assert(rq == tdiv(a as int, b as int));
        assert(rm == a - b * rq) by (nonlinear_arith)
            requires rm == -m, m == p - bb * q, p == -a, rq == -q, bb == b;
        (rq, rm)
    }
}

/// The date and time of a Unix timestamp, `YYYY-MM-DD HH:MM:SS` in UTC.
pub fn format_timestamp(timestamp: i64) -> (r: String)
    ensures
        r@ == timestamp_text(timestamp as int),
{
    let (days, secs) = tdivrem(timestamp, 86400);
    let mut year: i64 = 1970;
    let mut rem: i64 = days;
    loop
        invariant
            year >= 1970,
            rem <= days,
            days <= i64::MAX / 86400 + 1,
            year - 1970 <= days - rem,
            year_and_rest(1970, days as int) == year_and_rest(year as int, rem as int),
        ensures
            year >= 1970,
            year_and_rest(1970, days as int) == (year as int, rem as int),
        decreases rem,
    {
        let diy: i64 = if (year % 4 == 0 && year % 100 != 0) || year % 400 == 0 { 366 } else { 365 };
        assert(diy == days_in_year(year as int));
        if rem < diy {
            assert(year_and_rest(year as int, rem as int) == (year as int, rem as int));
            break;
        }
        rem = rem - diy;
        year = year + 1;
    }
    let leap = (year % 4 == 0 && year % 100 != 0) || year % 400 == 0;
    assert(leap == is_leap(year as int));
    let mut month: i64 = 1;
    let mut day: i64 = rem + 1;
    while month < 12
        invariant
            1 <= month <= 12,
            day <= rem + 1,
            month_and_day(leap, 1, rem + 1) == month_and_day(leap, month as int, day as int),
        ensures
            1 <= month <= 12,
            month_and_day(leap, 1, rem + 1) == (month as int, day as int),
        decreases 12 - month,
    {
        let ml: i64 = if month == 2 {
            if leap { 29 } else { 28 }
        } else if month == 4 || month == 6 || month == 9 || month == 11 {
            30
        } else {
            31
        };
        assert(ml == month_len(leap, month as int));
        if day <= ml {
            assert(month_and_day(leap, month as int, day as int) == (month as int, day as int));
            break;
        }
        day = day - ml;
        month = month + 1;
    }
    let (hours, within) = tdivrem(secs, 3600);
    let (minutes, _) = tdivrem(within, 60);
    let (_, seconds) = tdivrem(secs, 60);
    let mut v: Vec<char> = Vec::new();
    assert(pad4(year as nat) == decimal(year as nat));
    push_decimal(&mut v, year as u64);
    push_str(&mut v, "-");
    push_pad2(&mut v, month);
    push_str(&mut v, "-");
    push_pad2(&mut v, day);
    push_str(&mut v, " ");
    push_pad2(&mut v, hours);
    push_str(&mut v, ":");
    push_pad2(&mut v, minutes);
    push_str(&mut v, ":");
    push_pad2(&mut v, seconds);
    string_from_chars(&v)
}

/// The name `{:?}` gives an instance state.
pub open spec fn state_name(s: InstanceState) -> Seq<char> {
    match s {
        InstanceState::Starting => "Starting"@,
        InstanceState::Running => "Running"@,
        InstanceState::Stopping => "Stopping"@,
        InstanceState::Stopped => "Stopped"@,
        InstanceState::Error => "Error"@,
    }
}

/// The name of an instance state.
pub fn state_label(s: InstanceState) -> (r: &'static str)
    ensures
        r@ == state_name(s),
{
    match s {
        InstanceState::Starting => "Starting",
        InstanceState::Running => "Running",
        InstanceState::Stopping => "Stopping",
        InstanceState::Stopped => "Stopped",
        InstanceState::Error => "Error",
    }
}

/// The `/session` answer.
pub open spec fn session_info_text(m: TopicMapping, inst: Option<InstanceInfo>) -> Seq<char> {
    "Session Info\n\n"@ + match inst {
        Some(i) => "Status: "@ + state_name(i.state) + "\nPort: "@ + decimal(i.port as nat) + "\n"@,
        None => "Status: (not available)\nPort: (not available)\n"@,
    } + match m.session_id {
        Some(s) => "Session: "@ + s@ + "\n"@,
        None => "Session: (not available)\n"@,
    } + "Project: "@ + m.project_path@ + "\nCreated: "@ + timestamp_text(m.created_at as int) + "\n"@
}

/// What is known of a topic's session and of its instance, if any.
pub fn format_session_info(mapping: &TopicMapping, instance: Option<&InstanceInfo>) -> (r: String)
    ensures
        r@ == session_info_text(*mapping, match instance {
            Some(i) => Some(*i),
            None => None,
        }),
{
    let mut v: Vec<char> = Vec::new();
    push_str(&mut v, "Session Info\n\n");
    match instance {
        Some(inst) => {
            push_str(&mut v, "Status: ");
            push_str(&mut v, state_label(inst.state));
            push_str(&mut v, "\nPort: ");
            push_decimal(&mut v, inst.port as u64);
            push_str(&mut v, "\n");
        },
        None => {
            push_str(&mut v, "Status: (not available)\nPort: (not available)\n");
        },
    }
    match &mapping.session_id {
        Some(s) => {
            push_str(&mut v, "Session: ");
            push_str(&mut v, s.as_str());
            push_str(&mut v, "\n");
        },
        None => push_str(&mut v, "Session: (not available)\n"),
    }
    push_str(&mut v, "Project: ");
    push_str(&mut v, mapping.project_path.as_str());
    push_str(&mut v, "\nCreated: ");
    let t = format_timestamp(mapping.created_at);
    push_str(&mut v, t.as_str());
    push_str(&mut v, "\n");
    string_from_chars(&v)
}

} // verus!
