//! Moments in time, and how long it is from one to another.

use vstd::prelude::*;

verus! {

pub const NANOS_PER_SEC: u32 = 1000000000;

pub const SECS_PER_DAY: i64 = 86400;

/// A moment: seconds since the start of 1970 in UTC, and nanoseconds within the second. In a leap
/// second the nanoseconds go on past a second.
#[derive(Debug, Clone, Copy, PartialEq, Eq, Structural)]
pub struct Moment {
    pub secs: i64,
    pub nanos: u32,
}

/// The second within its day.
pub open spec fn time_of_day(secs: int) -> int {
    secs % SECS_PER_DAY as int
}

/// The second that a leap second adds between two moments: one that the earlier of them is in, by
/// the time of day.
pub open spec fn leap_between(to: Moment, from: Moment) -> int {
    if time_of_day(to.secs as int) > time_of_day(from.secs as int) && from.nanos >= NANOS_PER_SEC {
        1
    } else if time_of_day(to.secs as int) < time_of_day(from.secs as int) && to.nanos >= NANOS_PER_SEC {
        -1
    } else {
        0
    }
}

/// The nanoseconds from one moment to another.
pub open spec fn nanos_between(to: Moment, from: Moment) -> int {
    (to.secs - from.secs + leap_between(to, from)) * NANOS_PER_SEC + to.nanos - from.nanos
}

/// The whole seconds from one moment to another; the fraction is dropped, also of a time in the
/// past.
pub open spec fn secs_between(to: Moment, from: Moment) -> int {
    let nanos = nanos_between(to, from);
    if nanos >= 0 {
        nanos / NANOS_PER_SEC as int
    } else {
        -(-nanos / NANOS_PER_SEC as int)
    }
}

fn second_of_day(secs: i64) -> (r: i64)
    ensures
        r == time_of_day(secs as int),
{
    if secs >= 0 {
        secs % SECS_PER_DAY
    } else {
        SECS_PER_DAY - 1 - (-(secs + 1)) % SECS_PER_DAY
    }
}

/// The whole seconds until `to`, as of `from`.
pub fn secs_until(to: Moment, from: Moment) -> (r: i128)
    ensures
        r == secs_between(to, from),
{
    let ends: i64 = second_of_day(to.secs);
    let starts: i64 = second_of_day(from.secs);
    let leap: i128 = if ends > starts && from.nanos >= NANOS_PER_SEC {
        1
    } else if ends < starts && to.nanos >= NANOS_PER_SEC {
        -1
    } else {
        0
    };
    let unit: i128 = NANOS_PER_SEC as i128;
    let nanos: i128 = (to.secs as i128 - from.secs as i128 + leap) * unit + to.nanos as i128 - from.nanos as i128;
    if nanos >= 0 {
        nanos / unit
    } else {
        -((-nanos) / unit)
    }
}

/// What `chrono::DateTime::parse_from_rfc3339` reads in a text: seconds since the start of 1970 in
/// UTC, and nanoseconds within the second.
pub uninterp spec fn rfc3339_time(text: Seq<char>) -> Option<(i64, u32)>;

/// What a moment says.
pub open spec fn moment_view(moment: Option<Moment>) -> Option<(i64, u32)> {
    match moment {
        Some(m) => Some((m.secs, m.nanos)),
        None => None,
    }
}

/// `chrono::DateTime::parse_from_rfc3339`, with `timestamp` and `timestamp_subsec_nanos` of what it
/// gives: the moment that the text writes, where it writes one. It depends on the text alone.
#[verifier::external_body]
fn parse_moment(text: &str) -> (r: Option<Moment>)
    ensures
        moment_view(r) == rfc3339_time(text@),
{
    match chrono::DateTime::parse_from_rfc3339(text) {
        Ok(time) => Some(Moment { secs: time.timestamp(), nanos: time.timestamp_subsec_nanos() }),
        Err(_) => None,
    }
}

/// The moment at which a market closes, where its closing time is given and can be read.
pub fn closing_moment(close_time: Option<&str>) -> (r: Option<Moment>)
    ensures
        moment_view(r) == (match close_time {
            Some(text) => rfc3339_time(text@),
            None => None,
        }),
{
    match close_time {
        Some(text) => parse_moment(text),
        None => None,
    }
}

} // verus!
