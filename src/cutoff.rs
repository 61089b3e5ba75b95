//! Reading the time bounds of a history window from text.
use jiff::civil::{Date, DateTime};
use jiff::tz::TimeZone;
use jiff::Timestamp;
use std::str::FromStr;
use vstd::prelude::*;

verus! {

/// Which side of a window a time bound closes.
#[derive(Clone, Copy, Debug, PartialEq, Eq)]
pub enum Side {
    /// The older side: a bare date means the start of that day.
    Start,
    /// The newer side: a bare date means the end of that day.
    End,
}

/// What a local (time-zone free) reading of a text gave.
pub enum LocalReading {
    /// The text is not of this form.
    NotThisForm,
    /// The text names this instant, in seconds since the Unix epoch.
    Instant(i64),
    /// The text is of this form but names no instant in the local time zone.
    NoSuchInstant,
}

/// Why a time bound could not be read.
#[derive(Clone, Copy, Debug, PartialEq, Eq)]
pub enum CutoffError {
    /// The text is neither an instant, a civil date-time nor a date.
    Unparsable,
    /// The text is a civil date-time or date that the local time zone cannot place.
    NoSuchLocalTime,
}

/// The seconds since the Unix epoch that a text names as an absolute instant (with an
/// offset), if it is one.
pub uninterp spec fn instant_of(s: Seq<char>) -> Option<i64>;

/// Whether a text is a civil date-time.
pub uninterp spec fn is_civil_datetime(s: Seq<char>) -> bool;

/// Whether a text is a civil date.
pub uninterp spec fn is_civil_date(s: Seq<char>) -> bool;

/// Relies on jiff's `Timestamp::from_str`: an instant with an offset, as whole seconds
/// since the Unix epoch (truncated toward it).
#[verifier::external_body]
fn parse_instant(s: &str) -> (r: Option<i64>)
    ensures
        r == instant_of(s@),
{
    match Timestamp::from_str(s) {
        Ok(t) => Some(t.duration_since(Timestamp::UNIX_EPOCH).as_secs()),
        Err(_) => None,
    }
}

/// Relies on jiff's `DateTime::from_str`, placed in the system time zone by `to_zoned`.
/// The instant depends on that time zone; only whether the text has this form is fixed.
#[verifier::external_body]
fn read_local_datetime(s: &str) -> (r: LocalReading)
    ensures
        r is NotThisForm <==> !is_civil_datetime(s@),
{
    match DateTime::from_str(s) {
        Err(_) => LocalReading::NotThisForm,
        Ok(dt) => match dt.to_zoned(TimeZone::system()) {
            Ok(z) => LocalReading::Instant(z.timestamp().duration_since(Timestamp::UNIX_EPOCH).as_secs()),
            Err(_) => LocalReading::NoSuchInstant,
        },
    }
}

/// What reading a text as a local calendar day gave.
pub enum DayReading {
    /// The text is not a date.
    NotThisForm,
    /// The first and the last instant of that day, in seconds since the Unix epoch.
    Bounds { first: i64, last: i64 },
    /// The text is a date that the local time zone cannot place.
    NoSuchInstant,
}

/// Relies on jiff's `Date::from_str`, placed in the system time zone by `to_zoned`, and on
/// `Zoned::start_of_day` and `Zoned::end_of_day` for its first and last instant. The
/// instants depend on that time zone; only whether the text has this form is fixed.
#[verifier::external_body]
fn read_local_day(s: &str) -> (r: DayReading)
    ensures
        r is NotThisForm <==> !is_civil_date(s@),
{
    let Ok(d) = Date::from_str(s) else { return DayReading::NotThisForm };
    let Ok(day) = d.to_zoned(TimeZone::system()) else { return DayReading::NoSuchInstant };
    match (day.start_of_day(), day.end_of_day()) {
        (Ok(a), Ok(b)) => DayReading::Bounds {
            first: a.timestamp().duration_since(Timestamp::UNIX_EPOCH).as_secs(),
            last: b.timestamp().duration_since(Timestamp::UNIX_EPOCH).as_secs(),
        },
        _ => DayReading::NoSuchInstant,
    }
}

/// Whether a character separates a date from a time of day.
pub open spec fn time_separator(c: char) -> bool {
    c == 'T' || c == 't' || c == ' ' || c == ':'
}

/// Whether a text has a time-of-day part; a text without one is read as a bare date first.
pub open spec fn has_time_part(s: Seq<char>) -> bool {
    exists|i: int| 0 <= i < s.len() && time_separator(#[trigger] s[i])
}

fn is_time_separator(c: char) -> (r: bool)
    ensures
        r == time_separator(c),
{
    c == 'T' || c == 't' || c == ' ' || c == ':'
}

/// Whether a text has a time-of-day part.
pub fn time_part(s: &str) -> (r: bool)
    ensures
        r == has_time_part(s@),
{
    let n = s.unicode_len();
    let mut i: usize = 0;
    while i < n
        invariant
            i <= n,
            n == s@.len(),
            forall|j: int| 0 <= j < i ==> !time_separator(#[trigger] s@[j]),
        decreases n - i,
    {
        if is_time_separator(s.get_char(i)) {
            return true;
        }
        i = i + 1;
    }
    false
}

/// The bound a local day reading gives: the day's first instant for the older side, its
/// last instant for the newer side.
pub open spec fn day_bound(day: DayReading, side: Side) -> Option<Result<i64, CutoffError>> {
    match day {
        DayReading::NotThisForm => None,
        DayReading::NoSuchInstant => Some(Err(CutoffError::NoSuchLocalTime)),
        DayReading::Bounds { first, last } => Some(Ok(if side == Side::Start { first } else { last })),
    }
}

/// The bound a local date-time reading gives.
pub open spec fn datetime_bound(datetime: LocalReading) -> Option<Result<i64, CutoffError>> {
    match datetime {
        LocalReading::NotThisForm => None,
        LocalReading::NoSuchInstant => Some(Err(CutoffError::NoSuchLocalTime)),
        LocalReading::Instant(t) => Some(Ok(t)),
    }
}

/// The result of reading a time bound, given what each form gave: an absolute instant
/// first; then, for a text without a time of day, a bare date (widened by `side`) before a
/// local date-time, and for any other text a local date-time before a bare date.
pub open spec fn cutoff_from(
    instant: Option<i64>,
    timed: bool,
    datetime: LocalReading,
    day: DayReading,
    side: Side,
) -> Result<i64, CutoffError> {
    let (first, second) = if timed {
        (datetime_bound(datetime), day_bound(day, side))
    } else {
        (day_bound(day, side), datetime_bound(datetime))
    };
    match instant {
        Some(t) => Ok(t),
        None => match first {
            Some(r) => r,
            None => match second {
                Some(r) => r,
                None => Err(CutoffError::Unparsable),
            },
        },
    }
}

fn exec_day_bound(day: DayReading, side: Side) -> (r: Option<Result<i64, CutoffError>>)
    ensures
        r == day_bound(day, side),
{
    match day {
        DayReading::NotThisForm => None,
        DayReading::NoSuchInstant => Some(Err(CutoffError::NoSuchLocalTime)),
        DayReading::Bounds { first, last } => Some(Ok(
            match side {
                Side::Start => first,
                Side::End => last,
            },
        )),
    }
}

fn exec_datetime_bound(datetime: LocalReading) -> (r: Option<Result<i64, CutoffError>>)
    ensures
        r == datetime_bound(datetime),
{
    match datetime {
        LocalReading::NotThisForm => None,
        LocalReading::NoSuchInstant => Some(Err(CutoffError::NoSuchLocalTime)),
        LocalReading::Instant(t) => Some(Ok(t)),
    }
}

/// Chooses the bound from what each form gave, in order of precedence.
pub fn choose_cutoff(
    instant: Option<i64>,
    timed: bool,
    datetime: LocalReading,
    day: DayReading,
    side: Side,
) -> (r: Result<i64, CutoffError>)
    ensures
        r == cutoff_from(instant, timed, datetime, day, side),
{
    if let Some(t) = instant {
        return Ok(t);
    }
    let d = exec_datetime_bound(datetime);
    let b = exec_day_bound(day, side);
    let (first, second) = if timed { (d, b) } else { (b, d) };
    match first {
        Some(r) => r,
        None => match second {
            Some(r) => r,
            None => Err(CutoffError::Unparsable),
        },
    }
}

/// Reads a time bound: an absolute instant; else a bare date (a text without a time of day),
/// widened to the first instant of that day for the older side and the last for the newer
/// one; else a civil date-time in the local time zone. An absolute instant is taken as it is;
/// text of none of the three forms is `Unparsable`.
pub fn parse_cutoff(s: &str, side: Side) -> (r: Result<i64, CutoffError>)
    ensures
        instant_of(s@) matches Some(t) ==> r == Ok::<i64, CutoffError>(t),
        r == Err::<i64, CutoffError>(CutoffError::Unparsable) <==> (instant_of(s@) is None
            && !is_civil_datetime(s@) && !is_civil_date(s@)),
{
    let instant = parse_instant(s);
    let timed = time_part(s);
    let datetime = read_local_datetime(s);
    let day = read_local_day(s);
    choose_cutoff(instant, timed, datetime, day, side)
}

} // verus!
