//! Calendar days and the calendar arithmetic the simulation needs.
//!
//! A day is held as a plain day count, so that ordering and stepping are
//! ordinary integer facts. The calendar itself is `chrono`'s: the library asks
//! it for the ISO week of a day, its weekday, a later day, and the day that a
//! timestamp text names.

use crate::error::SimulationError;
use vstd::prelude::*;

verus! {

/// The largest ISO week number a year can have.
pub const MAX_WEEK: u32 = 53;

/// The first day that the calendar holds, 1 January of the year -262143, in
/// days from 1 January 1970.
pub const MIN_EPOCH_DAY: i32 = -96_465_292;

/// The last day that the calendar holds, 31 December of the year 262142, in
/// days from 1 January 1970.
pub const MAX_EPOCH_DAY: i32 = 95_026_236;

/// A day of the proleptic Gregorian calendar, counted in days from 1 January 1970.
#[derive(Clone, Copy, Debug, PartialEq, Eq, Structural, Hash)]
pub struct SimDate {
    pub epoch_day: i32,
}

/// Whether the calendar holds the day with this count of days from 1 January
/// 1970.
pub open spec fn in_calendar(epoch_day: int) -> bool {
    MIN_EPOCH_DAY <= epoch_day <= MAX_EPOCH_DAY
}

/// The ISO 8601 weekday number of the day `epoch_day` (Monday is 1, Sunday is
/// 7): 1 January 1970 was a Thursday, and the weekdays follow each other day
/// by day. `None` for a day outside the calendar.
pub open spec fn weekday_number_of_day(epoch_day: i32) -> Option<u32> {
    if in_calendar(epoch_day as int) {
        Some((((epoch_day + 3) % 7) + 1) as u32)
    } else {
        None
    }
}

/// The day that lies `days` days after `epoch_day`; `None` where either day
/// is outside the calendar.
pub open spec fn day_after_days(epoch_day: i32, days: u64) -> Option<i32> {
    if in_calendar(epoch_day as int) && in_calendar(epoch_day + days) {
        Some((epoch_day + days) as i32)
    } else {
        None
    }
}

/// The ISO 8601 week number of the day `epoch_day`, as `chrono` computes it;
/// `None` for a day outside the calendar.
pub uninterp spec fn iso_week_of_day(epoch_day: i32) -> Option<u32>;

/// The UTC calendar day of the instant that the RFC 3339 text names, as
/// `chrono` parses it; `None` where the text is not such a timestamp.
pub uninterp spec fn rfc3339_day(text: Seq<char>) -> Option<i32>;

/// Declares `chrono::ParseError`, the error of `chrono`'s parsers, as a type
/// that is carried through unread: nothing is claimed of what it holds.
#[verifier::external_type_specification]
#[verifier::external_body]
pub struct ExParseError(chrono::ParseError);

/// Calls `chrono::NaiveDate::from_epoch_days` and, on the date it gives,
/// `Datelike::iso_week` and `IsoWeek::week`.
///
/// Claims that the result is the named week of that day; that there is one
/// exactly for the days between `NaiveDate::MIN` and `NaiveDate::MAX`, which
/// `from_epoch_days` accepts; and, as the documentation of `week` says, that a
/// week number lies between 1 and 53.
#[verifier::external_body]
pub(crate) fn iso_week(epoch_day: i32) -> (week: Option<u32>)
    ensures
        week == iso_week_of_day(epoch_day),
        week is Some <==> in_calendar(epoch_day as int),
        week matches Some(w) ==> 1 <= w <= MAX_WEEK,
{
    match chrono::NaiveDate::from_epoch_days(epoch_day) {
        Some(date) => Some(chrono::Datelike::iso_week(&date).week()),
        None => None,
    }
}

/// Calls `chrono::NaiveDate::from_epoch_days` and, on the date it gives,
/// `Datelike::weekday` and `Weekday::number_from_monday`.
///
/// Claims that a day between `NaiveDate::MIN` and `NaiveDate::MAX` has the
/// weekday that follows from 1 January 1970 being a Thursday, numbered from
/// Monday as 1 to Sunday as 7, and that a day outside them has none.
#[verifier::external_body]
pub(crate) fn weekday_number(epoch_day: i32) -> (number: Option<u32>)
    ensures
        number == weekday_number_of_day(epoch_day),
{
    match chrono::NaiveDate::from_epoch_days(epoch_day) {
        Some(date) => Some(chrono::Datelike::weekday(&date).number_from_monday()),
        None => None,
    }
}

/// Calls `chrono::NaiveDate::from_epoch_days`, then
/// `NaiveDate::checked_add_days`, and reads the answer back with
/// `NaiveDate::to_epoch_days`.
///
/// Claims that the later day is `days` days further on in the day count, and
/// that there is one exactly where both days lie between `NaiveDate::MIN` and
/// `NaiveDate::MAX`.
#[verifier::external_body]
pub(crate) fn add_days(epoch_day: i32, days: u64) -> (later: Option<i32>)
    ensures
        later == day_after_days(epoch_day, days),
{
    match chrono::NaiveDate::from_epoch_days(epoch_day) {
        Some(date) => match date.checked_add_days(chrono::Days::new(days)) {
            Some(sum) => Some(sum.to_epoch_days()),
            None => None,
        },
        None => None,
    }
}

/// Calls `chrono::DateTime::parse_from_rfc3339` and reads the UTC calendar day
/// of the instant with `to_utc`, `date_naive` and `to_epoch_days`.
///
/// Claims that the text is accepted exactly where the named day exists, that
/// the day returned is the named one, and that it is a day of the calendar.
#[verifier::external_body]
pub(crate) fn parse_rfc3339_day(text: &str) -> (day: Result<i32, chrono::ParseError>)
    ensures
        day is Ok <==> rfc3339_day(text@) is Some,
        day matches Ok(d) ==> rfc3339_day(text@) == Some(d) && in_calendar(d as int),
{
    match chrono::DateTime::parse_from_rfc3339(text) {
        Ok(instant) => Ok(instant.to_utc().date_naive().to_epoch_days()),
        Err(error) => Err(error),
    }
}

impl SimDate {
    /// The day with the given count of days from 1 January 1970.
    pub fn from_epoch_days(epoch_day: i32) -> (date: SimDate)
        ensures
            date.epoch_day == epoch_day,
    {
        SimDate { epoch_day }
    }

    /// Whether this day comes strictly before `other`.
    pub open spec fn is_before(self, other: SimDate) -> bool {
        self.epoch_day < other.epoch_day
    }

    /// The day `days` days after this one, where the calendar holds both.
    pub open spec fn after_days(self, days: u64) -> Option<SimDate> {
        match day_after_days(self.epoch_day, days) {
            Some(epoch_day) => Some(SimDate { epoch_day }),
            None => None,
        }
    }

    /// The day `days` days after this one, or `None` where the calendar does
    /// not hold both days.
    pub fn checked_add_days(&self, days: u64) -> (later: Option<SimDate>)
        ensures
            later == self.after_days(days),
            later matches Some(d) ==> d.epoch_day == self.epoch_day + days,
    {
        match add_days(self.epoch_day, days) {
            Some(epoch_day) => Some(SimDate { epoch_day }),
            None => None,
        }
    }
}

/// The first and the last day of a simulation, given the day that the
/// reference date names, if it names one, and the last day, if the calendar
/// holds it: a reference date that names no day is invalid, and a last day
/// beyond the calendar is a parameter that cannot be worked with.
pub open spec fn period_of(initial: Option<i32>, last: Option<SimDate>) -> Result<
    (SimDate, SimDate),
    SimulationError,
> {
    match initial {
        None => Err(SimulationError::InvalidReferenceDate),
        Some(epoch_day) => match last {
            Some(final_date) => Ok((SimDate { epoch_day }, final_date)),
            None => Err(SimulationError::ParameterError),
        },
    }
}

/// The first and the last day of a simulation that starts on the UTC day of
/// `reference_date` and looks `days_to_analyze` days ahead.
pub open spec fn period_from(reference_date: Seq<char>, days_to_analyze: u64) -> Result<
    (SimDate, SimDate),
    SimulationError,
> {
    period_of(
        rfc3339_day(reference_date),
        match rfc3339_day(reference_date) {
            Some(epoch_day) => SimDate { epoch_day }.after_days(days_to_analyze),
            None => None,
        },
    )
}

/// Works out the first and the last day of a simulation from an RFC 3339
/// reference date and the number of days to look ahead. Fails with
/// `InvalidReferenceDate` where the text is no such timestamp, and with
/// `ParameterError` where the last day lies beyond the calendar.
pub fn get_initial_and_final_dates(reference_date: &str, days_to_analyze: u64) -> (dates: Result<
    (SimDate, SimDate),
    SimulationError,
>)
    ensures
        dates == period_from(reference_date@, days_to_analyze),
{
    let initial_date = match parse_rfc3339_day(reference_date) {
        Ok(epoch_day) => SimDate { epoch_day },
        Err(_) => {
            return Err(SimulationError::InvalidReferenceDate);
        },
    };
    match initial_date.checked_add_days(days_to_analyze) {
        Some(final_date) => Ok((initial_date, final_date)),
        None => Err(SimulationError::ParameterError),
    }
}

/// The ISO week numbers of two days as a pair, where both have one between 1
/// and 53.
pub open spec fn week_pair(initial_week: Option<u32>, final_week: Option<u32>) -> Option<
    (i16, i16),
> {
    match (initial_week, final_week) {
        (Some(first), Some(last)) => if 1 <= first <= MAX_WEEK && 1 <= last <= MAX_WEEK {
            Some((first as i16, last as i16))
        } else {
            None
        },
        _ => None,
    }
}

/// The ISO week numbers (1 to 53) of the first and the last day of a
/// simulation; `None` where one of the days lies outside the calendar.
pub fn get_initial_and_final_weeks(initial_date: SimDate, final_date: SimDate) -> (weeks: Option<
    (i16, i16),
>)
    ensures
        weeks == week_pair(
            iso_week_of_day(initial_date.epoch_day),
            iso_week_of_day(final_date.epoch_day),
        ),
{
    let initial_week = match iso_week(initial_date.epoch_day) {
        Some(week) => week,
        None => {
            return None;
        },
    };
    let final_week = match iso_week(final_date.epoch_day) {
        Some(week) => week,
        None => {
            return None;
        },
    };
    Some((initial_week as i16, final_week as i16))
}

/// The week number at position `i` of the weeks counted from `initial_value`:
/// numbers above 53 start again at 1.
pub open spec fn week_at(initial_value: u32, i: int) -> int {
    if initial_value + i > MAX_WEEK {
        initial_value + i - MAX_WEEK
    } else {
        initial_value + i
    }
}

/// One past the last number counted from `initial_value` to reach
/// `final_value`: a range that does not run forward runs through week 53 and
/// on into the next year.
pub open spec fn week_range_end(initial_value: u32, final_value: u32) -> int {
    if initial_value < final_value {
        final_value + 1
    } else {
        final_value + MAX_WEEK + 1
    }
}

/// How many week numbers lie between `initial_value` and `final_value`, both
/// included.
pub open spec fn weeks_between(initial_value: u32, final_value: u32) -> int {
    if initial_value < week_range_end(initial_value, final_value) {
        week_range_end(initial_value, final_value) - initial_value
    } else {
        0
    }
}

/// The week numbers from `initial_value` to `final_value`, both included.
/// Where `final_value` is not after `initial_value` the list runs on through
/// week 53 and starts again at 1, up to `final_value` of the next year.
pub fn get_all_week_between(initial_value: u32, final_value: u32) -> (weeks: Vec<i16>)
    requires
        final_value <= i16::MAX,
    ensures
        weeks@.len() == weeks_between(initial_value, final_value),
        forall|i: int| 0 <= i < weeks@.len() ==> #[trigger] weeks@[i] == week_at(initial_value, i),
{
    let end: u32 = if initial_value < final_value {
        final_value + 1
    } else {
        final_value + MAX_WEEK + 1
    };
    let mut weeks: Vec<i16> = Vec::new();
    if initial_value >= end {
        return weeks;
    }
    let mut v: u32 = initial_value;
    while v < end
        invariant
            initial_value <= v <= end,
            end == week_range_end(initial_value, final_value),
            final_value <= i16::MAX,
            weeks@.len() == v - initial_value,
            forall|i: int| 0 <= i < weeks@.len() ==> #[trigger] weeks@[i] == week_at(initial_value, i),
        decreases end - v,
    {
        let week: u32 = if v > MAX_WEEK {
            v - MAX_WEEK
        } else {
            v
        };
        weeks.push(week as i16);
        v = v + 1;
    }
    weeks
}

} // verus!
