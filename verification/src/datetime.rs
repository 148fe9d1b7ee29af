//! Calendar dates and the timestamps of the service, read and written by
//! chrono.

use vstd::arithmetic::div_mod::lemma_mod_multiples_vanish;
use vstd::prelude::*;

verus! {

/// The form in which a date is typed: day, month, year.
pub const INPUT_DATE_FORMAT: &'static str = "%d.%m.%Y";

/// The form in which a date is sent to the service: year, month, day.
pub const OUTPUT_DATE_FORMAT: &'static str = "%Y-%m-%d";

/// The form of the timestamps of the service, with fraction and offset.
pub const DATETIME_FORMAT: &'static str = "%Y-%m-%dT%H:%M:%S%.f%z";

/// The form in which a time of day is shown.
pub const TIME_FORMAT: &'static str = "%H:%M";

/// The first and the last year that chrono's dates reach.
pub const MIN_YEAR: i32 = -262143;

pub const MAX_YEAR: i32 = 262142;

/// A text that is no date or timestamp in the form asked for.
#[derive(Debug, Clone, Copy, PartialEq, Eq, Structural)]
pub struct TimeFormatError;

/// A day of the proleptic Gregorian calendar.
#[derive(Debug, Clone, Copy, PartialEq, Eq, Structural)]
pub struct Date {
    pub year: i32,
    pub month: u32,
    pub day: u32,
}

/// Whether the year has a 29th of February.
pub open spec fn is_leap_year(year: int) -> bool {
    year % 4 == 0 && (year % 100 != 0 || year % 400 == 0)
}

/// The number of days of a month; 0 for a month that does not exist.
pub open spec fn days_in_month(year: int, month: int) -> int {
    if month == 2 {
        if is_leap_year(year) {
            29
        } else {
            28
        }
    } else if month == 4 || month == 6 || month == 9 || month == 11 {
        30
    } else if 1 <= month <= 12 {
        31
    } else {
        0
    }
}

/// Whether year, month and day name a day that chrono's dates reach.
pub open spec fn is_calendar_day(year: int, month: int, day: int) -> bool {
    MIN_YEAR <= year <= MAX_YEAR && 1 <= day <= days_in_month(year, month)
}

/// Whether the year has a 29th of February.
pub fn leap_year(year: i32) -> (leap: bool)
    ensures
        leap == is_leap_year(year as int),
{
    // Years repeat their leap days every 400: count from a year far below.
    let shifted: i64 = year as i64 + 4000000000;
    proof {
        lemma_mod_multiples_vanish(1000000000, year as int, 4);
        lemma_mod_multiples_vanish(40000000, year as int, 100);
        lemma_mod_multiples_vanish(10000000, year as int, 400);
    }
    shifted % 4 == 0 && (shifted % 100 != 0 || shifted % 400 == 0)
}

/// The number of days of a month; 0 for a month that does not exist.
pub fn month_length(year: i32, month: u32) -> (days: u32)
    ensures
        days == days_in_month(year as int, month as int),
{
    if month == 2 {
        if leap_year(year) {
            29
        } else {
            28
        }
    } else if month == 4 || month == 6 || month == 9 || month == 11 {
        30
    } else if 1 <= month && month <= 12 {
        31
    } else {
        0
    }
}

impl Date {
    /// The day exists.
    pub open spec fn wf(&self) -> bool {
        is_calendar_day(self.year as int, self.month as int, self.day as int)
    }

    /// The day with this year, month and day, where there is one.
    pub fn from_ymd(year: i32, month: u32, day: u32) -> (date: Option<Date>)
        ensures
            date is Some <==> is_calendar_day(year as int, month as int, day as int),
            date matches Some(made) ==> made == (Date { year, month, day }),
    {
        if MIN_YEAR <= year && year <= MAX_YEAR && 1 <= day && day <= month_length(year, month) {
            Some(Date { year, month, day })
        } else {
            None
        }
    }
}

/// `chrono::ParseError`, which says why a text was not read.
#[verifier::external_type_specification]
#[verifier::external_body]
pub struct ExParseError(chrono::ParseError);

/// The day that chrono reads from a text in a given form; `None` where it
/// reads none.
pub uninterp spec fn parsed_date(text: Seq<char>, format: Seq<char>) -> Option<Date>;

/// The instant that chrono reads from a timestamp in a given form, in
/// seconds since the beginning of 1970 in universal time; `None` where it
/// reads none.
pub uninterp spec fn parsed_instant(text: Seq<char>, format: Seq<char>) -> Option<i64>;

/// The character of a decimal digit.
pub open spec fn digit_char(digit: int) -> char {
    seq!['0', '1', '2', '3', '4', '5', '6', '7', '8', '9'][digit]
}

/// A number in decimal digits, with zeros in front up to a width.
pub open spec fn padded(value: nat, width: nat) -> Seq<char>
    decreases value, width,
{
    if value < 10 && width <= 1 {
        seq![digit_char(value as int)]
    } else {
        padded(value / 10, (width - 1) as nat).push(digit_char(value as int % 10))
    }
}

/// A year as it is written: four digits from 0 to 9999, and for any other
/// year a sign and at least four digits.
pub open spec fn year_text(year: int) -> Seq<char> {
    if 0 <= year <= 9999 {
        padded(year as nat, 4)
    } else if year > 0 {
        seq!['+'] + padded(year as nat, 4)
    } else {
        seq!['-'] + padded((-year) as nat, 4)
    }
}

/// The text of a day in one of the two forms of dates: year, month and day
/// between dashes, or day, month and year between points, with month and day
/// in two digits.
pub open spec fn formatted_date(date: Date, format: Seq<char>) -> Seq<char> {
    if format == OUTPUT_DATE_FORMAT@ {
        year_text(date.year as int) + seq!['-'] + padded(date.month as nat, 2) + seq!['-']
            + padded(date.day as nat, 2)
    } else if format == INPUT_DATE_FORMAT@ {
        padded(date.day as nat, 2) + seq!['.'] + padded(date.month as nat, 2) + seq!['.']
            + year_text(date.year as int)
    } else {
        Seq::empty()
    }
}

/// A time of day as it is shown: hour and minute in two digits each, with a
/// colon between them.
pub open spec fn clock_text(hour: int, minute: int) -> Seq<char> {
    padded(hour as nat, 2) + seq![':'] + padded(minute as nat, 2)
}

/// The seconds of a day.
pub const DAY_SECONDS: i64 = 86400;

/// Whether an offset from universal time, in seconds, lies within a day.
pub open spec fn within_a_day(offset: int) -> bool {
    -DAY_SECONDS < offset < DAY_SECONDS
}

/// The second of the day at which an instant falls where the clocks are
/// `offset` seconds ahead of universal time.
pub open spec fn second_of_day(instant: int, offset: int) -> int {
    (instant + offset) % (DAY_SECONDS as int)
}

/// The time of day of an instant where the clocks are `offset` seconds
/// ahead of universal time.
pub open spec fn time_text(instant: int, offset: int) -> Seq<char> {
    clock_text(second_of_day(instant, offset) / 3600, second_of_day(instant, offset) % 3600 / 60)
}

/// Calls `NaiveDate::parse_from_str` and copies year, month and day out of
/// the date it gives. The contract claims that the outcome depends on text
/// and form alone, and that a day that was read exists.
#[verifier::external_body]
fn parse_date(text: &str, format: &str) -> (parsed: Result<Date, chrono::ParseError>)
    ensures
        parsed.ok() == parsed_date(text@, format@),
        parsed matches Ok(date) ==> date.wf(),
{
    let date = chrono::NaiveDate::parse_from_str(text, format)?;
    Ok(
        Date {
            year: chrono::Datelike::year(&date),
            month: chrono::Datelike::month(&date),
            day: chrono::Datelike::day(&date),
        },
    )
}

/// Calls `NaiveDate::format` on the day, in one of the two forms of dates,
/// and collects what it writes. The contract claims what chrono documents
/// of `%Y`, `%m` and `%d`: the year in four digits, with a sign and at least
/// four digits outside 0 to 9999, and month and day in two digits.
#[verifier::external_body]
fn format_date(date: &Date, format: &str) -> (text: String)
    requires
        date.wf(),
        format@ == INPUT_DATE_FORMAT@ || format@ == OUTPUT_DATE_FORMAT@,
    ensures
        text@ == formatted_date(*date, format@),
{
    match chrono::NaiveDate::from_ymd_opt(date.year, date.month, date.day) {
        Some(day) => day.format(format).to_string(),
        None => String::new(),
    }
}

/// Whether a text is the time of day of an instant on clocks that are
/// within a day of universal time.
pub open spec fn is_local_time(text: Seq<char>, instant: int) -> bool {
    exists|offset: int| within_a_day(offset) && text == #[trigger] time_text(instant, offset)
}

/// Calls `DateTime::parse_from_str` and takes the instant of what it gives
/// with `DateTime::timestamp`. The contract claims that the outcome depends
/// on text and form alone.
#[verifier::external_body]
fn parse_instant(text: &str, format: &str) -> (parsed: Result<i64, chrono::ParseError>)
    ensures
        parsed.ok() == parsed_instant(text@, format@),
{
    let stamp = chrono::DateTime::parse_from_str(text, format)?;
    Ok(stamp.timestamp())
}

/// Asks `chrono::Local` by how many seconds the clocks of this machine are
/// ahead of universal time at an instant (`TimeZone::offset_from_utc_datetime`
/// and `FixedOffset::local_minus_utc`); nothing where chrono has no moment
/// for the instant (`DateTime::from_timestamp`). The answer depends on the
/// machine; the contract claims only that it lies within a day.
#[verifier::external_body]
fn local_offset(instant: i64) -> (offset: Option<i32>)
    ensures
        offset matches Some(seconds) ==> within_a_day(seconds as int),
{
    let moment = chrono::DateTime::from_timestamp(instant, 0)?;
    let zone = chrono::TimeZone::offset_from_utc_datetime(&chrono::Local, &moment.naive_utc());
    Some(chrono::Offset::fix(&zone).local_minus_utc())
}

/// Calls `NaiveTime::format` on hour and minute, in the form of a time of
/// day, and collects what it writes. The contract claims what chrono
/// documents of `%H` and `%M`: two digits each.
#[verifier::external_body]
fn format_time(hour: u32, minute: u32, format: &str) -> (text: String)
    requires
        hour < 24,
        minute < 60,
        format@ == TIME_FORMAT@,
    ensures
        text@ == clock_text(hour as int, minute as int),
{
    match chrono::NaiveTime::from_hms_opt(hour, minute, 0) {
        Some(time) => time.format(format).to_string(),
        None => String::new(),
    }
}

/// The second of the day at which an instant falls where the clocks are
/// `offset` seconds ahead of universal time.
pub fn day_second(instant: i64, offset: i32) -> (second: u32)
    ensures
        second == second_of_day(instant as int, offset as int),
{
    // Days repeat their seconds: count from a day far below.
    let moved: i128 = instant as i128 + offset as i128;
    let shifted: i128 = moved + 8640000000000000000000;
    proof {
        lemma_mod_multiples_vanish(100000000000000000, moved as int, 86400);
    }
    (shifted % 86400) as u32
}

/// Writes the time of day of an instant where the clocks are `offset`
/// seconds ahead of universal time.
pub fn local_datetime_to_time_string(instant: i64, offset: i32) -> (text: String)
    ensures
        text@ == time_text(instant as int, offset as int),
{
    let second = day_second(instant, offset);
    format_time(second / 3600, second % 3600 / 60, TIME_FORMAT)
}

/// Reads a timestamp of the service as an instant, in seconds since the
/// beginning of 1970 in universal time.
pub fn get_instant(input: &str) -> (instant: Result<i64, TimeFormatError>)
    ensures
        instant.ok() == parsed_instant(input@, DATETIME_FORMAT@),
{
    match parse_instant(input, DATETIME_FORMAT) {
        Ok(instant) => Ok(instant),
        Err(_) => Err(TimeFormatError),
    }
}

/// Reads a timestamp of the service as an instant on the clocks of this
/// machine: the instant, and the seconds by which the clocks are ahead of
/// universal time at it. The instant depends on the timestamp alone; the
/// seconds depend on the time zone of the machine.
pub fn get_local_datetime(input: &str) -> (moment: Result<(i64, i32), TimeFormatError>)
    ensures
        moment is Ok <==> parsed_instant(input@, DATETIME_FORMAT@) is Some,
        moment matches Ok(read) ==> Some(read.0) == parsed_instant(input@, DATETIME_FORMAT@)
            && within_a_day(read.1 as int),
{
    match get_instant(input) {
        Ok(instant) => {
            // An instant beyond the reach of the zone data is shown in
            // universal time.
            let offset = match local_offset(instant) {
                Some(offset) => offset,
                None => 0,
            };
            Ok((instant, offset))
        },
        Err(error) => Err(error),
    }
}

/// Writes the time of day of a timestamp of the service on the clocks of
/// this machine. A text is given exactly for the timestamps in the form of
/// the service; which time of day it is depends on the time zone of the
/// machine.
pub fn service_datetime_to_local_time_string(input: &str) -> (text: Result<
    String,
    TimeFormatError,
>)
    ensures
        text is Ok <==> parsed_instant(input@, DATETIME_FORMAT@) is Some,
        text matches Ok(time) ==> is_local_time(
            time@,
            parsed_instant(input@, DATETIME_FORMAT@)->0 as int,
        ),
{
    match get_local_datetime(input) {
        Ok((instant, offset)) => {
            let time = local_datetime_to_time_string(instant, offset);
            assert(within_a_day(offset as int) && time@ == time_text(
                instant as int,
                offset as int,
            ));
            Ok(time)
        },
        Err(error) => Err(error),
    }
}

/// Reads a date as it is typed, day first.
pub fn get_naive_date(input: &str) -> (date: Result<Date, TimeFormatError>)
    ensures
        date.ok() == parsed_date(input@, INPUT_DATE_FORMAT@),
        date matches Ok(day) ==> day.wf(),
{
    match parse_date(input, INPUT_DATE_FORMAT) {
        Ok(date) => Ok(date),
        Err(_) => Err(TimeFormatError),
    }
}

/// Reads a date as it is sent to the service, year first.
pub fn get_naive_date_from_output_format(input: &str) -> (date: Result<Date, TimeFormatError>)
    ensures
        date.ok() == parsed_date(input@, OUTPUT_DATE_FORMAT@),
        date matches Ok(day) ==> day.wf(),
{
    match parse_date(input, OUTPUT_DATE_FORMAT) {
        Ok(date) => Ok(date),
        Err(_) => Err(TimeFormatError),
    }
}

/// Writes a date as it is typed, day first.
pub fn naive_date_to_input_string(naive_date: &Date) -> (text: String)
    requires
        naive_date.wf(),
    ensures
        text@ == formatted_date(*naive_date, INPUT_DATE_FORMAT@),
{
    format_date(naive_date, INPUT_DATE_FORMAT)
}

/// Writes a date as it is sent to the service, year first.
pub fn naive_date_to_output_string(naive_date: &Date) -> (text: String)
    requires
        naive_date.wf(),
    ensures
        text@ == formatted_date(*naive_date, OUTPUT_DATE_FORMAT@),
{
    format_date(naive_date, OUTPUT_DATE_FORMAT)
}

/// The day that lies so many days after a day, or before it where the
/// number is negative, as chrono counts; `None` where chrono's dates do not
/// reach it.
pub uninterp spec fn shifted_date(date: Date, days: i64) -> Option<Date>;

/// Calls `NaiveDate::checked_add_signed` with `TimeDelta::try_days` and
/// copies year, month and day out of the date it gives. The contract claims
/// that the outcome depends on day and number alone, and that a day that
/// was reached exists.
#[verifier::external_body]
fn shift_date(date: &Date, days: i64) -> (moved: Option<Date>)
    requires
        date.wf(),
    ensures
        moved == shifted_date(*date, days),
        moved matches Some(day) ==> day.wf(),
{
    let day = chrono::NaiveDate::from_ymd_opt(date.year, date.month, date.day)?;
    let moved = day.checked_add_signed(chrono::TimeDelta::try_days(days)?)?;
    Some(
        Date {
            year: chrono::Datelike::year(&moved),
            month: chrono::Datelike::month(&moved),
            day: chrono::Datelike::day(&moved),
        },
    )
}

/// A move on the calendar.
#[derive(Debug, Clone, Copy, PartialEq, Eq, Structural)]
pub enum CalendarStep {
    /// To the day before.
    Left,
    /// To the next day.
    Right,
    /// To the same day of the week before.
    Up,
    /// To the same day of the next week.
    Down,
}

impl CalendarStep {
    /// The days that the move goes forward; backward where negative.
    pub open spec fn days_spec(self) -> i64 {
        match self {
            CalendarStep::Left => -1i64,
            CalendarStep::Right => 1i64,
            CalendarStep::Up => -7i64,
            CalendarStep::Down => 7i64,
        }
    }

    /// The days that the move goes forward; backward where negative.
    pub fn days(&self) -> (days: i64)
        ensures
            days == self.days_spec(),
    {
        match self {
            CalendarStep::Left => -1,
            CalendarStep::Right => 1,
            CalendarStep::Up => -7,
            CalendarStep::Down => 7,
        }
    }
}

impl Date {
    /// The day that a move on the calendar leads to: a day or a week from
    /// this one; `None` where chrono's dates do not reach it.
    pub fn moved(&self, step: CalendarStep) -> (day: Option<Date>)
        requires
            self.wf(),
        ensures
            day == shifted_date(*self, step.days_spec()),
            day matches Some(reached) ==> reached.wf(),
    {
        shift_date(self, step.days())
    }
}

} // verus!
