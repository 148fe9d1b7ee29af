//! What the change of a booking needs to know of the booking pages: their
//! address, the place of a line in the menu of lines, and the names of the
//! months as the pages show them.

use vstd::prelude::*;
use vstd::string::StringExecFns;
use crate::datetime::Date;
use crate::direction::Direction;
use crate::numbers::{parse_i32, parse_u32, parsed_i32, parsed_u32};
use crate::text::{is_front_of, lowercase, starts_with, str_eq, to_lowercase, trim, trimmed};

verus! {

/// The page of a booking, up to the parameters.
pub const MAIN_BOOKING_URL: &'static str = "https://www.praamid.ee/portal/ticket/checkout/success;";

/// The parameter that asks for the pages in Estonian.
pub const LANGUAGE_URL: &'static str = "lang=et";

/// The selector of the menu of lines, up to the item.
pub const DIRECTION_SELECT_ITEM_START: &'static str =
    "body > app-root > app-ticket-purchase > app-ticket-layout > div.bg-science-blue-50 > div.container.relative.pt-8.pb-5.xl\\:pb-8 > div:nth-child(3) > app-ticket-purchase-searchbar > div > div > div.flex.flex-1.py-4.border-b.lg\\:flex-none.border-midnight-blue-200.lg\\:border-0.lg\\:pr-8 > div > app-ticket-route-picker > div";

/// The end of the selector of a line in the menu of lines: the lines stand
/// in the menu in their order, below a heading.
pub open spec fn selector_end(direction: Direction) -> Seq<char> {
    match direction {
        Direction::HR => " > div:nth-child(2) > div > a"@,
        Direction::RH => " > div:nth-child(3) > div > a"@,
        Direction::KV => " > div:nth-child(4) > div > a"@,
        Direction::VK => " > div:nth-child(5) > div > a"@,
    }
}

/// The address of the page of a booking.
pub open spec fn booking_url_text(booking_id: Seq<char>) -> Seq<char> {
    MAIN_BOOKING_URL@ + "bookingUid="@ + booking_id + ";"@ + LANGUAGE_URL@
}

/// The number of the month with this Estonian name, in small letters.
pub open spec fn month_of_name(name: Seq<char>) -> Option<u32> {
    if name == "jaanuar"@ {
        Some(1)
    } else if name == "veebruar"@ {
        Some(2)
    } else if name == "märts"@ {
        Some(3)
    } else if name == "aprill"@ {
        Some(4)
    } else if name == "mai"@ {
        Some(5)
    } else if name == "juuni"@ {
        Some(6)
    } else if name == "juuli"@ {
        Some(7)
    } else if name == "august"@ {
        Some(8)
    } else if name == "september"@ {
        Some(9)
    } else if name == "oktoober"@ {
        Some(10)
    } else if name == "november"@ {
        Some(11)
    } else if name == "detsember"@ {
        Some(12)
    } else {
        None
    }
}

/// The selector of a line in the menu of lines.
pub fn desired_direction_to_selector(desired_direction: &Direction) -> (selector: String)
    ensures
        selector@ == DIRECTION_SELECT_ITEM_START@ + selector_end(*desired_direction),
{
    let end = match desired_direction {
        Direction::HR => " > div:nth-child(2) > div > a",
        Direction::RH => " > div:nth-child(3) > div > a",
        Direction::KV => " > div:nth-child(4) > div > a",
        Direction::VK => " > div:nth-child(5) > div > a",
    };
    let mut selector = String::from_str(DIRECTION_SELECT_ITEM_START);
    selector.append(end);
    selector
}

/// The address of the page of a booking.
pub fn booking_url(booking_id: &str) -> (url: String)
    ensures
        url@ == booking_url_text(booking_id@),
{
    let mut url = String::from_str(MAIN_BOOKING_URL);
    url.append("bookingUid=");
    url.append(booking_id);
    url.append(";");
    url.append(LANGUAGE_URL);
    url
}

/// The number of the month that a page shows by its Estonian name, in
/// letters of any size; `None` where no name is shown or it is no month.
pub fn parse_month(month_string_option: Option<String>) -> (month: Option<u32>)
    ensures
        month == match month_string_option {
            Some(name) => month_of_name(lowercase(name@)),
            None => None,
        },
{
    let name = match month_string_option {
        Some(name) => to_lowercase(name.as_str()),
        None => {
            return None;
        },
    };
    let name = name.as_str();
    if str_eq(name, "jaanuar") {
        Some(1)
    } else if str_eq(name, "veebruar") {
        Some(2)
    } else if str_eq(name, "märts") {
        Some(3)
    } else if str_eq(name, "aprill") {
        Some(4)
    } else if str_eq(name, "mai") {
        Some(5)
    } else if str_eq(name, "juuni") {
        Some(6)
    } else if str_eq(name, "juuli") {
        Some(7)
    } else if str_eq(name, "august") {
        Some(8)
    } else if str_eq(name, "september") {
        Some(9)
    } else if str_eq(name, "oktoober") {
        Some(10)
    } else if str_eq(name, "november") {
        Some(11)
    } else if str_eq(name, "detsember") {
        Some(12)
    } else {
        None
    }
}

/// How often the calendar of a page is looked at, at most, on the way to a
/// year or a month, after the first look.
pub const MAX_CALENDAR_MOVES: u32 = 120;

/// Why a booking was not changed.
#[derive(Debug, Clone, Copy, PartialEq, Eq, Structural)]
pub enum BookingError {
    /// The day lies before today.
    PastDate,
    /// The calendar did not reach the year.
    YearNotReached,
    /// The calendar did not reach the month.
    MonthNotReached,
    /// The calendar shows a year that is no number.
    UnreadableYear,
    /// The calendar shows a month that is none.
    UnreadableMonth,
    /// The calendar shows a day that is no number.
    UnreadableDay,
}

/// What is done with the calendar of a page.
#[derive(Debug, Clone, Copy, PartialEq, Eq, Structural)]
pub enum CalendarMove {
    /// It shows another year or month: go on to the next month.
    Next,
    /// It shows the year or month that is wanted.
    Arrived,
}

/// Whether day `a` lies before day `b`.
pub open spec fn lies_before(a: Date, b: Date) -> bool {
    a.year < b.year || (a.year == b.year && (a.month < b.month || (a.month == b.month && a.day
        < b.day)))
}

/// The move for a calendar that shows `shown` where `desired` is wanted.
pub open spec fn move_towards<T>(shown: T, desired: T) -> CalendarMove {
    if shown == desired {
        CalendarMove::Arrived
    } else {
        CalendarMove::Next
    }
}

impl BookingError {
    /// What is said of the failure.
    pub fn message(&self) -> (text: &'static str)
        ensures
            text@ == match self {
                BookingError::PastDate => "Cannot book into past"@,
                BookingError::YearNotReached => "Failed to move to desired year"@,
                BookingError::MonthNotReached => "Failed to move to desired month"@,
                BookingError::UnreadableYear => "Failed to parse year from text"@,
                BookingError::UnreadableMonth => "Failed to parse month from text"@,
                BookingError::UnreadableDay => "Failed to parse date from text"@,
            },
    {
        match self {
            BookingError::PastDate => "Cannot book into past",
            BookingError::YearNotReached => "Failed to move to desired year",
            BookingError::MonthNotReached => "Failed to move to desired month",
            BookingError::UnreadableYear => "Failed to parse year from text",
            BookingError::UnreadableMonth => "Failed to parse month from text",
            BookingError::UnreadableDay => "Failed to parse date from text",
        }
    }
}

/// Refuses a day that lies before today.
pub fn check_not_past(desired_date: &Date, current_date: &Date) -> (checked: Result<
    (),
    BookingError,
>)
    ensures
        checked == if lies_before(*desired_date, *current_date) {
            Err::<(), BookingError>(BookingError::PastDate)
        } else {
            Ok(())
        },
{
    let before = desired_date.year < current_date.year || (desired_date.year == current_date.year
        && (desired_date.month < current_date.month || (desired_date.month == current_date.month
        && desired_date.day < current_date.day)));
    if before {
        Err(BookingError::PastDate)
    } else {
        Ok(())
    }
}

/// Whether the calendar may be looked at once more, after so many looks on
/// the way to a year or a month.
pub fn may_move_on(counter: u32) -> (allowed: bool)
    ensures
        allowed == (counter <= MAX_CALENDAR_MOVES),
{
    counter <= MAX_CALENDAR_MOVES
}

/// The move for a calendar that shows a year, on the way to the year that
/// is wanted.
pub fn year_move(year_in_text: &str, desired_year: i32) -> (step: Result<
    CalendarMove,
    BookingError,
>)
    ensures
        step == match parsed_i32(year_in_text@) {
            Some(year) => Ok::<CalendarMove, BookingError>(move_towards(year, desired_year)),
            None => Err(BookingError::UnreadableYear),
        },
{
    match parse_i32(year_in_text) {
        Some(year) => {
            if year == desired_year {
                Ok(CalendarMove::Arrived)
            } else {
                Ok(CalendarMove::Next)
            }
        },
        None => Err(BookingError::UnreadableYear),
    }
}

/// The move for a calendar that shows a month by its name, on the way to
/// the month that is wanted.
pub fn month_move(month_in_text: Option<String>, desired_month: u32) -> (step: Result<
    CalendarMove,
    BookingError,
>)
    ensures
        step == match month_in_text {
            Some(name) => match month_of_name(lowercase(name@)) {
                Some(month) => Ok::<CalendarMove, BookingError>(
                    move_towards(month, desired_month),
                ),
                None => Err(BookingError::UnreadableMonth),
            },
            None => Err(BookingError::UnreadableMonth),
        },
{
    match parse_month(month_in_text) {
        Some(month) => {
            if month == desired_month {
                Ok(CalendarMove::Arrived)
            } else {
                Ok(CalendarMove::Next)
            }
        },
        None => Err(BookingError::UnreadableMonth),
    }
}

/// Whether a cell of the calendar, which shows the number of a day between
/// white space, is the cell of the day that is wanted.
pub fn is_booking_day(date_text: &str, desired_day: u32) -> (found: Result<bool, BookingError>)
    ensures
        found == match parsed_u32(trimmed(date_text@)) {
            Some(day) => Ok::<bool, BookingError>(day == desired_day),
            None => Err(BookingError::UnreadableDay),
        },
{
    match parse_u32(trim(date_text)) {
        Some(day) => Ok(day == desired_day),
        None => Err(BookingError::UnreadableDay),
    }
}

/// Whether a row of the page, which shows a departure time between white
/// space, is the row of the sailing with this time range.
pub fn is_departure_row(event_timespan: &str, departure_time_text: &str) -> (found: bool)
    ensures
        found == is_front_of(trimmed(departure_time_text@), event_timespan@),
{
    starts_with(event_timespan, trim(departure_time_text))
}

/// The identifier of a booking as it was typed: the text between the white
/// space at its ends, and none where nothing is left.
pub fn booking_id_from_input(input: &str) -> (booking_id: Option<String>)
    ensures
        match booking_id {
            Some(id) => id@ == trimmed(input@) && id@.len() > 0,
            None => trimmed(input@).len() == 0,
        },
{
    let inner = trim(input);
    if inner.is_empty() {
        None
    } else {
        Some(String::from_str(inner))
    }
}

} // verus!
