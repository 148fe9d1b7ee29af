//! Sailings as the service reports them.

use vstd::prelude::*;
use vstd::string::StringExecFns;
use crate::datetime::{DATETIME_FORMAT, TimeFormatError, parsed_instant, time_text, within_a_day};
use crate::datetime::{get_local_datetime, local_datetime_to_time_string};

verus! {

/// Free places of one sailing, by kind. The service may report any integer;
/// a value that is not positive means that no place is free.
#[derive(Debug, Clone, Copy, PartialEq, Eq, PartialOrd, Ord, Hash, Structural)]
pub struct Capacity {
    pub passengers: i32,
    pub bc: i32,
    pub small_vehicles: i32,
    pub large_vehicles: i32,
    pub dc: i32,
}

/// A classification code of the service, carried through unread.
#[derive(Debug, PartialEq, Eq, PartialOrd, Ord, Hash)]
pub struct CodeWrapper {
    pub code: String,
}

/// One scheduled crossing, as one response describes it.
#[derive(Debug, PartialEq, Eq, PartialOrd, Ord, Hash)]
pub struct Event {
    pub uuid: String,
    pub capacities: Capacity,
    pub price_list: CodeWrapper,
    pub transportation_type: CodeWrapper,
    pub ship: CodeWrapper,
    pub status: String,
    pub start: String,
    pub end: String,
}

/// What an [`Event`] holds, with each text as a sequence of characters.
pub struct EventView {
    pub uuid: Seq<char>,
    pub capacities: Capacity,
    pub price_list: Seq<char>,
    pub transportation_type: Seq<char>,
    pub ship: Seq<char>,
    pub status: Seq<char>,
    pub start: Seq<char>,
    pub end: Seq<char>,
}

/// The body of a response: a count and the sailings, in the order sent.
#[derive(Debug)]
pub struct EventResponse {
    pub total_count: i32,
    pub items: Vec<Event>,
}

/// What an [`EventResponse`] holds.
pub struct EventResponseView {
    pub total_count: i32,
    pub items: Seq<EventView>,
}

/// What one poll says of the tracked sailing.
#[derive(Debug, Clone, Copy, PartialEq, Eq, PartialOrd, Ord, Hash, Structural)]
pub enum WaitForSpot {
    /// Places for small vehicles are free: so many.
    Done(usize),
    /// No place is free yet, or nothing is known this round.
    Waiting,
}

impl View for CodeWrapper {
    type V = Seq<char>;

    open spec fn view(&self) -> Seq<char> {
        self.code@
    }
}

impl Clone for CodeWrapper {
    fn clone(&self) -> (copy: Self)
        ensures
            copy@ == self@,
    {
        CodeWrapper { code: self.code.clone() }
    }
}

impl View for Event {
    type V = EventView;

    open spec fn view(&self) -> EventView {
        EventView {
            uuid: self.uuid@,
            capacities: self.capacities,
            price_list: self.price_list@,
            transportation_type: self.transportation_type@,
            ship: self.ship@,
            status: self.status@,
            start: self.start@,
            end: self.end@,
        }
    }
}

impl Clone for Event {
    fn clone(&self) -> (copy: Self)
        ensures
            copy@ == self@,
    {
        Event {
            uuid: self.uuid.clone(),
            capacities: self.capacities,
            price_list: self.price_list.clone(),
            transportation_type: self.transportation_type.clone(),
            ship: self.ship.clone(),
            status: self.status.clone(),
            start: self.start.clone(),
            end: self.end.clone(),
        }
    }
}

/// The views of a sequence of events, in the same order.
pub open spec fn views_of(events: Seq<Event>) -> Seq<EventView> {
    events.map_values(|event: Event| event@)
}

impl View for EventResponse {
    type V = EventResponseView;

    open spec fn view(&self) -> EventResponseView {
        EventResponseView { total_count: self.total_count, items: views_of(self.items@) }
    }
}

/// A time range as it is shown: the start, a dash between spaces, the end.
pub open spec fn time_range_text(start_time: Seq<char>, end_time: Seq<char>) -> Seq<char> {
    start_time + " - "@ + end_time
}

/// The time range from one instant to another, each on clocks that are so
/// many seconds ahead of universal time: the time of day of the start first,
/// then that of the end.
pub open spec fn local_range_text(start: int, start_offset: int, end: int, end_offset: int) -> Seq<
    char,
> {
    time_range_text(time_text(start, start_offset), time_text(end, end_offset))
}

/// Whether a text is the time range from one instant to another on clocks
/// that are within a day of universal time.
pub open spec fn is_local_range(text: Seq<char>, start: int, end: int) -> bool {
    exists|start_offset: int, end_offset: int|
        within_a_day(start_offset) && within_a_day(end_offset) && text == #[trigger] local_range_text(
            start,
            start_offset,
            end,
            end_offset,
        )
}

/// Writes a time range from its two times of day.
pub fn join_time_range(start_time: &str, end_time: &str) -> (text: String)
    ensures
        text@ == time_range_text(start_time@, end_time@),
{
    let mut text = String::from_str(start_time);
    text.append(" - ");
    text.append(end_time);
    text
}

/// Writes the time range from one instant to another, each on clocks that
/// are so many seconds ahead of universal time.
pub fn time_range_at(start: i64, start_offset: i32, end: i64, end_offset: i32) -> (text: String)
    ensures
        text@ == local_range_text(start as int, start_offset as int, end as int, end_offset as int),
{
    let start_time = local_datetime_to_time_string(start, start_offset);
    let end_time = local_datetime_to_time_string(end, end_offset);
    join_time_range(start_time.as_str(), end_time.as_str())
}

/// The instant at which a sailing starts, where its timestamp is in the
/// form of the service.
pub open spec fn start_instant(event: EventView) -> Option<i64> {
    parsed_instant(event.start, DATETIME_FORMAT@)
}

/// The instant at which a sailing ends, where its timestamp is in the form
/// of the service.
pub open spec fn end_instant(event: EventView) -> Option<i64> {
    parsed_instant(event.end, DATETIME_FORMAT@)
}

impl Event {
    /// The time range of the sailing, from start to end, on the clocks of
    /// this machine. It is given exactly where both timestamps are in the
    /// form of the service; how far the clocks are ahead of universal time
    /// at the two instants depends on the time zone of the machine.
    pub fn time_range(&self) -> (text: Result<String, TimeFormatError>)
        ensures
            text is Ok <==> start_instant(self@) is Some && end_instant(self@) is Some,
            text matches Ok(range) ==> is_local_range(
                range@,
                start_instant(self@)->0 as int,
                end_instant(self@)->0 as int,
            ),
    {
        let start = get_local_datetime(self.start.as_str());
        let end = get_local_datetime(self.end.as_str());
        match (start, end) {
            (Ok((start, start_offset)), Ok((end, end_offset))) => {
                let range = time_range_at(start, start_offset, end, end_offset);
                assert(range@ == local_range_text(
                    start as int,
                    start_offset as int,
                    end as int,
                    end_offset as int,
                ));
                Ok(range)
            },
            _ => Err(TimeFormatError),
        }
    }
}

} // verus!
