//! The client of the events resource: what is asked of the service and how
//! its answer is read. Sending the request is left to the caller.

use vstd::prelude::*;
use vstd::string::StringExecFns;
use crate::datetime::{Date, OUTPUT_DATE_FORMAT, formatted_date, naive_date_to_output_string};
use crate::decode::{decode_events, decoded_events};
use crate::direction::Direction;
use crate::engine::{EngineState, EngineView, FetchError, TransportError, WaitEngine};
use crate::event_map::EventMap;

verus! {

/// The resource that lists the sailings of a line on a day.
pub const EVENTS_URL: &'static str = "https://www.praamid.ee/online/events";

/// The name of the query parameter that holds the code of the line.
pub const DIRECTION_PARAMETER: &'static str = "direction";

/// The name of the query parameter that holds the day.
pub const DEPARTURE_DATE_PARAMETER: &'static str = "departure-date";

/// The settings of a polling session.
#[derive(Debug, Clone, Copy, PartialEq, Eq, Structural)]
pub struct Client {
    pub pause_between_stream_items: u64,
}

impl Client {
    /// A client that pauses for so many seconds between two fetches.
    pub fn new(pause_between_stream_items: u64) -> (client: Client)
        ensures
            client.pause_between_stream_items == pause_between_stream_items,
    {
        Client { pause_between_stream_items }
    }

    /// The query parameters of the request for the sailings of a line on a
    /// day: the code of the line, and the day with the year first.
    pub fn query(departure_date: &Date, direction: &Direction) -> (parameters: Vec<
        (String, String),
    >)
        requires
            departure_date.wf(),
        ensures
            parameters@.len() == 2,
            parameters@[0].0@ == DIRECTION_PARAMETER@,
            parameters@[0].1@ == direction.abbreviation_spec(),
            parameters@[1].0@ == DEPARTURE_DATE_PARAMETER@,
            parameters@[1].1@ == formatted_date(*departure_date, OUTPUT_DATE_FORMAT@),
    {
        let mut parameters: Vec<(String, String)> = Vec::new();
        parameters.push(
            (String::from_str(DIRECTION_PARAMETER), String::from_str(direction.abbreviation())),
        );
        parameters.push(
            (
                String::from_str(DEPARTURE_DATE_PARAMETER),
                naive_date_to_output_string(departure_date),
            ),
        );
        parameters
    }

    /// Reads the answer to a request: the text of the body, or the cause for
    /// which none came. A missing body is a transport failure with that
    /// cause; a body outside the schema is a decode failure; any other body
    /// gives its sailings, keyed by identifier.
    pub fn events_from_answer(answer: Result<String, String>) -> (fetched: Result<
        EventMap,
        FetchError,
    >)
        ensures
            match answer {
                Err(cause) => fetched matches Err(FetchError::Transport(failure)) && failure.cause@
                    == cause@,
                Ok(body) => match decoded_events(body@) {
                    Some(events) => fetched matches Ok(map) && map.wf() && map@ == events,
                    None => fetched matches Err(FetchError::Decode(_)),
                },
            },
    {
        match answer {
            Err(cause) => Err(FetchError::Transport(TransportError { cause })),
            Ok(body) => match decode_events(body.as_str()) {
                Ok(events) => Ok(events),
                Err(error) => Err(FetchError::Decode(error)),
            },
        }
    }

    /// Starts the wait for a place on a sailing: an engine that polls at the
    /// pace of this client.
    pub fn create_wait_stream(
        &self,
        departure_date: &Date,
        direction: &Direction,
        event_uuid: &str,
    ) -> (engine: WaitEngine)
        ensures
            engine@ == (EngineView {
                state: EngineState::Polling,
                uuid: event_uuid@,
                line: *direction,
                date: *departure_date,
                interval: self.pause_between_stream_items,
                ticks: 0,
            }),
    {
        WaitEngine::new(
            *direction,
            *departure_date,
            String::from_str(event_uuid),
            self.pause_between_stream_items,
        )
    }
}

} // verus!
