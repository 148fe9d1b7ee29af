//! What the parts of an interface tell the program that holds them, and the
//! names of those parts.

use vstd::prelude::*;
use crate::event::{Event, WaitForSpot};

verus! {

/// The parts of the interface.
#[derive(Debug, Clone, Copy, PartialEq, Eq, Hash, Structural)]
pub enum ComponentId {
    Header,
    DepartureDate,
    SelectFerry,
    SelectLine,
    HiddenHandler,
    TrackingList,
}

/// What a part of the interface tells the program.
#[derive(Debug, PartialEq, Eq)]
pub enum Message {
    /// Leave the program.
    AppClose,
    /// Go back to the choice of the day.
    BackToCalendar,
    /// Stop tracking every sailing.
    ClearAll,
    /// Take the sailings with places found out of the list.
    ClearFinished,
    /// Take the sailings without places found out of the list.
    ClearUnfinished,
    /// Another day is shown as chosen.
    DepartureDateChanged(String),
    /// The day is chosen.
    DepartureDateSubmitted(String),
    /// The sailings of the chosen day and line came, ordered by start.
    EventsReceived(Vec<Event>),
    /// The engine of the sailing with this identifier emitted a result.
    WaitResultReceived((String, WaitForSpot)),
    /// Another sailing is shown as chosen.
    FerryChanged(usize),
    /// The sailing is chosen.
    FerrySubmitted,
    /// Silence the alarm.
    KillTheAlarm,
    /// Another line is shown as chosen.
    LineChanged(usize),
    /// The line is chosen.
    LineSubmitted,
    /// Time went by and nothing else happened.
    TickFromListener,
}

/// The command that a letter key stands for, where it stands for one.
pub open spec fn key_command(key: char) -> Option<Message> {
    if key == 'c' {
        Some(Message::BackToCalendar)
    } else if key == 'h' {
        Some(Message::ClearFinished)
    } else if key == 'l' {
        Some(Message::ClearAll)
    } else if key == 's' {
        Some(Message::ClearUnfinished)
    } else if key == 'f' {
        Some(Message::KillTheAlarm)
    } else {
        None
    }
}

impl Message {
    /// The command that a letter key stands for, where it stands for one.
    pub fn from_key(key: char) -> (command: Option<Message>)
        ensures
            command == key_command(key),
    {
        if key == 'c' {
            Some(Message::BackToCalendar)
        } else if key == 'h' {
            Some(Message::ClearFinished)
        } else if key == 'l' {
            Some(Message::ClearAll)
        } else if key == 's' {
            Some(Message::ClearUnfinished)
        } else if key == 'f' {
            Some(Message::KillTheAlarm)
        } else {
            None
        }
    }
}

} // verus!
