//! The closed set of ferry lines.

use vstd::prelude::*;
use crate::text::str_eq;

verus! {

/// One of the four fixed line directions.
#[derive(Debug, Clone, Copy, PartialEq, Eq, Structural)]
pub enum Direction {
    HR,
    RH,
    KV,
    VK,
}

/// A string that names none of the four lines.
#[derive(Debug, Clone, Copy, PartialEq, Eq, Structural)]
pub struct UnknownRoute;

impl Direction {
    /// The code by which the service knows this line.
    pub open spec fn abbreviation_spec(self) -> Seq<char> {
        match self {
            Direction::HR => "HR"@,
            Direction::RH => "RH"@,
            Direction::KV => "KV"@,
            Direction::VK => "VK"@,
        }
    }

    /// The label under which this line is shown.
    pub open spec fn label_spec(self) -> Seq<char> {
        match self {
            Direction::HR => "Heltermaa - Rohuküla"@,
            Direction::RH => "Rohuküla - Heltermaa"@,
            Direction::KV => "Kuivastu - Virtsu"@,
            Direction::VK => "Virtsu - Kuivastu"@,
        }
    }

    /// The line with the given service code, if there is one.
    pub open spec fn parse_abbreviation(code: Seq<char>) -> Option<Direction> {
        if code == "HR"@ {
            Some(Direction::HR)
        } else if code == "RH"@ {
            Some(Direction::RH)
        } else if code == "KV"@ {
            Some(Direction::KV)
        } else if code == "VK"@ {
            Some(Direction::VK)
        } else {
            None
        }
    }

    /// The line with the given label, if there is one.
    pub open spec fn parse_label(label: Seq<char>) -> Option<Direction> {
        if label == "Heltermaa - Rohuküla"@ {
            Some(Direction::HR)
        } else if label == "Rohuküla - Heltermaa"@ {
            Some(Direction::RH)
        } else if label == "Kuivastu - Virtsu"@ {
            Some(Direction::KV)
        } else if label == "Virtsu - Kuivastu"@ {
            Some(Direction::VK)
        } else {
            None
        }
    }

    /// The line at a position of the menu, if the position exists.
    pub open spec fn line_at(index: int) -> Option<Direction> {
        if index == 0 {
            Some(Direction::HR)
        } else if index == 1 {
            Some(Direction::RH)
        } else if index == 2 {
            Some(Direction::KV)
        } else if index == 3 {
            Some(Direction::VK)
        } else {
            None
        }
    }

    /// The code sent to the service as the `direction` query parameter.
    pub fn abbreviation(&self) -> (code: &'static str)
        ensures
            code@ == self.abbreviation_spec(),
    {
        match self {
            Direction::HR => "HR",
            Direction::RH => "RH",
            Direction::KV => "KV",
            Direction::VK => "VK",
        }
    }

    /// The label of the line, as a menu shows it.
    pub fn label(&self) -> (label: &'static str)
        ensures
            label@ == self.label_spec(),
    {
        match self {
            Direction::HR => "Heltermaa - Rohuküla",
            Direction::RH => "Rohuküla - Heltermaa",
            Direction::KV => "Kuivastu - Virtsu",
            Direction::VK => "Virtsu - Kuivastu",
        }
    }

    /// The label of the line as an owned string.
    pub fn to_string(&self) -> (label: String)
        ensures
            label@ == self.label_spec(),
    {
        self.label().to_owned()
    }

    /// Reads a service code. Any string but the four codes is rejected.
    pub fn from_abbreviation(code: &str) -> (parsed: Result<Direction, UnknownRoute>)
        ensures
            parsed.ok() == Self::parse_abbreviation(code@),
    {
        if str_eq(code, "HR") {
            Ok(Direction::HR)
        } else if str_eq(code, "RH") {
            Ok(Direction::RH)
        } else if str_eq(code, "KV") {
            Ok(Direction::KV)
        } else if str_eq(code, "VK") {
            Ok(Direction::VK)
        } else {
            Err(UnknownRoute)
        }
    }

    /// Reads a label. Any string but the four labels is rejected.
    pub fn from_str(label: &str) -> (parsed: Result<Direction, UnknownRoute>)
        ensures
            parsed.ok() == Self::parse_label(label@),
    {
        if str_eq(label, "Heltermaa - Rohuküla") {
            Ok(Direction::HR)
        } else if str_eq(label, "Rohuküla - Heltermaa") {
            Ok(Direction::RH)
        } else if str_eq(label, "Kuivastu - Virtsu") {
            Ok(Direction::KV)
        } else if str_eq(label, "Virtsu - Kuivastu") {
            Ok(Direction::VK)
        } else {
            Err(UnknownRoute)
        }
    }

    /// The line at a position of the menu; `None` past its end.
    pub fn get_line_by_index(index: usize) -> (line: Option<Direction>)
        ensures
            line == Self::line_at(index as int),
    {
        if index == 0 {
            Some(Direction::HR)
        } else if index == 1 {
            Some(Direction::RH)
        } else if index == 2 {
            Some(Direction::KV)
        } else if index == 3 {
            Some(Direction::VK)
        } else {
            None
        }
    }
}

impl Default for Direction {
    fn default() -> (line: Direction)
        ensures
            line == Direction::HR,
    {
        Direction::HR
    }
}

/// The four service codes differ from one another, so reading back the code
/// of a line gives that line.
pub proof fn lemma_abbreviation_round_trip(line: Direction)
    ensures
        Direction::parse_abbreviation(line.abbreviation_spec()) == Some(line),
{
    reveal_strlit("HR");
    reveal_strlit("RH");
    reveal_strlit("KV");
    reveal_strlit("VK");
    assert("HR"@[0] == 'H' && "RH"@[0] == 'R' && "KV"@[0] == 'K' && "VK"@[0] == 'V');
}

/// A code that was read is the code of the line it was read as.
pub proof fn lemma_parsed_abbreviation_is_code(code: Seq<char>)
    ensures
        Direction::parse_abbreviation(code) matches Some(line) ==> line.abbreviation_spec()
            == code,
{
}

} // verus!
