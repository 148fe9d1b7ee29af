//! Decoding the body of a response into sailings.
//!
//! A body is a JSON object with the fields `totalCount`, an integer, and
//! `items`, an array of sailing objects. Fields beyond the named ones are
//! passed over. A body that is no JSON, or that lacks a named field or holds
//! another kind of value under it, is rejected as a whole.

use vstd::prelude::*;
use crate::event::{Capacity, CodeWrapper, Event, EventResponse, EventResponseView, EventView};
use crate::event::views_of;
use crate::event_map::{EventMap, keyed};
use crate::json::{Json, JsonView, parsed_json};

verus! {

/// A body that does not follow the schema of a response.
#[derive(Debug, Clone, Copy, PartialEq, Eq, Structural)]
pub struct DecodeError;

/// The integer under a field of an object.
pub open spec fn int_field(json: JsonView, name: Seq<char>) -> Option<i32> {
    match json.field(name) {
        Some(value) => value.int32(),
        None => None,
    }
}

/// The text under a field of an object.
pub open spec fn text_field(json: JsonView, name: Seq<char>) -> Option<Seq<char>> {
    match json.field(name) {
        Some(value) => value.text(),
        None => None,
    }
}

/// The code of the classification object under a field of an object.
pub open spec fn code_field(json: JsonView, name: Seq<char>) -> Option<Seq<char>> {
    match json.field(name) {
        Some(value) => text_field(value, "code"@),
        None => None,
    }
}

/// The capacities that a JSON object spells.
pub open spec fn capacity_of(json: JsonView) -> Option<Capacity> {
    if int_field(json, "pcs"@) is Some && int_field(json, "bc"@) is Some && int_field(
        json,
        "sv"@,
    ) is Some && int_field(json, "bv"@) is Some && int_field(json, "dc"@) is Some {
        Some(
            Capacity {
                passengers: int_field(json, "pcs"@)->0,
                bc: int_field(json, "bc"@)->0,
                small_vehicles: int_field(json, "sv"@)->0,
                large_vehicles: int_field(json, "bv"@)->0,
                dc: int_field(json, "dc"@)->0,
            },
        )
    } else {
        None
    }
}

/// The capacities under the field `capacities` of an object.
pub open spec fn capacities_field(json: JsonView) -> Option<Capacity> {
    match json.field("capacities"@) {
        Some(value) => capacity_of(value),
        None => None,
    }
}

/// The sailing that a JSON object spells.
pub open spec fn event_of(json: JsonView) -> Option<EventView> {
    if text_field(json, "uid"@) is Some && capacities_field(json) is Some && code_field(
        json,
        "pricelist"@,
    ) is Some && code_field(json, "transportationType"@) is Some && code_field(json, "ship"@)
        is Some && text_field(json, "status"@) is Some && text_field(json, "dtstart"@) is Some
        && text_field(json, "dtend"@) is Some {
        Some(
            EventView {
                uuid: text_field(json, "uid"@)->0,
                capacities: capacities_field(json)->0,
                price_list: code_field(json, "pricelist"@)->0,
                transportation_type: code_field(json, "transportationType"@)->0,
                ship: code_field(json, "ship"@)->0,
                status: text_field(json, "status"@)->0,
                start: text_field(json, "dtstart"@)->0,
                end: text_field(json, "dtend"@)->0,
            },
        )
    } else {
        None
    }
}

/// The sailings that a list of JSON values spells, in its order; `None`
/// where one of them is no sailing.
pub open spec fn events_of(items: Seq<JsonView>) -> Option<Seq<EventView>> {
    if forall|i: int| 0 <= i < items.len() ==> (#[trigger] event_of(items[i])) is Some {
        Some(Seq::new(items.len(), |i: int| event_of(items[i])->0))
    } else {
        None
    }
}

/// The response that a JSON document spells.
pub open spec fn response_of(json: JsonView) -> Option<EventResponseView> {
    match (int_field(json, "totalCount"@), json.field("items"@)) {
        (Some(total_count), Some(JsonView::Array(items))) => match events_of(items) {
            Some(events) => Some(EventResponseView { total_count, items: events }),
            None => None,
        },
        _ => None,
    }
}

/// The response that the text of a body spells.
pub open spec fn decoded_response(body: Seq<char>) -> Option<EventResponseView> {
    match parsed_json(body) {
        Some(json) => response_of(json),
        None => None,
    }
}

/// The sailings of a body, keyed by identifier.
pub open spec fn decoded_events(body: Seq<char>) -> Option<Map<Seq<char>, EventView>> {
    match decoded_response(body) {
        Some(response) => Some(keyed(response.items)),
        None => None,
    }
}

fn read_int(json: &Json, name: &str) -> (number: Option<i32>)
    ensures
        number == int_field(json@, name@),
{
    match json.get(name) {
        Some(value) => value.as_i32(),
        None => None,
    }
}

fn read_text(json: &Json, name: &str) -> (text: Option<String>)
    ensures
        match text {
            Some(value) => text_field(json@, name@) == Some(value@),
            None => text_field(json@, name@) is None,
        },
{
    match json.get(name) {
        Some(value) => match value.as_text() {
            Some(text) => Some(text.to_owned()),
            None => None,
        },
        None => None,
    }
}

fn read_code(json: &Json, name: &str) -> (code: Option<CodeWrapper>)
    ensures
        match code {
            Some(value) => code_field(json@, name@) == Some(value@),
            None => code_field(json@, name@) is None,
        },
{
    match json.get(name) {
        Some(value) => match read_text(value, "code") {
            Some(code) => Some(CodeWrapper { code }),
            None => None,
        },
        None => None,
    }
}

/// Reads the capacities that a JSON object spells.
pub fn decode_capacity(json: &Json) -> (capacity: Option<Capacity>)
    ensures
        capacity == capacity_of(json@),
{
    let passengers = read_int(json, "pcs");
    let bc = read_int(json, "bc");
    let small_vehicles = read_int(json, "sv");
    let large_vehicles = read_int(json, "bv");
    let dc = read_int(json, "dc");
    match (passengers, bc, small_vehicles, large_vehicles, dc) {
        (Some(passengers), Some(bc), Some(small_vehicles), Some(large_vehicles), Some(dc)) => Some(
            Capacity { passengers, bc, small_vehicles, large_vehicles, dc },
        ),
        _ => None,
    }
}

fn read_capacities(json: &Json) -> (capacity: Option<Capacity>)
    ensures
        capacity == capacities_field(json@),
{
    match json.get("capacities") {
        Some(value) => decode_capacity(value),
        None => None,
    }
}

/// Reads the sailing that a JSON object spells.
pub fn decode_event(json: &Json) -> (event: Option<Event>)
    ensures
        match event {
            Some(value) => event_of(json@) == Some(value@),
            None => event_of(json@) is None,
        },
{
    let uuid = read_text(json, "uid");
    let capacities = read_capacities(json);
    let price_list = read_code(json, "pricelist");
    let transportation_type = read_code(json, "transportationType");
    let ship = read_code(json, "ship");
    let status = read_text(json, "status");
    let start = read_text(json, "dtstart");
    let end = read_text(json, "dtend");
    match (uuid, capacities, price_list, transportation_type, ship, status, start, end) {
        (
            Some(uuid),
            Some(capacities),
            Some(price_list),
            Some(transportation_type),
            Some(ship),
            Some(status),
            Some(start),
            Some(end),
        ) => Some(
            Event { uuid, capacities, price_list, transportation_type, ship, status, start, end },
        ),
        _ => None,
    }
}

fn decode_items(items: &Vec<Json>) -> (events: Option<Vec<Event>>)
    ensures
        match events {
            Some(list) => events_of(items@.map_values(|item: Json| item@)) == Some(
                views_of(list@),
            ),
            None => events_of(items@.map_values(|item: Json| item@)) is None,
        },
{
    let ghost documents = items@.map_values(|item: Json| item@);
    let mut events: Vec<Event> = Vec::new();
    let mut at: usize = 0;
    while at < items.len()
        invariant
            at <= items@.len(),
            documents == items@.map_values(|item: Json| item@),
            events@.len() == at,
            forall|i: int|
                0 <= i < at ==> (#[trigger] event_of(documents[i])) == Some(events@[i]@),
        decreases items@.len() - at,
    {
        match decode_event(&items[at]) {
            Some(event) => {
                events.push(event);
            },
            None => {
                assert(event_of(documents[at as int]) is None);
                return None;
            },
        }
        at += 1;
    }
    proof {
        assert(events_of(documents) is Some);
        assert forall|i: int| 0 <= i < events@.len() implies events_of(documents)->0[i]
            == #[trigger] views_of(events@)[i] by {
            assert(event_of(documents[i]) == Some(events@[i]@));
        }
        assert(events_of(documents)->0 =~= views_of(events@));
    }
    Some(events)
}

/// Reads the response that a JSON document spells.
pub fn decode_response(json: &Json) -> (decoded: Result<EventResponse, DecodeError>)
    ensures
        match decoded {
            Ok(response) => response_of(json@) == Some(response@),
            Err(_) => response_of(json@) is None,
        },
{
    let total_count = match read_int(json, "totalCount") {
        Some(total_count) => total_count,
        None => {
            return Err(DecodeError);
        },
    };
    let list = match json.get("items") {
        Some(value) => match value.as_array() {
            Some(list) => list,
            None => {
                return Err(DecodeError);
            },
        },
        None => {
            return Err(DecodeError);
        },
    };
    match decode_items(list) {
        Some(items) => Ok(EventResponse { total_count, items }),
        None => Err(DecodeError),
    }
}

/// Reads the text of a body as a response.
pub fn decode_body(body: &str) -> (decoded: Result<EventResponse, DecodeError>)
    ensures
        match decoded {
            Ok(response) => decoded_response(body@) == Some(response@),
            Err(_) => decoded_response(body@) is None,
        },
{
    match Json::parse(body) {
        Some(json) => decode_response(&json),
        None => Err(DecodeError),
    }
}

/// Reads the text of a body as sailings keyed by identifier. Where two
/// sailings of the body share an identifier, the later one is kept.
pub fn decode_events(body: &str) -> (decoded: Result<EventMap, DecodeError>)
    ensures
        match decoded {
            Ok(events) => events.wf() && decoded_events(body@) == Some(events@),
            Err(_) => decoded_events(body@) is None,
        },
{
    match decode_body(body) {
        Ok(response) => Ok(EventMap::from_items(response.items)),
        Err(error) => Err(error),
    }
}

/// Decoding depends on the body alone: what two decodings of one body give
/// holds the same sailings under the same identifiers.
pub proof fn lemma_decoding_repeats(
    body: Seq<char>,
    first: Map<Seq<char>, EventView>,
    second: Map<Seq<char>, EventView>,
)
    requires
        decoded_events(body) == Some(first),
        decoded_events(body) == Some(second),
    ensures
        first.dom() == second.dom(),
        forall|key: Seq<char>| first.dom().contains(key) ==> first[key] == second[key],
{
}

/// Where two sailings of a body share an identifier and none after them has
/// it, the decoded collection holds the later of the two under it, and holds
/// it once: a collection has one sailing for each identifier.
pub proof fn lemma_later_item_wins(body: Seq<char>, earlier: int, later: int)
    requires
        decoded_response(body) is Some,
        0 <= earlier < later < decoded_response(body)->0.items.len(),
        decoded_response(body)->0.items[earlier].uuid == decoded_response(body)->0.items[later].uuid,
        forall|after: int|
            later < after < decoded_response(body)->0.items.len() ==> decoded_response(
                body,
            )->0.items[after].uuid != decoded_response(body)->0.items[later].uuid,
    ensures
        decoded_events(body) is Some,
        decoded_events(body)->0.dom().contains(decoded_response(body)->0.items[later].uuid),
        decoded_events(body)->0[decoded_response(body)->0.items[later].uuid] == decoded_response(
            body,
        )->0.items[later],
{
    crate::event_map::lemma_keyed_last_wins(decoded_response(body)->0.items, later);
}

} // verus!
