use paat_core::request::WaitForSpot as WaitRequest;
use paat_core::booking::{
    booking_id_from_input, booking_url, check_not_past, desired_direction_to_selector, is_booking_day, is_departure_row,
    may_move_on, month_move, parse_month, year_move, BookingError, CalendarMove,
    MAX_CALENDAR_MOVES,
};
use paat_core::client::Client;
use paat_core::datetime::Date;
use paat_core::direction::Direction;
use paat_core::engine::{FetchError, Step};
use paat_core::event::{Capacity, CodeWrapper, Event, WaitForSpot};
use paat_core::event_map::EventMap;
use paat_core::feed::{ApiClient, ApiEvent};
use paat_core::messages::{ComponentId, Message};
use paat_core::registry::{Loader, TrackingListElement, TrackingRegistry};

const START: &str = "2024-06-01T10:30:00.000000+0300";
const END: &str = "2024-06-01T12:00:00.000000+0300";

fn sailing(uuid: &str, small_vehicles: i32) -> Event {
    Event {
        uuid: uuid.to_string(),
        capacities: Capacity { passengers: 1, bc: 1, small_vehicles, large_vehicles: 1, dc: 1 },
        price_list: CodeWrapper { code: "P".to_string() },
        transportation_type: CodeWrapper { code: "T".to_string() },
        ship: CodeWrapper { code: "S".to_string() },
        status: "OK".to_string(),
        start: START.to_string(),
        end: END.to_string(),
    }
}

fn day() -> Date {
    Date::from_ymd(2024, 6, 1).unwrap()
}

fn element(uuid: &str) -> TrackingListElement {
    TrackingListElement::try_new(Some(Direction::HR), Some(day()), &sailing(uuid, 0)).unwrap()
}

fn fetched(uuid: &str, small_vehicles: i32) -> Result<EventMap, FetchError> {
    Ok(EventMap::from_items(vec![sailing(uuid, small_vehicles)]))
}

fn refused() -> Result<EventMap, FetchError> {
    Client::events_from_answer(Err("connection refused".to_string()))
}

fn registry_of(ids: &[&str]) -> TrackingRegistry {
    let mut registry = TrackingRegistry::new();
    for id in ids {
        assert!(registry.track(element(id), day(), 30));
    }
    registry
}

fn spots(registry: &TrackingRegistry) -> Vec<(String, Option<usize>)> {
    registry
        .elements()
        .into_iter()
        .map(|line| (line.event_uuid, line.free_spots))
        .collect()
}

#[test]
fn a_line_of_the_list_starts_empty() {
    let line = TrackingListElement::new(Some(Direction::KV), Some(day()), &sailing("abc", 4));
    assert_eq!(line.direction, Direction::KV);
    assert_eq!(line.date, "2024-06-01");
    assert_eq!(line.time.chars().count(), 13);
    assert_eq!(&line.time[5..8], " - ");
    assert_eq!(line.counter, 0);
    assert_eq!(line.event_uuid, "abc");
    assert_eq!(line.free_spots, None);
}

#[test]
fn a_line_of_the_list_needs_line_day_and_timestamps() {
    let event = sailing("abc", 0);
    assert!(TrackingListElement::try_new(Some(Direction::HR), Some(day()), &event).is_some());
    assert!(TrackingListElement::try_new(None, Some(day()), &event).is_none());
    assert!(TrackingListElement::try_new(Some(Direction::HR), None, &event).is_none());
    let no_day = Date { year: 2023, month: 2, day: 30 };
    assert!(TrackingListElement::try_new(Some(Direction::HR), Some(no_day), &event).is_none());
    let mut bad = sailing("abc", 0);
    bad.start = "soon".to_string();
    assert!(TrackingListElement::try_new(Some(Direction::HR), Some(day()), &bad).is_none());
}

#[test]
fn a_sailing_is_tracked_once() {
    let mut registry = TrackingRegistry::new();
    assert_eq!(registry.len(), 0);
    assert!(!registry.contains("a"));
    assert!(registry.track(element("a"), day(), 30));
    assert!(registry.contains("a"));
    assert!(registry.track(element("b"), day(), 30));
    assert!(!registry.track(element("a"), day(), 30));
    assert_eq!(registry.len(), 2);
    assert_eq!(registry.get_event_ids(), vec!["a", "b"]);
}

#[test]
fn tracking_again_does_not_restart_the_engine() {
    let mut registry = registry_of(&["a"]);
    assert_eq!(registry.next_step("a"), Step::Fetch { delay_seconds: 0 });
    assert!(!registry.track(element("a"), day(), 5));
    assert_eq!(registry.next_step("a"), Step::Fetch { delay_seconds: 30 });
}

#[test]
fn each_engine_keeps_its_own_pace() {
    let mut registry = TrackingRegistry::new();
    registry.track(element("a"), day(), 10);
    registry.track(element("b"), day(), 20);
    assert_eq!(registry.next_step("a"), Step::Fetch { delay_seconds: 0 });
    assert_eq!(registry.next_step("a"), Step::Fetch { delay_seconds: 10 });
    assert_eq!(registry.next_step("b"), Step::Fetch { delay_seconds: 0 });
    assert_eq!(registry.next_step("b"), Step::Fetch { delay_seconds: 20 });
    assert_eq!(registry.next_step("c"), Step::Stop);
}

#[test]
fn found_places_are_shown_on_the_line_of_the_sailing() {
    let mut registry = registry_of(&["a", "b"]);
    assert!(matches!(registry.on_fetch("a", fetched("a", 0)), Some(Ok(WaitForSpot::Waiting))));
    assert_eq!(spots(&registry), vec![("a".to_string(), None), ("b".to_string(), None)]);
    assert!(matches!(registry.on_fetch("a", fetched("a", 3)), Some(Ok(WaitForSpot::Done(3)))));
    assert_eq!(spots(&registry), vec![("a".to_string(), Some(3)), ("b".to_string(), None)]);
    assert_eq!(registry.next_step("a"), Step::Stop);
    assert!(registry.on_fetch("a", fetched("a", 9)).is_none());
    assert_eq!(spots(&registry), vec![("a".to_string(), Some(3)), ("b".to_string(), None)]);
}

#[test]
fn a_failed_engine_leaves_the_other_engines_alone() {
    let mut registry = registry_of(&["a", "b"]);
    assert_eq!(registry.next_step("a"), Step::Fetch { delay_seconds: 0 });
    assert_eq!(registry.next_step("b"), Step::Fetch { delay_seconds: 0 });
    match registry.on_fetch("a", refused()) {
        Some(Err(failure)) => assert_eq!(failure.cause, "connection refused"),
        other => panic!("{:?}", other),
    }
    assert_eq!(registry.next_step("a"), Step::Stop);
    assert!(registry.on_fetch("a", fetched("a", 5)).is_none());
    assert_eq!(registry.next_step("b"), Step::Fetch { delay_seconds: 30 });
    assert!(matches!(registry.on_fetch("b", fetched("b", 0)), Some(Ok(WaitForSpot::Waiting))));
    assert_eq!(registry.next_step("b"), Step::Fetch { delay_seconds: 30 });
    assert!(matches!(registry.on_fetch("b", fetched("b", 2)), Some(Ok(WaitForSpot::Done(2)))));
    assert_eq!(spots(&registry), vec![("a".to_string(), None), ("b".to_string(), Some(2))]);
}

#[test]
fn a_fetch_for_one_sailing_says_nothing_of_another() {
    let mut registry = registry_of(&["a", "b"]);
    assert!(matches!(registry.on_fetch("a", fetched("b", 8)), Some(Ok(WaitForSpot::Waiting))));
    assert_eq!(spots(&registry), vec![("a".to_string(), None), ("b".to_string(), None)]);
    assert!(registry.on_fetch("unknown", fetched("a", 8)).is_none());
    assert_eq!(spots(&registry), vec![("a".to_string(), None), ("b".to_string(), None)]);
}

#[test]
fn ticks_are_counted_on_every_line() {
    let mut registry = registry_of(&["a", "b"]);
    registry.tick();
    registry.tick();
    registry.track(element("c"), day(), 30);
    registry.tick();
    let counters: Vec<usize> = registry.elements().iter().map(|line| line.counter).collect();
    assert_eq!(counters, vec![3, 3, 1]);
}

#[test]
fn a_counter_starts_over_before_it_overflows() {
    let mut registry = TrackingRegistry::new();
    let mut full = element("a");
    full.counter = usize::MAX;
    let mut almost = element("b");
    almost.counter = usize::MAX - 1;
    registry.track(full, day(), 30);
    registry.track(almost, day(), 30);
    registry.tick();
    let counters: Vec<usize> = registry.elements().iter().map(|line| line.counter).collect();
    assert_eq!(counters, vec![1, usize::MAX]);
}

#[test]
fn tracking_never_starts_with_places_found() {
    let mut registry = TrackingRegistry::new();
    let mut line = element("a");
    line.free_spots = Some(4);
    registry.track(line, day(), 30);
    assert_eq!(spots(&registry), vec![("a".to_string(), None)]);
}

fn mixed_registry() -> TrackingRegistry {
    let mut registry = registry_of(&["a", "b", "c", "d"]);
    registry.on_fetch("b", fetched("b", 2));
    registry.on_fetch("d", fetched("d", 1));
    registry.on_fetch("c", refused());
    registry
}

#[test]
fn clearing_all_empties_the_list_and_ends_the_engines() {
    let mut registry = mixed_registry();
    registry.clear_all();
    assert_eq!(registry.len(), 0);
    for id in ["a", "b", "c", "d"] {
        assert_eq!(registry.next_step(id), Step::Stop);
        assert!(registry.on_fetch(id, fetched(id, 5)).is_none());
    }
}

#[test]
fn clearing_the_finished_keeps_the_others_in_order() {
    let mut registry = mixed_registry();
    registry.clear_finished();
    assert_eq!(registry.get_event_ids(), vec!["a", "c"]);
    assert_eq!(registry.next_step("a"), Step::Fetch { delay_seconds: 0 });
    assert!(matches!(registry.on_fetch("a", fetched("a", 0)), Some(Ok(WaitForSpot::Waiting))));
    assert_eq!(registry.next_step("b"), Step::Stop);
}

#[test]
fn clearing_the_unfinished_ends_their_engines() {
    let mut registry = mixed_registry();
    registry.clear_unfinished();
    assert_eq!(spots(&registry), vec![("b".to_string(), Some(2)), ("d".to_string(), Some(1))]);
    assert_eq!(registry.next_step("a"), Step::Stop);
    assert!(registry.on_fetch("a", fetched("a", 5)).is_none());
    assert!(registry.on_fetch("c", fetched("c", 5)).is_none());
    assert_eq!(registry.len(), 2);
}

#[test]
fn clearing_twice_changes_nothing_more() {
    let mut registry = mixed_registry();
    registry.clear_finished();
    registry.clear_finished();
    assert_eq!(registry.get_event_ids(), vec!["a", "c"]);
    registry.clear_unfinished();
    assert_eq!(registry.len(), 0);
    registry.clear_unfinished();
    assert_eq!(registry.len(), 0);
}

#[test]
fn a_cleared_sailing_can_be_tracked_anew() {
    let mut registry = mixed_registry();
    registry.clear_finished();
    assert!(registry.track(element("b"), day(), 30));
    assert_eq!(registry.next_step("b"), Step::Fetch { delay_seconds: 0 });
    assert_eq!(spots(&registry).last().unwrap(), &("b".to_string(), None));
}

#[test]
fn the_feed_hands_out_the_sailings_once_and_then_the_results() {
    let events = EventMap::from_items(vec![sailing("a", 0), sailing("b", 0)]);
    let mut feed = ApiClient::new(day(), Direction::HR, events);
    feed.push_result("a".to_string(), WaitForSpot::Waiting);
    match feed.poll() {
        Some(ApiEvent::FetchedEvents(events)) => {
            assert_eq!(events.len(), 2);
            assert!(events.contains_key("a") && events.contains_key("b"));
        }
        other => panic!("{:?}", other),
    }
    match feed.poll() {
        Some(ApiEvent::WaitResult(result)) => {
            assert_eq!(result, ("a".to_string(), WaitForSpot::Waiting))
        }
        other => panic!("{:?}", other),
    }
    assert!(feed.poll().is_none());
    assert!(feed.poll().is_none());
}

#[test]
fn of_the_pending_results_of_one_sailing_the_newest_is_kept() {
    let mut feed = ApiClient::new(day(), Direction::HR, EventMap::new());
    assert!(matches!(feed.poll(), Some(ApiEvent::FetchedEvents(_))));
    feed.push_result("a".to_string(), WaitForSpot::Waiting);
    feed.push_result("b".to_string(), WaitForSpot::Waiting);
    feed.push_result("a".to_string(), WaitForSpot::Done(3));
    feed.push_result("c".to_string(), WaitForSpot::Done(1));
    feed.push_result("b".to_string(), WaitForSpot::Waiting);
    let mut taken = Vec::new();
    while let Some(ApiEvent::WaitResult(result)) = feed.poll() {
        taken.push(result);
    }
    assert_eq!(
        taken,
        vec![
            ("a".to_string(), WaitForSpot::Done(3)),
            ("b".to_string(), WaitForSpot::Waiting),
            ("c".to_string(), WaitForSpot::Done(1)),
        ]
    );
}

#[test]
fn the_last_sailing_with_the_identifier_is_found() {
    let request = WaitRequest("b".to_string());
    let found = request
        .find_matching_event(vec![sailing("a", 1), sailing("b", 2), sailing("b", 3)])
        .unwrap();
    assert_eq!(found.uuid, "b");
    assert_eq!(found.capacities.small_vehicles, 3);
    let alone = request
        .find_matching_event(vec![sailing("b", 7), sailing("a", 1), sailing("c", 2)])
        .unwrap();
    assert_eq!(alone.capacities.small_vehicles, 7);
    assert!(request.find_matching_event(vec![sailing("a", 1), sailing("c", 2)]).is_none());
    assert!(request.find_matching_event(vec![]).is_none());
}

#[test]
fn the_menu_of_lines_has_one_item_for_each_line() {
    let hr = desired_direction_to_selector(&Direction::HR);
    assert!(hr.starts_with("body > app-root > app-ticket-purchase"));
    assert!(hr.contains("div.container.relative.pt-8.pb-5.xl\\:pb-8"));
    assert!(hr.ends_with("app-ticket-route-picker > div > div:nth-child(2) > div > a"));
    assert!(desired_direction_to_selector(&Direction::RH).ends_with(" > div:nth-child(3) > div > a"));
    assert!(desired_direction_to_selector(&Direction::KV).ends_with(" > div:nth-child(4) > div > a"));
    assert!(desired_direction_to_selector(&Direction::VK).ends_with(" > div:nth-child(5) > div > a"));
}

#[test]
fn the_page_of_a_booking_has_its_address() {
    assert_eq!(
        booking_url("1234"),
        "https://www.praamid.ee/portal/ticket/checkout/success;bookingUid=1234;lang=et"
    );
    assert_eq!(
        booking_url(""),
        "https://www.praamid.ee/portal/ticket/checkout/success;bookingUid=;lang=et"
    );
}

#[test]
fn months_are_read_by_their_estonian_names() {
    let names = [
        "jaanuar", "veebruar", "märts", "aprill", "mai", "juuni", "juuli", "august", "september",
        "oktoober", "november", "detsember",
    ];
    for (index, name) in names.iter().enumerate() {
        assert_eq!(parse_month(Some(name.to_string())), Some(index as u32 + 1));
        assert_eq!(parse_month(Some(name.to_uppercase())), Some(index as u32 + 1));
    }
    assert_eq!(parse_month(Some("Märts".to_string())), Some(3));
    assert_eq!(parse_month(Some("march".to_string())), None);
    assert_eq!(parse_month(Some(String::new())), None);
    assert_eq!(parse_month(Some(" mai".to_string())), None);
    assert_eq!(parse_month(None), None);
}

#[test]
fn the_calendar_is_moved_until_it_shows_the_year() {
    assert_eq!(year_move("2024", 2024), Ok(CalendarMove::Arrived));
    assert_eq!(year_move("2023", 2024), Ok(CalendarMove::Next));
    assert_eq!(year_move("2025", 2024), Ok(CalendarMove::Next));
    assert_eq!(year_move("+2024", 2024), Ok(CalendarMove::Arrived));
    assert_eq!(year_move("-1", -1), Ok(CalendarMove::Arrived));
    assert_eq!(year_move("", 2024), Err(BookingError::UnreadableYear));
    assert_eq!(year_move(" 2024", 2024), Err(BookingError::UnreadableYear));
    assert_eq!(year_move("MMXXIV", 2024), Err(BookingError::UnreadableYear));
    assert_eq!(year_move("99999999999", 2024), Err(BookingError::UnreadableYear));
}

#[test]
fn the_calendar_is_moved_until_it_shows_the_month() {
    assert_eq!(month_move(Some("Juuni".to_string()), 6), Ok(CalendarMove::Arrived));
    assert_eq!(month_move(Some("mai".to_string()), 6), Ok(CalendarMove::Next));
    assert_eq!(month_move(Some("DETSEMBER".to_string()), 12), Ok(CalendarMove::Arrived));
    assert_eq!(month_move(Some("june".to_string()), 6), Err(BookingError::UnreadableMonth));
    assert_eq!(month_move(None, 6), Err(BookingError::UnreadableMonth));
}

#[test]
fn the_calendar_is_not_moved_forever() {
    assert_eq!(MAX_CALENDAR_MOVES, 120);
    assert!(may_move_on(0));
    assert!(may_move_on(120));
    assert!(!may_move_on(121));
    assert!(!may_move_on(u32::MAX));
}

#[test]
fn the_cell_of_the_day_is_found_by_its_number() {
    assert_eq!(is_booking_day("1", 1), Ok(true));
    assert_eq!(is_booking_day(" 1\n", 1), Ok(true));
    assert_eq!(is_booking_day("\t31 ", 31), Ok(true));
    assert_eq!(is_booking_day("01", 1), Ok(true));
    assert_eq!(is_booking_day("11", 1), Ok(false));
    assert_eq!(is_booking_day("", 1), Err(BookingError::UnreadableDay));
    assert_eq!(is_booking_day("  ", 1), Err(BookingError::UnreadableDay));
    assert_eq!(is_booking_day("1 1", 1), Err(BookingError::UnreadableDay));
    assert_eq!(is_booking_day("-1", 1), Err(BookingError::UnreadableDay));
    assert_eq!(is_booking_day("first", 1), Err(BookingError::UnreadableDay));
}

#[test]
fn the_row_of_the_sailing_is_found_by_its_departure_time() {
    assert!(is_departure_row("10:30 - 12:00", "10:30"));
    assert!(is_departure_row("10:30 - 12:00", "  10:30\n"));
    assert!(is_departure_row("10:30 - 12:00", ""));
    assert!(is_departure_row("10:30 - 12:00", "10:30 - 12:00"));
    assert!(!is_departure_row("10:30 - 12:00", "12:00"));
    assert!(!is_departure_row("10:30 - 12:00", "10:31"));
    assert!(!is_departure_row("10:30", "10:30 - 12:00"));
    assert!(!is_departure_row("", "10:30"));
}

#[test]
fn a_day_before_today_is_not_booked() {
    let today = Date::from_ymd(2024, 6, 15).unwrap();
    for (year, month, day) in [(2024, 6, 14), (2024, 5, 31), (2023, 12, 31), (2023, 7, 20)] {
        let past = Date::from_ymd(year, month, day).unwrap();
        assert_eq!(check_not_past(&past, &today), Err(BookingError::PastDate));
    }
    for (year, month, day) in [(2024, 6, 15), (2024, 6, 16), (2024, 7, 1), (2025, 1, 1)] {
        let coming = Date::from_ymd(year, month, day).unwrap();
        assert_eq!(check_not_past(&coming, &today), Ok(()));
    }
}

#[test]
fn every_failure_of_a_booking_says_what_failed() {
    assert_eq!(BookingError::PastDate.message(), "Cannot book into past");
    assert_eq!(BookingError::YearNotReached.message(), "Failed to move to desired year");
    assert_eq!(BookingError::MonthNotReached.message(), "Failed to move to desired month");
    assert_eq!(BookingError::UnreadableYear.message(), "Failed to parse year from text");
    assert_eq!(BookingError::UnreadableMonth.message(), "Failed to parse month from text");
    assert_eq!(BookingError::UnreadableDay.message(), "Failed to parse date from text");
}

#[test]
fn a_typed_booking_is_taken_without_the_white_space_around_it() {
    assert_eq!(booking_id_from_input("1234"), Some("1234".to_string()));
    assert_eq!(booking_id_from_input("  12 34\n"), Some("12 34".to_string()));
    assert_eq!(booking_id_from_input(""), None);
    assert_eq!(booking_id_from_input(" \t\n"), None);
}

#[test]
fn the_end_of_a_line_shows_places_or_an_animation() {
    let mut line = element("a");
    let mut shown = Vec::new();
    for counter in 0..12 {
        line.counter = counter;
        shown.push(line.loader());
    }
    let mut expected = vec![Loader::Covered; 6];
    expected.extend(vec![Loader::Listening; 4]);
    expected.extend(vec![Loader::Covered; 2]);
    assert_eq!(shown, expected);
    line.free_spots = Some(3);
    assert_eq!(line.loader(), Loader::Spots(3));
    line.free_spots = Some(0);
    line.counter = 7;
    assert_eq!(line.loader(), Loader::Spots(0));
}

#[test]
fn looking_up_in_the_list_agrees_with_the_keyed_list() {
    let list = || {
        vec![sailing("a", 1), sailing("b", 2), sailing("a", 3), sailing("c", 4), sailing("b", 5)]
    };
    let keyed = EventMap::from_items(list());
    for id in ["a", "b", "c", "d"] {
        let found = WaitRequest(id.to_string()).find_matching_event(list());
        assert_eq!(found.as_ref(), keyed.get(id));
    }
}

#[test]
fn letter_keys_stand_for_commands() {
    assert_eq!(Message::from_key('c'), Some(Message::BackToCalendar));
    assert_eq!(Message::from_key('h'), Some(Message::ClearFinished));
    assert_eq!(Message::from_key('l'), Some(Message::ClearAll));
    assert_eq!(Message::from_key('s'), Some(Message::ClearUnfinished));
    assert_eq!(Message::from_key('f'), Some(Message::KillTheAlarm));
    for key in ['C', 'x', ' ', '1', 'õ'] {
        assert_eq!(Message::from_key(key), None);
    }
    assert_ne!(ComponentId::SelectFerry, ComponentId::SelectLine);
}
