use paat_core::constants::{LINES, TIMEOUT_BETWEEN_REQUESTS};
use paat_core::datetime::{
    CalendarStep, day_second, get_instant, get_local_datetime, local_datetime_to_time_string, leap_year,
    month_length, get_naive_date, get_naive_date_from_output_format, naive_date_to_input_string,
    naive_date_to_output_string, service_datetime_to_local_time_string, Date, TimeFormatError,
};
use paat_core::direction::{Direction, UnknownRoute};
use paat_core::event::{join_time_range, time_range_at, Capacity, CodeWrapper, Event};
use paat_core::event_map::{shown_before, EventMap, NoFerryTimes};
use paat_core::text::{starts_with, str_eq, str_le};

fn code(text: &str) -> CodeWrapper {
    CodeWrapper { code: text.to_string() }
}

fn sailing(uuid: &str, small_vehicles: i32, start: &str, end: &str) -> Event {
    Event {
        uuid: uuid.to_string(),
        capacities: Capacity {
            passengers: 100,
            bc: 5,
            small_vehicles,
            large_vehicles: 2,
            dc: 1,
        },
        price_list: code("PL"),
        transportation_type: code("RP"),
        ship: code("LEIGER"),
        status: "CONFIRMED".to_string(),
        start: start.to_string(),
        end: end.to_string(),
    }
}

#[test]
fn route_parser_rejects_unknown_abbreviation() {
    assert_eq!(Direction::from_abbreviation("ZZ"), Err(UnknownRoute));
}

#[test]
fn route_parser_rejects_near_misses() {
    for text in ["", "H", "hr", "HR ", " HR", "HRR", "Heltermaa - Rohuküla"] {
        assert_eq!(Direction::from_abbreviation(text), Err(UnknownRoute), "{:?}", text);
    }
}

#[test]
fn abbreviations_are_the_codes_of_the_service() {
    assert_eq!(Direction::HR.abbreviation(), "HR");
    assert_eq!(Direction::RH.abbreviation(), "RH");
    assert_eq!(Direction::KV.abbreviation(), "KV");
    assert_eq!(Direction::VK.abbreviation(), "VK");
}

#[test]
fn abbreviations_round_trip() {
    for line in [Direction::HR, Direction::RH, Direction::KV, Direction::VK] {
        assert_eq!(Direction::from_abbreviation(line.abbreviation()), Ok(line));
    }
}

#[test]
fn labels_round_trip() {
    for line in [Direction::HR, Direction::RH, Direction::KV, Direction::VK] {
        assert_eq!(Direction::from_str(line.label()), Ok(line));
        assert_eq!(Direction::from_str(&line.to_string()), Ok(line));
    }
    assert_eq!(Direction::HR.to_string(), "Heltermaa - Rohuküla");
    assert_eq!(Direction::VK.label(), "Virtsu - Kuivastu");
}

#[test]
fn labels_are_no_abbreviations() {
    assert_eq!(Direction::from_str("HR"), Err(UnknownRoute));
    assert_eq!(Direction::from_str("Heltermaa - Rohukula"), Err(UnknownRoute));
}

#[test]
fn lines_are_found_by_menu_position() {
    assert_eq!(Direction::get_line_by_index(0), Some(Direction::HR));
    assert_eq!(Direction::get_line_by_index(1), Some(Direction::RH));
    assert_eq!(Direction::get_line_by_index(2), Some(Direction::KV));
    assert_eq!(Direction::get_line_by_index(3), Some(Direction::VK));
    assert_eq!(Direction::get_line_by_index(4), None);
    assert_eq!(Direction::get_line_by_index(usize::MAX), None);
}

#[test]
fn menu_positions_agree_with_the_labels() {
    for (index, label) in LINES.iter().enumerate() {
        let line = Direction::get_line_by_index(index).unwrap();
        assert_eq!(line.label(), *label);
        assert_eq!(Direction::from_str(label), Ok(line));
    }
}

#[test]
fn default_line_and_default_pause() {
    assert_eq!(Direction::default(), Direction::HR);
    assert_eq!(TIMEOUT_BETWEEN_REQUESTS, 30);
}

#[test]
fn strings_compare_by_characters() {
    assert!(str_eq("", ""));
    assert!(str_eq("abc", "abc"));
    assert!(!str_eq("abc", "abd"));
    assert!(!str_eq("abc", "ab"));
    assert!(str_le("", ""));
    assert!(str_le("", "a"));
    assert!(!str_le("a", ""));
    assert!(str_le("ab", "abc"));
    assert!(!str_le("abc", "ab"));
    assert!(str_le("abc", "abd"));
    assert!(!str_le("abd", "abc"));
    assert!(str_le("Z", "a"));
    assert!(str_le("z", "ä"));
    assert!(str_le("same", "same"));
}

#[test]
fn string_order_agrees_with_the_standard_order() {
    let texts = ["", "a", "ab", "b", "ä", "õ", "2024-06-01T10:00", "2024-06-01T09:00", "A"];
    for left in texts {
        for right in texts {
            assert_eq!(str_le(left, right), left <= right, "{:?} {:?}", left, right);
        }
    }
}

#[test]
fn dates_exist_or_not() {
    assert_eq!(Date::from_ymd(2024, 6, 1), Some(Date { year: 2024, month: 6, day: 1 }));
    assert_eq!(Date::from_ymd(2024, 2, 29), Some(Date { year: 2024, month: 2, day: 29 }));
    assert_eq!(Date::from_ymd(2023, 2, 29), None);
    assert_eq!(Date::from_ymd(1900, 2, 29), None);
    assert_eq!(Date::from_ymd(2000, 2, 29), Some(Date { year: 2000, month: 2, day: 29 }));
    assert_eq!(Date::from_ymd(2023, 4, 31), None);
    assert_eq!(Date::from_ymd(2023, 0, 1), None);
    assert_eq!(Date::from_ymd(2023, 13, 1), None);
    assert_eq!(Date::from_ymd(2023, 1, 0), None);
    assert_eq!(Date::from_ymd(2023, 12, 31), Some(Date { year: 2023, month: 12, day: 31 }));
    assert_eq!(Date::from_ymd(-4, 2, 29), Some(Date { year: -4, month: 2, day: 29 }));
    assert_eq!(Date::from_ymd(400000, 1, 1), None);
    assert_eq!(Date::from_ymd(-400000, 1, 1), None);
    assert!(Date::from_ymd(262142, 12, 31).is_some());
    assert!(Date::from_ymd(262143, 1, 1).is_none());
    assert!(Date::from_ymd(-262143, 1, 1).is_some());
    assert!(Date::from_ymd(-262144, 12, 31).is_none());
}

#[test]
fn dates_are_read_day_first() {
    assert_eq!(get_naive_date("01.06.2024"), Ok(Date { year: 2024, month: 6, day: 1 }));
    assert_eq!(get_naive_date("29.02.2024"), Ok(Date { year: 2024, month: 2, day: 29 }));
    assert_eq!(get_naive_date("29.02.2023"), Err(TimeFormatError));
    assert_eq!(get_naive_date("2024-06-01"), Err(TimeFormatError));
    assert_eq!(get_naive_date(""), Err(TimeFormatError));
    assert_eq!(get_naive_date("tomorrow"), Err(TimeFormatError));
}

#[test]
fn dates_are_read_year_first() {
    assert_eq!(
        get_naive_date_from_output_format("2024-06-01"),
        Ok(Date { year: 2024, month: 6, day: 1 })
    );
    assert_eq!(get_naive_date_from_output_format("01.06.2024"), Err(TimeFormatError));
    assert_eq!(get_naive_date_from_output_format("2024-13-01"), Err(TimeFormatError));
}

#[test]
fn dates_are_written_in_both_forms() {
    let day = Date::from_ymd(2024, 6, 1).unwrap();
    assert_eq!(naive_date_to_output_string(&day), "2024-06-01");
    assert_eq!(naive_date_to_input_string(&day), "01.06.2024");
    let late = Date::from_ymd(1999, 12, 31).unwrap();
    assert_eq!(naive_date_to_output_string(&late), "1999-12-31");
    assert_eq!(naive_date_to_input_string(&late), "31.12.1999");
}

#[test]
fn written_dates_are_read_back() {
    for (year, month, day) in [(2024, 6, 1), (2024, 2, 29), (1970, 1, 1), (2038, 12, 31)] {
        let date = Date::from_ymd(year, month, day).unwrap();
        assert_eq!(get_naive_date(&naive_date_to_input_string(&date)), Ok(date));
        assert_eq!(
            get_naive_date_from_output_format(&naive_date_to_output_string(&date)),
            Ok(date)
        );
    }
}

fn assert_clock(text: &str) {
    let symbols: Vec<char> = text.chars().collect();
    assert_eq!(symbols.len(), 5, "{:?}", text);
    assert!(('0'..='2').contains(&symbols[0]), "{:?}", text);
    assert!(symbols[1].is_ascii_digit(), "{:?}", text);
    assert_eq!(symbols[2], ':');
    assert!(('0'..='5').contains(&symbols[3]), "{:?}", text);
    assert!(symbols[4].is_ascii_digit(), "{:?}", text);
}

#[test]
fn service_timestamps_give_a_time_of_day() {
    let text = service_datetime_to_local_time_string("2024-06-01T10:30:00.000000+0300").unwrap();
    assert_clock(&text);
    assert_ne!(text, "2024-06-01T10:30:00.000000+0300");
    let other = service_datetime_to_local_time_string("2024-06-01T11:45:00.000000+0300").unwrap();
    assert_clock(&other);
    assert_eq!(&text[3..], "30");
    assert_eq!(&other[3..], "45");
}

#[test]
fn malformed_timestamps_are_rejected() {
    for text in ["", "10:30", "2024-06-01", "2024-06-01T10:30:00", "2024-06-01 10:30:00+0300"] {
        assert!(service_datetime_to_local_time_string(text).is_err(), "{:?}", text);
    }
}

#[test]
fn time_ranges_are_joined_with_a_dash() {
    assert_eq!(join_time_range("10:30", "12:00"), "10:30 - 12:00");
    assert_eq!(join_time_range("", ""), " - ");
}

#[test]
fn a_sailing_shows_its_time_range() {
    let event = sailing(
        "abc",
        0,
        "2024-06-01T10:30:00.000000+0300",
        "2024-06-01T12:00:00.000000+0300",
    );
    let range = event.time_range().unwrap();
    assert_eq!(range.chars().count(), 13);
    assert_clock(&range[..5]);
    assert_eq!(&range[5..8], " - ");
    assert_clock(&range[8..]);
}

#[test]
fn a_sailing_with_a_malformed_timestamp_shows_no_time_range() {
    let bad_start = sailing("abc", 0, "soon", "2024-06-01T12:00:00.000000+0300");
    assert_eq!(bad_start.time_range(), Err(TimeFormatError));
    let bad_end = sailing("abc", 0, "2024-06-01T10:30:00.000000+0300", "later");
    assert_eq!(bad_end.time_range(), Err(TimeFormatError));
    let both = sailing("abc", 0, "", "");
    assert_eq!(both.time_range(), Err(TimeFormatError));
}

#[test]
fn an_empty_collection_holds_nothing() {
    let map = EventMap::new();
    assert_eq!(map.len(), 0);
    assert!(map.is_empty());
    assert!(map.get("abc").is_none());
    assert!(!map.contains_key("abc"));
    assert!(map.values().is_empty());
    assert!(map.sorted_by_start().is_empty());
}

#[test]
fn inserting_replaces_the_sailing_with_the_same_identifier() {
    let mut map = EventMap::new();
    map.insert(sailing("abc", 0, "s1", "e1"));
    map.insert(sailing("def", 4, "s2", "e2"));
    assert_eq!(map.len(), 2);
    map.insert(sailing("abc", 7, "s3", "e3"));
    assert_eq!(map.len(), 2);
    let kept = map.get("abc").unwrap();
    assert_eq!(kept.capacities.small_vehicles, 7);
    assert_eq!(kept.start, "s3");
    assert_eq!(map.get("def").unwrap().capacities.small_vehicles, 4);
    assert!(map.get("ghi").is_none());
    assert!(!map.is_empty());
}

#[test]
fn keying_keeps_the_later_of_two_sailings_with_one_identifier() {
    let items = vec![
        sailing("abc", 1, "first", "e"),
        sailing("def", 2, "other", "e"),
        sailing("abc", 3, "second", "e"),
    ];
    let map = EventMap::from_items(items);
    assert_eq!(map.len(), 2);
    let kept = map.get("abc").unwrap();
    assert_eq!(kept.capacities.small_vehicles, 3);
    assert_eq!(kept.start, "second");
    let ids: Vec<&str> = map.values().iter().map(|event| event.uuid.as_str()).collect();
    assert_eq!(ids.iter().filter(|id| **id == "abc").count(), 1);
}

#[test]
fn keying_the_same_items_twice_gives_equal_collections() {
    let items = || {
        vec![sailing("b", 1, "t2", "e"), sailing("a", 0, "t1", "e"), sailing("c", 5, "t3", "e")]
    };
    let first = EventMap::from_items(items());
    let second = EventMap::from_items(items());
    assert_eq!(first.len(), second.len());
    for event in first.values() {
        let twin = second.get(&event.uuid).unwrap();
        assert_eq!(twin.capacities, event.capacities);
        assert_eq!(twin.start, event.start);
        assert_eq!(twin.end, event.end);
        assert_eq!(twin.status, event.status);
    }
}

#[test]
fn sailings_are_shown_by_start() {
    let map = EventMap::from_items(vec![
        sailing("c", 0, "2024-06-01T18:00:00.000000+0300", "e"),
        sailing("a", 0, "2024-06-01T06:00:00.000000+0300", "e"),
        sailing("d", 0, "2024-06-01T12:00:00.000000+0300", "e"),
        sailing("b", 0, "2024-06-01T12:00:00.000000+0300", "e"),
    ]);
    let shown: Vec<String> = map.sorted_by_start().into_iter().map(|event| event.uuid).collect();
    assert_eq!(shown, vec!["a", "b", "d", "c"]);
}

#[test]
fn the_order_of_showing_is_by_start_then_identifier() {
    let early = sailing("z", 0, "1", "e");
    let late = sailing("a", 0, "2", "e");
    assert!(shown_before(&early, &late));
    assert!(!shown_before(&late, &early));
    let twin = sailing("b", 0, "1", "e");
    assert!(shown_before(&twin, &early));
    assert!(!shown_before(&early, &twin));
    assert!(shown_before(&early, &early));
}

#[test]
fn a_copy_of_a_collection_holds_the_same_sailings() {
    let map = EventMap::from_items(vec![sailing("a", 1, "s", "e"), sailing("b", 2, "t", "f")]);
    let copy = map.clone();
    assert_eq!(copy.len(), 2);
    assert_eq!(copy.get("a").unwrap().capacities.small_vehicles, 1);
    assert_eq!(copy.get("b").unwrap().start, "t");
}

#[test]
fn days_exist_exactly_where_chrono_has_them() {
    for year in [-262144, -262143, -401, -400, -4, -1, 0, 1, 1900, 2000, 2023, 2024, 262142, 262143] {
        for month in 0..14 {
            for day in 0..33 {
                assert_eq!(
                    Date::from_ymd(year, month, day).is_some(),
                    chrono::NaiveDate::from_ymd_opt(year, month, day).is_some(),
                    "{} {} {}",
                    year,
                    month,
                    day
                );
            }
        }
    }
}

#[test]
fn a_text_begins_with_its_fronts() {
    assert!(starts_with("", ""));
    assert!(starts_with("abc", ""));
    assert!(starts_with("abc", "a"));
    assert!(starts_with("abc", "abc"));
    assert!(!starts_with("abc", "abcd"));
    assert!(!starts_with("abc", "b"));
    assert!(!starts_with("", "a"));
    assert!(starts_with("õhtu", "õ"));
    let texts = ["", "a", "ab", "abc", "b", "õ", "õhtu", "10:30 - 12:00", "10:30"];
    for text in texts {
        for front in texts {
            assert_eq!(starts_with(text, front), text.starts_with(front), "{:?} {:?}", text, front);
        }
    }
}

#[test]
fn months_have_their_lengths() {
    let lengths = [31, 28, 31, 30, 31, 30, 31, 31, 30, 31, 30, 31];
    for (index, length) in lengths.iter().enumerate() {
        assert_eq!(month_length(2023, index as u32 + 1), *length);
    }
    assert_eq!(month_length(2024, 2), 29);
    assert_eq!(month_length(1900, 2), 28);
    assert_eq!(month_length(2000, 2), 29);
    assert_eq!(month_length(2024, 0), 0);
    assert_eq!(month_length(2024, 13), 0);
    assert!(leap_year(2024) && leap_year(2000) && leap_year(-4) && leap_year(0));
    assert!(!leap_year(2023) && !leap_year(1900) && !leap_year(-1) && !leap_year(2100));
}

#[test]
fn years_are_written_with_four_digits_or_a_sign() {
    let cases = [
        (0, "0000-01-02", "02.01.0000"),
        (7, "0007-01-02", "02.01.0007"),
        (999, "0999-01-02", "02.01.0999"),
        (9999, "9999-01-02", "02.01.9999"),
        (10000, "+10000-01-02", "02.01.+10000"),
        (262142, "+262142-01-02", "02.01.+262142"),
        (-1, "-0001-01-02", "02.01.-0001"),
        (-45, "-0045-01-02", "02.01.-0045"),
        (-12345, "-12345-01-02", "02.01.-12345"),
        (-262143, "-262143-01-02", "02.01.-262143"),
    ];
    for (year, year_first, day_first) in cases {
        let date = Date::from_ymd(year, 1, 2).unwrap();
        assert_eq!(naive_date_to_output_string(&date), year_first);
        assert_eq!(naive_date_to_input_string(&date), day_first);
    }
    let late = Date::from_ymd(2024, 12, 31).unwrap();
    assert_eq!(naive_date_to_output_string(&late), "2024-12-31");
}

#[test]
fn timestamps_are_read_as_instants() {
    assert_eq!(get_instant("1970-01-01T00:00:00.000000+0000"), Ok(0));
    assert_eq!(get_instant("1970-01-01T03:00:00.000000+0300"), Ok(0));
    assert_eq!(get_instant("2024-06-01T10:30:00.000000+0300"), Ok(1717227000));
    assert_eq!(get_instant("2024-06-01T10:30:00.250000+0300"), Ok(1717227000));
    assert_eq!(get_instant("1969-12-31T23:59:59.000000+0000"), Ok(-1));
    assert_eq!(get_instant("2024-06-01T10:30:00.000000"), Err(TimeFormatError));
    assert_eq!(get_instant("2024-06-01"), Err(TimeFormatError));
    assert_eq!(get_instant(""), Err(TimeFormatError));
}

#[test]
fn the_clocks_of_this_machine_are_within_a_day_of_universal_time() {
    let (instant, offset) = get_local_datetime("2024-06-01T10:30:00.000000+0300").unwrap();
    assert_eq!(instant, 1717227000);
    assert!(-86400 < offset && offset < 86400);
    assert_eq!(
        service_datetime_to_local_time_string("2024-06-01T10:30:00.000000+0300"),
        Ok(local_datetime_to_time_string(instant, offset))
    );
    assert_eq!(get_local_datetime("soon"), Err(TimeFormatError));
}

#[test]
fn the_second_of_the_day_follows_the_offset() {
    assert_eq!(day_second(0, 0), 0);
    assert_eq!(day_second(86399, 0), 86399);
    assert_eq!(day_second(86400, 0), 0);
    assert_eq!(day_second(-1, 0), 86399);
    assert_eq!(day_second(0, 10800), 10800);
    assert_eq!(day_second(0, -3600), 82800);
    assert_eq!(day_second(1717227000, 10800), 37800);
    assert_eq!(day_second(i64::MAX, i32::MAX), ((i64::MAX as i128 + i32::MAX as i128) % 86400) as u32);
    assert_eq!(
        day_second(i64::MIN, i32::MIN),
        (i64::MIN as i128 + i32::MIN as i128).rem_euclid(86400) as u32
    );
}

#[test]
fn an_instant_has_its_time_of_day_on_given_clocks() {
    assert_eq!(local_datetime_to_time_string(0, 0), "00:00");
    assert_eq!(local_datetime_to_time_string(59, 0), "00:00");
    assert_eq!(local_datetime_to_time_string(60, 0), "00:01");
    assert_eq!(local_datetime_to_time_string(-1, 0), "23:59");
    assert_eq!(local_datetime_to_time_string(1717227000, 0), "07:30");
    assert_eq!(local_datetime_to_time_string(1717227000, 10800), "10:30");
    assert_eq!(local_datetime_to_time_string(1717227000, -18000), "02:30");
    assert_eq!(local_datetime_to_time_string(1717227000, 20700), "13:15");
    assert_eq!(local_datetime_to_time_string(1717227000, 59400), "00:00");
}

#[test]
fn a_time_range_names_the_start_before_the_end() {
    assert_eq!(time_range_at(1717227000, 10800, 1717232400, 10800), "10:30 - 12:00");
    assert_eq!(time_range_at(1717232400, 10800, 1717227000, 10800), "12:00 - 10:30");
    assert_eq!(time_range_at(1717227000, 0, 1717232400, 10800), "07:30 - 12:00");
    assert_eq!(time_range_at(0, 0, 0, 0), "00:00 - 00:00");
}

#[test]
fn a_sailing_shows_its_start_before_its_end() {
    let start = "2024-06-01T10:30:00.000000+0300";
    let end = "2024-06-01T12:07:00.000000+0300";
    let event = sailing("abc", 0, start, end);
    let (start_instant, start_offset) = get_local_datetime(start).unwrap();
    let (end_instant, end_offset) = get_local_datetime(end).unwrap();
    assert_eq!(
        event.time_range(),
        Ok(time_range_at(start_instant, start_offset, end_instant, end_offset))
    );
    let range = event.time_range().unwrap();
    assert_eq!(&range[3..5], "30");
    assert_eq!(&range[11..13], "07");
}

#[test]
fn the_calendar_moves_by_a_day_or_a_week() {
    let day = Date::from_ymd(2024, 2, 28).unwrap();
    assert_eq!(day.moved(CalendarStep::Right), Date::from_ymd(2024, 2, 29));
    assert_eq!(day.moved(CalendarStep::Left), Date::from_ymd(2024, 2, 27));
    assert_eq!(day.moved(CalendarStep::Down), Date::from_ymd(2024, 3, 6));
    assert_eq!(day.moved(CalendarStep::Up), Date::from_ymd(2024, 2, 21));
    let new_year = Date::from_ymd(2025, 1, 1).unwrap();
    assert_eq!(new_year.moved(CalendarStep::Left), Date::from_ymd(2024, 12, 31));
    assert_eq!(new_year.moved(CalendarStep::Up), Date::from_ymd(2024, 12, 25));
    assert_eq!(CalendarStep::Left.days(), -1);
    assert_eq!(CalendarStep::Right.days(), 1);
    assert_eq!(CalendarStep::Up.days(), -7);
    assert_eq!(CalendarStep::Down.days(), 7);
}

#[test]
fn the_calendar_ends_where_the_dates_end() {
    let last = Date::from_ymd(262142, 12, 31).unwrap();
    assert_eq!(last.moved(CalendarStep::Right), None);
    assert_eq!(last.moved(CalendarStep::Down), None);
    assert_eq!(last.moved(CalendarStep::Left), Date::from_ymd(262142, 12, 30));
    let first = Date::from_ymd(-262143, 1, 1).unwrap();
    assert_eq!(first.moved(CalendarStep::Left), None);
    assert_eq!(first.moved(CalendarStep::Up), None);
    assert_eq!(first.moved(CalendarStep::Right), Date::from_ymd(-262143, 1, 2));
}

#[test]
fn without_sailings_there_is_nothing_to_choose_from() {
    assert_eq!(EventMap::new().choices(), Err(NoFerryTimes));
    assert_eq!(NoFerryTimes.message(), "No ferry times found for that date");
    let map = EventMap::from_items(vec![sailing("b", 0, "t2", "e"), sailing("a", 0, "t1", "e")]);
    let ids: Vec<String> = map.choices().unwrap().into_iter().map(|event| event.uuid).collect();
    assert_eq!(ids, vec!["a", "b"]);
}
