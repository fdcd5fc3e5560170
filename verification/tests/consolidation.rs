use rail_gtfs::calendar::calendar_signature;
use rail_gtfs::calendar::service_id;
use rail_gtfs::calendar::CalendarRegistry;
use rail_gtfs::calendar::CalendarSignature;
use rail_gtfs::feed::parse_mca;
use rail_gtfs::feed::Feed;
use rail_gtfs::operator::OperatorTable;
use rail_gtfs::schedule::StopEvent;
use rail_gtfs::schedule::TripState;
use rail_gtfs::station::Position;
use rail_gtfs::station::Station;
use rail_gtfs::station::StationTable;
use rail_gtfs::trips::TripRegistry;
use rail_gtfs::trips::TripServiceSignature;
use rail_gtfs::trips::TripSignature;

fn known_stations() -> StationTable {
    let mut table = StationTable::new();
    for (tiploc, name) in [
        ("EUSTON", "LONDON EUSTON"),
        ("HROW", "HARROW & WEALDSTONE"),
        ("WATFDJ", "WATFORD JUNCTION"),
        ("CREWE", "CREWE"),
    ] {
        table.insert(
            tiploc.to_string(),
            Station {
                tiploc: tiploc.to_string(),
                name: name.to_string(),
                position: Position::Grid { easting: 0, northing: 0 },
            },
        );
    }
    table
}

fn stop(id: &str, arrival: &str, departure: &str) -> StopEvent {
    StopEvent {
        stop_id: id.to_string(),
        arrival_time: arrival.to_string(),
        departure_time: departure.to_string(),
    }
}

fn trip(uid: &str, start: &str, days: &str, stp: &str, operator: &str, stops: Vec<StopEvent>) -> TripState {
    TripState {
        uid: uid.to_string(),
        date_start: start.to_string(),
        date_end: "251231".to_string(),
        days_run: days.to_string(),
        stp_ind: stp.to_string(),
        atoc_code: operator.to_string(),
        train_identity: "1A23".to_string(),
        origin_name: "LONDON EUSTON".to_string(),
        dest_name: "WATFORD JUNCTION".to_string(),
        stops,
    }
}

fn two_stops() -> Vec<StopEvent> {
    vec![stop("EUSTON", "09:00:00", "09:00:00"), stop("WATFDJ", "09:30:00", "09:30:00")]
}

fn three_stops() -> Vec<StopEvent> {
    vec![
        stop("EUSTON", "09:00:00", "09:00:00"),
        stop("HROW", "09:12:00", "09:13:00"),
        stop("WATFDJ", "09:30:00", "09:30:00"),
    ]
}

fn signature(route: &str, stops: Vec<StopEvent>, service: &str) -> TripServiceSignature {
    TripServiceSignature {
        trip_sig: TripSignature {
            route_id: route.to_string(),
            stop_pattern: stops,
            headsign: "WATFORD JUNCTION".to_string(),
            train_identity: "1A23".to_string(),
        },
        service_id: service.to_string(),
    }
}

fn calendar(days: [u8; 7], start: &str, end: &str) -> CalendarSignature {
    CalendarSignature {
        monday: days[0],
        tuesday: days[1],
        wednesday: days[2],
        thursday: days[3],
        friday: days[4],
        saturday: days[5],
        sunday: days[6],
        start_date: start.to_string(),
        end_date: end.to_string(),
    }
}

#[test]
fn calendar_signature_reads_the_day_pattern() {
    let s = calendar_signature(&trip("C1", "250101", "1010101", "P", "VT", two_stops()));
    assert_eq!(
        [s.monday, s.tuesday, s.wednesday, s.thursday, s.friday, s.saturday, s.sunday],
        [1, 0, 1, 0, 1, 0, 1]
    );
    assert_eq!(s.start_date, "20250101");
    assert_eq!(s.end_date, "20251231");
}

#[test]
fn calendar_signature_counts_only_the_digit_one() {
    let s = calendar_signature(&trip("C1", "250101", "1Y 2x01", "P", "VT", two_stops()));
    assert_eq!(
        [s.monday, s.tuesday, s.wednesday, s.thursday, s.friday, s.saturday, s.sunday],
        [1, 0, 0, 0, 0, 0, 1]
    );
}

#[test]
fn short_day_pattern_is_padded_with_non_running_days() {
    let s = calendar_signature(&trip("C1", "250101", "11", "P", "VT", two_stops()));
    assert_eq!(
        [s.monday, s.tuesday, s.wednesday, s.thursday, s.friday, s.saturday, s.sunday],
        [1, 1, 0, 0, 0, 0, 0]
    );
    let s = calendar_signature(&trip("C1", "250101", "", "P", "VT", two_stops()));
    assert_eq!(
        [s.monday, s.tuesday, s.wednesday, s.thursday, s.friday, s.saturday, s.sunday],
        [0, 0, 0, 0, 0, 0, 0]
    );
}

#[test]
fn service_ids_count_from_zero() {
    assert_eq!(service_id(0), "SVC0");
    assert_eq!(service_id(9), "SVC9");
    assert_eq!(service_id(10), "SVC10");
    assert_eq!(service_id(1234), "SVC1234");
}

#[test]
fn calendars_are_numbered_in_order_of_first_appearance() {
    let mut registry = CalendarRegistry::new();
    assert_eq!(registry.len(), 0);
    assert_eq!(registry.resolve(calendar([1, 1, 1, 1, 1, 0, 0], "20250101", "20251231")), 0);
    assert_eq!(registry.resolve(calendar([0, 0, 0, 0, 0, 1, 1], "20250101", "20251231")), 1);
    assert_eq!(registry.resolve(calendar([1, 1, 1, 1, 1, 0, 0], "20250101", "20250630")), 2);
    assert_eq!(registry.resolve(calendar([1, 1, 1, 1, 1, 0, 0], "20250102", "20251231")), 3);
    assert_eq!(registry.len(), 4);
}

#[test]
fn known_calendar_keeps_its_service() {
    let mut registry = CalendarRegistry::new();
    assert_eq!(registry.resolve(calendar([1, 1, 1, 1, 1, 0, 0], "20250101", "20251231")), 0);
    assert_eq!(registry.resolve(calendar([0, 0, 0, 0, 0, 1, 1], "20250101", "20251231")), 1);
    assert_eq!(registry.resolve(calendar([1, 1, 1, 1, 1, 0, 0], "20250101", "20251231")), 0);
    assert_eq!(registry.resolve(calendar([0, 0, 0, 0, 0, 1, 1], "20250101", "20251231")), 1);
    assert_eq!(registry.len(), 2);
    let rows = registry.rows();
    assert_eq!(rows.len(), 2);
    assert_eq!(rows[0].service_id, "SVC0");
    assert_eq!(rows[0].monday, 1);
    assert_eq!(rows[0].saturday, 0);
    assert_eq!(rows[0].start_date, "20250101");
    assert_eq!(rows[0].end_date, "20251231");
    assert_eq!(rows[1].service_id, "SVC1");
    assert_eq!(rows[1].monday, 0);
    assert_eq!(rows[1].sunday, 1);
}

#[test]
fn eleventh_calendar_is_service_ten() {
    let mut registry = CalendarRegistry::new();
    for day in 0..11 {
        let start = format!("202501{:02}", day + 1);
        assert_eq!(registry.resolve(calendar([1, 1, 1, 1, 1, 1, 1], &start, "20251231")), day);
    }
    let rows = registry.rows();
    assert_eq!(rows[10].service_id, "SVC10");
    assert_eq!(rows[10].start_date, "20250111");
}

#[test]
fn first_trip_of_a_schedule_keeps_the_bare_uid() {
    let mut registry = TripRegistry::new();
    let id = registry.register(
        signature("VT_LONDON EUSTON", two_stops(), "SVC0"),
        "C12345".to_string(),
        "250101".to_string(),
        "P".to_string(),
    );
    assert_eq!(id.as_deref(), Some("C12345"));
    assert_eq!(registry.len(), 1);
}

#[test]
fn later_trips_of_a_schedule_get_the_suffix() {
    let mut registry = TripRegistry::new();
    let first = registry.register(
        signature("VT_LONDON EUSTON", two_stops(), "SVC0"),
        "C12345".to_string(),
        "250101".to_string(),
        "P".to_string(),
    );
    let second = registry.register(
        signature("VT_LONDON EUSTON", three_stops(), "SVC0"),
        "C12345".to_string(),
        "250301".to_string(),
        "O".to_string(),
    );
    let third = registry.register(
        signature("VT_LONDON EUSTON", two_stops(), "SVC1"),
        "C12345".to_string(),
        "250401".to_string(),
        "N".to_string(),
    );
    let other = registry.register(
        signature("VT_LONDON EUSTON", two_stops(), "SVC2"),
        "C99999".to_string(),
        "250401".to_string(),
        "N".to_string(),
    );
    assert_eq!(first.as_deref(), Some("C12345"));
    assert_eq!(second.as_deref(), Some("C12345_250301_O"));
    assert_eq!(third.as_deref(), Some("C12345_250401_N"));
    assert_eq!(other.as_deref(), Some("C99999"));
    let rows = registry.trip_rows();
    let bare = rows.iter().filter(|r| r.trip_id == "C12345").count();
    assert_eq!(bare, 1);
    assert_eq!(rows[0].trip_id, "C12345");
}

#[test]
fn known_pattern_and_service_is_suppressed() {
    let mut registry = TripRegistry::new();
    let first = registry.register(
        signature("VT_LONDON EUSTON", two_stops(), "SVC0"),
        "C12345".to_string(),
        "250101".to_string(),
        "P".to_string(),
    );
    let again = registry.register(
        signature("VT_LONDON EUSTON", two_stops(), "SVC0"),
        "C67890".to_string(),
        "250201".to_string(),
        "O".to_string(),
    );
    assert!(first.is_some());
    assert!(again.is_none());
    assert_eq!(registry.len(), 1);
    assert_eq!(registry.trip_rows().len(), 1);
    assert_eq!(registry.stop_time_rows().len(), 2);
    assert!(!registry.uses("C67890"));
    assert!(registry.uses("C12345"));
}

#[test]
fn every_part_of_the_key_tells_trips_apart() {
    let mut registry = TripRegistry::new();
    let base = || signature("VT_LONDON EUSTON", two_stops(), "SVC0");
    assert!(registry.register(base(), "U0".to_string(), "250101".to_string(), "P".to_string()).is_some());
    let mut other = base();
    other.trip_sig.route_id = "VT_CREWE".to_string();
    assert!(registry.register(other, "U1".to_string(), "250101".to_string(), "P".to_string()).is_some());
    let mut other = base();
    other.trip_sig.headsign = "CREWE".to_string();
    assert!(registry.register(other, "U2".to_string(), "250101".to_string(), "P".to_string()).is_some());
    let mut other = base();
    other.trip_sig.train_identity = "2B34".to_string();
    assert!(registry.register(other, "U3".to_string(), "250101".to_string(), "P".to_string()).is_some());
    let mut other = base();
    other.service_id = "SVC1".to_string();
    assert!(registry.register(other, "U4".to_string(), "250101".to_string(), "P".to_string()).is_some());
    let mut other = base();
    other.trip_sig.stop_pattern[1].arrival_time = "09:31:00".to_string();
    assert!(registry.register(other, "U5".to_string(), "250101".to_string(), "P".to_string()).is_some());
    let mut other = base();
    other.trip_sig.stop_pattern[0].departure_time = "09:01:00".to_string();
    assert!(registry.register(other, "U6".to_string(), "250101".to_string(), "P".to_string()).is_some());
    let mut other = base();
    other.trip_sig.stop_pattern[0].stop_id = "CREWE".to_string();
    assert!(registry.register(other, "U7".to_string(), "250101".to_string(), "P".to_string()).is_some());
    let mut other = base();
    other.trip_sig.stop_pattern.pop();
    assert!(registry.register(other, "U8".to_string(), "250101".to_string(), "P".to_string()).is_some());
    assert!(registry.register(base(), "U9".to_string(), "250101".to_string(), "P".to_string()).is_none());
    assert_eq!(registry.len(), 9);
    assert!(registry.knows(&base()));
}

#[test]
fn stop_times_are_numbered_from_one_without_gaps() {
    let mut registry = TripRegistry::new();
    registry.register(
        signature("VT_LONDON EUSTON", three_stops(), "SVC0"),
        "C12345".to_string(),
        "250101".to_string(),
        "P".to_string(),
    );
    registry.register(
        signature("VT_LONDON EUSTON", two_stops(), "SVC0"),
        "C12345".to_string(),
        "250201".to_string(),
        "O".to_string(),
    );
    let rows = registry.stop_time_rows();
    assert_eq!(rows.len(), 5);
    let seen: Vec<(&str, &str, u64)> =
        rows.iter().map(|r| (r.trip_id.as_str(), r.stop_id.as_str(), r.stop_sequence)).collect();
    assert_eq!(
        seen,
        vec![
            ("C12345", "EUSTON", 1),
            ("C12345", "HROW", 2),
            ("C12345", "WATFDJ", 3),
            ("C12345_250201_O", "EUSTON", 1),
            ("C12345_250201_O", "WATFDJ", 2),
        ]
    );
    assert_eq!(rows[1].arrival_time, "09:12:00");
    assert_eq!(rows[1].departure_time, "09:13:00");
}

#[test]
fn trip_row_mirrors_the_key() {
    let mut registry = TripRegistry::new();
    registry.register(
        signature("VT_LONDON EUSTON", two_stops(), "SVC7"),
        "C12345".to_string(),
        "250101".to_string(),
        "P".to_string(),
    );
    let rows = registry.trip_rows();
    assert_eq!(rows.len(), 1);
    assert_eq!(rows[0].route_id, "VT_LONDON EUSTON");
    assert_eq!(rows[0].service_id, "SVC7");
    assert_eq!(rows[0].trip_id, "C12345");
    assert_eq!(rows[0].trip_headsign, "WATFORD JUNCTION");
    assert_eq!(rows[0].trip_short_name, "1A23");
}

#[test]
fn commit_builds_all_tables() {
    let stations = known_stations();
    let mut operators = OperatorTable::new();
    operators.insert("VT".to_string(), "Avanti West Coast".to_string());
    let mut feed = Feed::new();
    let id = feed.commit(trip("C12345", "250101", "1111100", "P", "VT", three_stops()), &stations, &operators);
    assert_eq!(id.as_deref(), Some("C12345"));

    let agencies = feed.agencies();
    assert_eq!(agencies.len(), 1);
    assert_eq!(agencies[0].agency_id, "VT");
    assert_eq!(agencies[0].agency_name, "Avanti West Coast");
    assert_eq!(agencies[0].agency_url, "http://www.nationalrail.co.uk");
    assert_eq!(agencies[0].agency_timezone, "Europe/London");

    let routes = feed.routes();
    assert_eq!(routes.len(), 1);
    let route = routes.get("VT_LONDON EUSTON").expect("the route is there");
    assert_eq!(route.route_id, "VT_LONDON EUSTON");
    assert_eq!(route.agency_id, "VT");
    assert_eq!(route.route_short_name, "VT");
    assert_eq!(route.route_long_name, "LONDON EUSTON to WATFORD JUNCTION");
    assert_eq!(route.route_type, 2);
    assert_eq!(route.route_color, "");
    assert_eq!(route.route_text_color, "000000");

    let calendars = feed.calendar_rows();
    assert_eq!(calendars.len(), 1);
    assert_eq!(calendars[0].service_id, "SVC0");
    assert_eq!(calendars[0].friday, 1);
    assert_eq!(calendars[0].saturday, 0);
    assert_eq!(calendars[0].start_date, "20250101");

    let trips = feed.trip_rows();
    assert_eq!(trips.len(), 1);
    assert_eq!(trips[0].route_id, "VT_LONDON EUSTON");
    assert_eq!(trips[0].service_id, "SVC0");
    assert_eq!(trips[0].trip_id, "C12345");
    assert_eq!(trips[0].trip_headsign, "WATFORD JUNCTION");
    assert_eq!(trips[0].trip_short_name, "1A23");

    let stop_times = feed.stop_time_rows();
    assert_eq!(stop_times.len(), 3);
    assert_eq!(stop_times[2].trip_id, "C12345");
    assert_eq!(stop_times[2].stop_id, "WATFDJ");
    assert_eq!(stop_times[2].stop_sequence, 3);
    assert!(feed.associations().is_empty());
}

#[test]
fn identical_trip_is_committed_once() {
    let stations = known_stations();
    let operators = OperatorTable::new();
    let mut feed = Feed::new();
    let first = feed.commit(trip("C12345", "250101", "1111100", "P", "VT", three_stops()), &stations, &operators);
    let second = feed.commit(trip("C67890", "250101", "1111100", "O", "VT", three_stops()), &stations, &operators);
    assert_eq!(first.as_deref(), Some("C12345"));
    assert!(second.is_none());
    assert_eq!(feed.trip_rows().len(), 1);
    assert_eq!(feed.stop_time_rows().len(), 3);
    assert_eq!(feed.calendar_rows().len(), 1);
    assert_eq!(feed.agencies().len(), 1);
    assert_eq!(feed.routes().len(), 1);
}

#[test]
fn same_pattern_on_another_calendar_is_a_new_trip() {
    let stations = known_stations();
    let operators = OperatorTable::new();
    let mut feed = Feed::new();
    let first = feed.commit(trip("C12345", "250101", "1111100", "P", "VT", three_stops()), &stations, &operators);
    let second = feed.commit(trip("C12345", "250101", "0000011", "P", "VT", three_stops()), &stations, &operators);
    assert_eq!(first.as_deref(), Some("C12345"));
    assert_eq!(second.as_deref(), Some("C12345_250101_P"));
    let calendars = feed.calendar_rows();
    assert_eq!(calendars.len(), 2);
    assert_eq!(calendars[1].service_id, "SVC1");
    let trips = feed.trip_rows();
    assert_eq!(trips[0].service_id, "SVC0");
    assert_eq!(trips[1].service_id, "SVC1");
}

#[test]
fn shared_calendar_is_written_once() {
    let stations = known_stations();
    let operators = OperatorTable::new();
    let mut feed = Feed::new();
    feed.commit(trip("C11111", "250101", "1111100", "P", "VT", three_stops()), &stations, &operators);
    feed.commit(trip("C22222", "250101", "1111100", "P", "VT", two_stops()), &stations, &operators);
    feed.commit(trip("C33333", "250101", "1111100", "P", "LM", two_stops()), &stations, &operators);
    assert_eq!(feed.calendar_rows().len(), 1);
    let trips = feed.trip_rows();
    assert_eq!(trips.len(), 3);
    assert!(trips.iter().all(|t| t.service_id == "SVC0"));
}

#[test]
fn suppressed_trip_still_registers_its_calendar_agency_and_route() {
    let stations = known_stations();
    let operators = OperatorTable::new();
    let mut feed = Feed::new();
    feed.commit(trip("C11111", "250101", "1111100", "P", "VT", three_stops()), &stations, &operators);
    let mut other = trip("C22222", "250101", "1111100", "P", "VT", three_stops());
    other.date_end = "250630".to_string();
    let id = feed.commit(other, &stations, &operators);
    assert_eq!(id.as_deref(), Some("C22222"));
    assert_eq!(feed.calendar_rows().len(), 2);
}

#[test]
fn first_route_with_an_identifier_stays() {
    let stations = known_stations();
    let operators = OperatorTable::new();
    let mut feed = Feed::new();
    feed.commit(trip("C11111", "250101", "1111100", "P", "VT", three_stops()), &stations, &operators);
    let mut second = trip("C22222", "250101", "1111100", "P", "VT", two_stops());
    second.dest_name = "CREWE".to_string();
    feed.commit(second, &stations, &operators);
    let routes = feed.routes();
    assert_eq!(routes.len(), 1);
    assert_eq!(
        routes.get("VT_LONDON EUSTON").expect("the route is there").route_long_name,
        "LONDON EUSTON to WATFORD JUNCTION"
    );
    let trips = feed.trip_rows();
    assert_eq!(trips.len(), 2);
    assert_eq!(trips[1].trip_headsign, "CREWE");
}

#[test]
fn agencies_are_listed_once_each() {
    let stations = known_stations();
    let mut operators = OperatorTable::new();
    operators.insert("VT".to_string(), "Avanti West Coast".to_string());
    let mut feed = Feed::new();
    feed.commit(trip("C11111", "250101", "1111100", "P", "VT", three_stops()), &stations, &operators);
    feed.commit(trip("C22222", "250101", "1111100", "P", "ZZ", three_stops()), &stations, &operators);
    feed.commit(trip("C33333", "250101", "1111100", "P", "VT", two_stops()), &stations, &operators);
    feed.commit(trip("C44444", "250101", "1111100", "P", "ZZ", two_stops()), &stations, &operators);
    let agencies = feed.agencies();
    assert_eq!(agencies.len(), 2);
    assert_eq!(agencies[0].agency_id, "VT");
    assert_eq!(agencies[0].agency_name, "Avanti West Coast");
    assert_eq!(agencies[1].agency_id, "ZZ");
    assert_eq!(agencies[1].agency_name, "National Rail (ZZ)");
}

fn record(width: usize, columns: &[(usize, &str)]) -> String {
    let mut cells: Vec<char> = vec![' '; width];
    for (at, text) in columns {
        for (k, c) in text.chars().enumerate() {
            cells[at + k] = c;
        }
    }
    cells.into_iter().collect()
}

fn schedule(uid: &str, start: &str, days: &str, stp: &str, operator: &str, calls: &[(&str, &str)]) -> Vec<String> {
    let mut lines = vec![
        record(80, &[(0, "BS"), (2, "N"), (3, uid), (9, start), (15, "251231"), (21, days), (32, "1A23"), (79, stp)]),
        record(80, &[(0, "BX"), (11, operator)]),
    ];
    let last = calls.len() - 1;
    for (k, (tiploc, time)) in calls.iter().enumerate() {
        let line = if k == 0 {
            record(80, &[(0, "LO"), (2, tiploc), (10, time)])
        } else if k == last {
            record(80, &[(0, "LT"), (2, tiploc), (10, time)])
        } else {
            record(80, &[(0, "LI"), (2, tiploc), (10, time), (15, time), (25, time), (29, time)])
        };
        lines.push(line);
    }
    lines
}

#[test]
fn schedule_file_is_converted_in_order() {
    let stations = known_stations();
    let mut operators = OperatorTable::new();
    operators.insert("VT".to_string(), "Avanti West Coast".to_string());
    let mut lines = vec!["HDTPS.UDFROC1".to_string(), "".to_string()];
    lines.extend(schedule("C11111", "250101", "1111100", "P", "VT", &[("EUSTON", "0900"), ("HROW", "0912"), ("WATFDJ", "0930")]));
    lines.push(record(80, &[(0, "AA"), (3, "C11111"), (9, "C22222"), (15, "250101"), (21, "251231"), (27, "1111100"), (34, "JJ"), (37, "CREWE"), (47, "P"), (79, "P")]));
    lines.extend(schedule("C11111", "250201", "0000011", "O", "VT", &[("EUSTON", "1000"), ("WATFDJ", "1030")]));
    lines.extend(schedule("C33333", "250101", "1111100", "P", "VT", &[("EUSTON", "0900"), ("HROW", "0912"), ("WATFDJ", "0930")]));
    lines.extend(schedule("C44444", "250101", "1111100", "C", "VT", &[("EUSTON", "1100"), ("WATFDJ", "1130")]));
    lines.extend(schedule("C55555", "250101", "1111100", "P", "LM", &[("EUSTON", "1200"), ("NOWHERE", "1230")]));
    lines.push("ZZ".to_string());

    let mut feed = Feed::new();
    parse_mca(&lines, &stations, &operators, &mut feed);

    let trips = feed.trip_rows();
    let ids: Vec<&str> = trips.iter().map(|t| t.trip_id.as_str()).collect();
    assert_eq!(ids, vec!["C11111", "C11111_250201_O"]);
    let services: Vec<&str> = trips.iter().map(|t| t.service_id.as_str()).collect();
    assert_eq!(services, vec!["SVC0", "SVC1"]);

    let stop_times = feed.stop_time_rows();
    let seen: Vec<(&str, &str, &str, u64)> = stop_times
        .iter()
        .map(|r| (r.trip_id.as_str(), r.stop_id.as_str(), r.arrival_time.as_str(), r.stop_sequence))
        .collect();
    assert_eq!(
        seen,
        vec![
            ("C11111", "EUSTON", "09:00:00", 1),
            ("C11111", "HROW", "09:12:00", 2),
            ("C11111", "WATFDJ", "09:30:00", 3),
            ("C11111_250201_O", "EUSTON", "10:00:00", 1),
            ("C11111_250201_O", "WATFDJ", "10:30:00", 2),
        ]
    );

    let calendars = feed.calendar_rows();
    assert_eq!(calendars.len(), 2);
    assert_eq!(calendars[0].service_id, "SVC0");
    assert_eq!(calendars[1].service_id, "SVC1");
    assert_eq!(calendars[1].start_date, "20250201");
    assert_eq!(calendars[1].sunday, 1);

    assert_eq!(feed.agencies().len(), 1);
    assert_eq!(feed.routes().len(), 1);
    let associations = feed.associations();
    assert_eq!(associations.len(), 1);
    assert_eq!(associations[0].base_uid, "C11111");
    assert_eq!(associations[0].assoc_uid, "C22222");
}

#[test]
fn open_trip_does_not_carry_over_to_the_next_file() {
    let stations = known_stations();
    let operators = OperatorTable::new();
    let mut feed = Feed::new();
    let first = vec![
        record(80, &[(0, "BS"), (3, "C11111"), (9, "250101"), (15, "251231"), (21, "1111100"), (79, "P")]),
        record(80, &[(0, "LO"), (2, "EUSTON"), (10, "0900")]),
    ];
    let second = vec![record(80, &[(0, "LT"), (2, "WATFDJ"), (10, "0930")])];
    parse_mca(&first, &stations, &operators, &mut feed);
    parse_mca(&second, &stations, &operators, &mut feed);
    assert!(feed.trip_rows().is_empty());
    assert!(feed.calendar_rows().is_empty());
}

#[test]
fn consolidation_carries_over_to_the_next_file() {
    let stations = known_stations();
    let operators = OperatorTable::new();
    let mut feed = Feed::new();
    let first = schedule("C11111", "250101", "1111100", "P", "VT", &[("EUSTON", "0900"), ("WATFDJ", "0930")]);
    let second = schedule("C11111", "250101", "1111100", "P", "VT", &[("EUSTON", "0900"), ("CREWE", "1100")]);
    parse_mca(&first, &stations, &operators, &mut feed);
    parse_mca(&second, &stations, &operators, &mut feed);
    parse_mca(&first, &stations, &operators, &mut feed);
    let trips = feed.trip_rows();
    let ids: Vec<&str> = trips.iter().map(|t| t.trip_id.as_str()).collect();
    assert_eq!(ids, vec!["C11111", "C11111_250101_P"]);
    assert_eq!(feed.calendar_rows().len(), 1);
}

#[test]
fn empty_schedule_file_changes_nothing() {
    let stations = known_stations();
    let operators = OperatorTable::new();
    let mut feed = Feed::new();
    parse_mca(&Vec::new(), &stations, &operators, &mut feed);
    assert!(feed.trip_rows().is_empty());
    assert!(feed.stop_time_rows().is_empty());
    assert!(feed.calendar_rows().is_empty());
    assert!(feed.agencies().is_empty());
    assert!(feed.associations().is_empty());
    assert_eq!(feed.routes().len(), 0);
}
