use transit_server::builder::{service_date_mask, service_runs};
use transit_server::calendar::{
    date_text, date_window, text_at_most, CalendarDate, Weekday, WindowDay,
};
use transit_server::clock::time_str_to_int;
use transit_server::error::ScheduleError;
use transit_server::feed::{
    DirectionType, ExceptionRow, ExceptionType, Schedule, ServiceRow, ShapeRow, StopRow,
    StopTimeRow, TripRow,
};
use transit_server::ir::ScheduleIR;
use transit_server::item::Item;
use transit_server::keyed::{KeyedMap, KeyedSet};
use transit_server::messages::{Position, Shape, Stop, StopTime, Transfer};

fn s(text: &str) -> String {
    text.to_owned()
}

fn map_of<T: Item, U: Item>(entries: Vec<(T, U)>) -> KeyedMap<T, U> {
    let mut map = KeyedMap::new();
    for (key, value) in entries {
        map.insert(key, value);
    }
    map
}

fn set_of<T: Item>(items: Vec<T>) -> KeyedSet<T> {
    let mut set = KeyedSet::new();
    for item in items {
        set.insert(item);
    }
    set
}

fn date(year: i32, month: u32, day: u32) -> CalendarDate {
    CalendarDate { year, month, day }
}

fn weekdays_only(start: &str, end: &str) -> ServiceRow {
    ServiceRow {
        monday: true,
        tuesday: true,
        wednesday: true,
        thursday: true,
        friday: true,
        saturday: false,
        sunday: false,
        start_date: s(start),
        end_date: s(end),
    }
}

fn every_day(start: &str, end: &str) -> ServiceRow {
    ServiceRow { saturday: true, sunday: true, ..weekdays_only(start, end) }
}

fn trip_row(route: &str, service: &str) -> TripRow {
    TripRow {
        route_id: s(route),
        service_id: s(service),
        trip_headsign: Some(s("Downtown & Brooklyn")),
        shape_id: Some(s("shape")),
        direction_id: Some(DirectionType::Uptown),
    }
}

fn empty_schedule() -> Schedule {
    Schedule {
        trips: KeyedMap::new(),
        routes: KeyedSet::new(),
        services: KeyedMap::new(),
        service_exceptions: KeyedMap::new(),
        shapes: KeyedMap::new(),
        stops: KeyedMap::new(),
        stop_times: KeyedMap::new(),
        transfers: KeyedMap::new(),
    }
}

fn small_schedule() -> Schedule {
    let mut schedule = empty_schedule();
    schedule.routes = set_of(vec![s("A"), s("B")]);
    schedule.services = map_of(vec![
        (s("weekday"), weekdays_only("20250101", "20251231")),
        (s("daily"), every_day("20250101", "20251231")),
        (s("short"), every_day("20250101", "20250402")),
        (s("past"), every_day("20240101", "20241231")),
    ]);
    schedule.service_exceptions = map_of(vec![
        (
            s("weekday"),
            map_of(vec![
                (s("20250402"), ExceptionRow { exception_type: ExceptionType::Removed }),
                (s("20250405"), ExceptionRow { exception_type: ExceptionType::Added }),
            ]),
        ),
        (
            s("special"),
            map_of(vec![(s("20250403"), ExceptionRow { exception_type: ExceptionType::Added })]),
        ),
    ]);
    schedule.trips = map_of(vec![
        (s("t-weekday"), trip_row("A", "weekday")),
        (s("t-daily"), TripRow { direction_id: Some(DirectionType::Downtown), ..trip_row("A", "daily") }),
        (s("t-short"), TripRow { direction_id: None, ..trip_row("B", "short") }),
        (s("t-past"), trip_row("B", "past")),
        (s("t-special"), trip_row("B", "special")),
        (s("t-none"), trip_row("nowhere", "unknown service")),
    ]);
    schedule.stop_times = map_of(vec![(
        s("t-daily"),
        map_of(vec![
            (
                1,
                StopTimeRow {
                    stop_id: Some(s("101")),
                    arrival_time: Some(s("08:00:00")),
                    departure_time: Some(s("08:00:30")),
                    stop_sequence: 1,
                },
            ),
            (
                2,
                StopTimeRow {
                    stop_id: Some(s("102")),
                    arrival_time: Some(s("24:05:10")),
                    departure_time: None,
                    stop_sequence: 2,
                },
            ),
        ]),
    )]);
    schedule.shapes = map_of(vec![(
        s("shape"),
        ShapeRow {
            shape_id: s("shape"),
            points: vec![
                (40.7f64.to_bits(), (-74.0f64).to_bits()),
                (40.8f64.to_bits(), (-73.9f64).to_bits()),
            ],
        },
    )]);
    schedule.stops = map_of(vec![
        (
            s("101"),
            StopRow {
                stop_id: s("101"),
                stop_name: Some(s("Van Cortlandt Park-242 St")),
                parent_station: None,
                stop_lat: Some(40.889248f64.to_bits()),
                stop_lon: Some((-73.898583f64).to_bits()),
            },
        ),
        (
            s("102"),
            StopRow {
                stop_id: s("102"),
                stop_name: None,
                parent_station: Some(s("101")),
                stop_lat: Some(40.0f64.to_bits()),
                stop_lon: None,
            },
        ),
    ]);
    schedule.transfers = map_of(vec![(
        s("101"),
        vec![Transfer {
            from_stop_id: Some(s("101")),
            to_stop_id: Some(s("102")),
            min_transfer_time: Some(180),
        }],
    )]);
    schedule
}

#[test]
fn time_is_hours_minutes_seconds_in_seconds() {
    assert_eq!(time_str_to_int(Some(s("1:02:03"))), Some(3600 + 2 * 60 + 3));
    assert_eq!(time_str_to_int(Some(s("12:00:00"))), Some(43200));
    assert_eq!(time_str_to_int(Some(s("23:59:59"))), Some(86399));
    assert_eq!(time_str_to_int(Some(s("25:10:00"))), Some(25 * 3600 + 600));
    assert_eq!(time_str_to_int(Some(s("00:00:00"))), Some(0));
    assert_eq!(time_str_to_int(None), None);
}

#[test]
fn time_with_odd_fields_reads_them_as_zero() {
    assert_eq!(time_str_to_int(Some(s(""))), Some(0));
    assert_eq!(time_str_to_int(Some(s("abc"))), Some(0));
    assert_eq!(time_str_to_int(Some(s("7"))), Some(7));
    assert_eq!(time_str_to_int(Some(s("5:30"))), Some(330));
    assert_eq!(time_str_to_int(Some(s("1:xx:03"))), Some(3603));
    assert_eq!(time_str_to_int(Some(s("1::03"))), Some(3603));
    assert_eq!(time_str_to_int(Some(s("+1:+2:+3"))), Some(3723));
    assert_eq!(time_str_to_int(Some(s("1:-2:03"))), Some(3603));
    assert_eq!(time_str_to_int(Some(s("1:+:03"))), Some(3603));
    assert_eq!(time_str_to_int(Some(s("1: 2:03"))), Some(3603));
    assert_eq!(time_str_to_int(Some(s("1:2:3:4"))), Some(((1 * 60 + 2) * 60 + 3) * 60 + 4));
    assert_eq!(time_str_to_int(Some(s("12:00:"))), Some(43200));
    assert_eq!(time_str_to_int(Some(s("12:00:00:"))), Some(43200 * 60));
    assert_eq!(time_str_to_int(Some(s(":"))), Some(0));
    assert_eq!(time_str_to_int(Some(s("99999999999:00:00"))), Some(0));
    assert_eq!(time_str_to_int(Some(s("1:99999999999"))), Some(60));
}

#[test]
fn time_that_does_not_fit_is_absent() {
    assert_eq!(time_str_to_int(Some(s("4294967295"))), Some(4294967295));
    assert_eq!(time_str_to_int(Some(s("4294967296"))), Some(0));
    assert_eq!(time_str_to_int(Some(s("1193046:28:15"))), Some(4294967295));
    assert_eq!(time_str_to_int(Some(s("1193046:28:16"))), None);
    assert_eq!(time_str_to_int(Some(s("4294967295:00:00"))), None);
    assert_eq!(time_str_to_int(Some(s("4294967295:0:0:0:0"))), None);
}

#[test]
fn dates_are_written_with_eight_digits() {
    assert_eq!(date_text(&date(2025, 4, 1)), Some(s("20250401")));
    assert_eq!(date_text(&date(2025, 12, 31)), Some(s("20251231")));
    assert_eq!(date_text(&date(7, 1, 9)), Some(s("00070109")));
    assert_eq!(date_text(&date(0, 0, 0)), Some(s("00000000")));
    assert_eq!(date_text(&date(9999, 99, 99)), Some(s("99999999")));
    assert_eq!(date_text(&date(10000, 1, 1)), None);
    assert_eq!(date_text(&date(-1, 1, 1)), None);
    assert_eq!(date_text(&date(2025, 100, 1)), None);
    assert_eq!(date_text(&date(2025, 1, 100)), None);
}

#[test]
fn texts_compare_as_in_a_dictionary() {
    assert!(text_at_most(&s("20250101"), &s("20250401")));
    assert!(text_at_most(&s("20250401"), &s("20250401")));
    assert!(!text_at_most(&s("20250402"), &s("20250401")));
    assert!(text_at_most(&s(""), &s("")));
    assert!(text_at_most(&s(""), &s("a")));
    assert!(!text_at_most(&s("a"), &s("")));
    assert!(text_at_most(&s("2025"), &s("20250401")));
    assert!(!text_at_most(&s("20250401"), &s("2025")));
    assert!(text_at_most(&s("Z"), &s("a")));
    assert!(text_at_most(&s("z"), &s("é")));
}

#[test]
fn window_lists_dates_and_weekdays() {
    let days = date_window(&date(2025, 4, 1), 7).unwrap();
    let dates: Vec<&str> = days.iter().map(|d| d.date.as_str()).collect();
    assert_eq!(
        dates,
        vec!["20250401", "20250402", "20250403", "20250404", "20250405", "20250406", "20250407"]
    );
    let weekdays: Vec<Weekday> = days.iter().map(|d| d.weekday).collect();
    assert_eq!(
        weekdays,
        vec![
            Weekday::Tue,
            Weekday::Wed,
            Weekday::Thu,
            Weekday::Fri,
            Weekday::Sat,
            Weekday::Sun,
            Weekday::Mon
        ]
    );
}

#[test]
fn window_crosses_months_and_leap_days() {
    let days = date_window(&date(2024, 2, 27), 4).unwrap();
    let dates: Vec<&str> = days.iter().map(|d| d.date.as_str()).collect();
    assert_eq!(dates, vec!["20240227", "20240228", "20240229", "20240301"]);
    assert_eq!(days[2].weekday, Weekday::Thu);
    let days = date_window(&date(2025, 12, 31), 2).unwrap();
    assert_eq!(days[1], WindowDay { date: s("20260101"), weekday: Weekday::Thu });
    assert_eq!(date_window(&date(2025, 4, 1), 32).unwrap().len(), 32);
    assert_eq!(date_window(&date(2025, 4, 1), 32).unwrap()[31].date, "20250502");
}

#[test]
fn window_that_cannot_be_laid_out_is_absent() {
    assert!(date_window(&date(2025, 4, 1), 0).is_none());
    assert!(date_window(&date(2025, 4, 1), 33).is_none());
    assert!(date_window(&date(2025, 4, 1), 255).is_none());
    assert!(date_window(&date(2025, 2, 30), 1).is_none());
    assert!(date_window(&date(2025, 13, 1), 1).is_none());
    assert!(date_window(&date(2025, 0, 1), 1).is_none());
    assert!(date_window(&date(9999, 12, 31), 1).is_some());
    assert!(date_window(&date(9999, 12, 31), 2).is_none());
    assert!(date_window(&date(-1, 12, 31), 1).is_none());
    assert!(date_window(&date(i32::MAX, 1, 1), 1).is_none());
}

#[test]
fn service_runs_by_calendar_unless_an_exception_decides() {
    let schedule = small_schedule();
    let day = |date: &str, weekday: Weekday| WindowDay { date: s(date), weekday };
    assert!(service_runs(&schedule, &s("weekday"), &day("20250401", Weekday::Tue)));
    assert!(!service_runs(&schedule, &s("weekday"), &day("20250402", Weekday::Wed)));
    assert!(service_runs(&schedule, &s("weekday"), &day("20250405", Weekday::Sat)));
    assert!(!service_runs(&schedule, &s("weekday"), &day("20250406", Weekday::Sun)));
    assert!(service_runs(&schedule, &s("short"), &day("20250402", Weekday::Wed)));
    assert!(!service_runs(&schedule, &s("short"), &day("20250403", Weekday::Thu)));
    assert!(service_runs(&schedule, &s("daily"), &day("20250101", Weekday::Wed)));
    assert!(service_runs(&schedule, &s("daily"), &day("20251231", Weekday::Wed)));
    assert!(!service_runs(&schedule, &s("daily"), &day("20260101", Weekday::Thu)));
    assert!(!service_runs(&schedule, &s("daily"), &day("20241231", Weekday::Tue)));
    assert!(service_runs(&schedule, &s("special"), &day("20250403", Weekday::Thu)));
    assert!(!service_runs(&schedule, &s("special"), &day("20250404", Weekday::Fri)));
    assert!(!service_runs(&schedule, &s("unknown service"), &day("20250404", Weekday::Fri)));
}

#[test]
fn date_mask_has_one_bit_for_each_day() {
    let schedule = small_schedule();
    let week = date_window(&date(2025, 4, 1), 7).unwrap();
    // Tue, Thu, Fri, Sat by exception, Mon; not Wed by exception, not Sun
    assert_eq!(service_date_mask(&schedule, &s("weekday"), &week), 0b1011101);
    assert_eq!(service_date_mask(&schedule, &s("daily"), &week), 0b1111111);
    assert_eq!(service_date_mask(&schedule, &s("short"), &week), 0b0000011);
    assert_eq!(service_date_mask(&schedule, &s("past"), &week), 0);
    assert_eq!(service_date_mask(&schedule, &s("special"), &week), 0b0000100);
    let month = date_window(&date(2025, 4, 1), 32).unwrap();
    assert_eq!(service_date_mask(&schedule, &s("daily"), &month), 0xffff_ffff);
    assert_eq!(service_date_mask(&schedule, &s("daily"), &Vec::new()), 0);
    let last = date_window(&date(2025, 3, 2), 32).unwrap();
    assert_eq!(service_date_mask(&schedule, &s("short"), &last), 0xffff_ffff);
    let last = date_window(&date(2025, 3, 3), 32).unwrap();
    assert_eq!(service_date_mask(&schedule, &s("short"), &last), 0x7fff_ffff);
}

fn without_stray(mut schedule: Schedule) -> Schedule {
    schedule.trips.remove(&s("t-none"));
    schedule
}

#[test]
fn snapshot_keeps_the_trips_that_run() {
    let ir = ScheduleIR::try_from_schedule_with_dates(small_schedule(), date(2025, 4, 1), 7)
        .unwrap();
    assert_eq!(ir.routes.len(), 2);
    let a = ir.routes.get(&s("A")).unwrap();
    let b = ir.routes.get(&s("B")).unwrap();
    assert_eq!(a.route_id, "A");
    assert_eq!(b.route_id, "B");
    assert_eq!(a.trips.len(), 2);
    assert_eq!(b.trips.len(), 2);
    assert!(b.trips.get(&s("t-past")).is_none());

    let weekday = a.trips.get(&s("t-weekday")).unwrap();
    assert_eq!(weekday.trip_id, "t-weekday");
    assert_eq!(weekday.date_mask, 0b1011101);
    assert_eq!(weekday.mask_start_date, "20250401");
    assert_eq!(weekday.direction, Some(0));
    assert_eq!(weekday.headsign, Some(s("Downtown & Brooklyn")));
    assert_eq!(weekday.shape_id, Some(s("shape")));
    assert_eq!(weekday.stop_times.len(), 0);

    let daily = a.trips.get(&s("t-daily")).unwrap();
    assert_eq!(daily.date_mask, 0b1111111);
    assert_eq!(daily.direction, Some(1));
    assert_eq!(daily.stop_times.len(), 2);
    assert_eq!(
        daily.stop_times.get(&1),
        Some(&StopTime {
            stop_id: Some(s("101")),
            arrival_time: Some(8 * 3600),
            departure_time: Some(8 * 3600 + 30),
            stop_sequence: Some(1),
        })
    );
    assert_eq!(
        daily.stop_times.get(&2),
        Some(&StopTime {
            stop_id: Some(s("102")),
            arrival_time: Some(24 * 3600 + 5 * 60 + 10),
            departure_time: None,
            stop_sequence: Some(2),
        })
    );

    assert_eq!(b.trips.get(&s("t-short")).unwrap().date_mask, 0b11);
    assert_eq!(b.trips.get(&s("t-short")).unwrap().direction, None);
    assert_eq!(b.trips.get(&s("t-special")).unwrap().date_mask, 0b100);
}

#[test]
fn snapshot_has_no_trip_with_an_empty_mask() {
    for days in [1u8, 2, 7, 32] {
        for start in [date(2025, 4, 1), date(2025, 4, 5), date(2024, 12, 25), date(2026, 1, 1)] {
            let ir = ScheduleIR::try_from_schedule_with_dates(
                without_stray(small_schedule()),
                start,
                days,
            )
            .unwrap();
            for i in 0..ir.routes.len() {
                let route = ir.routes.value_at(i);
                assert_eq!(&route.route_id, ir.routes.key_at(i));
                for j in 0..route.trips.len() {
                    let trip = route.trips.value_at(j);
                    assert_ne!(trip.date_mask, 0);
                    assert_eq!(&trip.trip_id, route.trips.key_at(j));
                    assert_eq!(Some(trip.mask_start_date.clone()), date_text(&start));
                }
            }
        }
    }
    let ir = ScheduleIR::try_from_schedule_with_dates(small_schedule(), date(2026, 1, 1), 32)
        .unwrap();
    assert_eq!(ir.routes.get(&s("A")).unwrap().trips.len(), 0);
    assert_eq!(ir.routes.get(&s("B")).unwrap().trips.len(), 0);
}

#[test]
fn snapshot_takes_shapes_and_stops_as_they_are() {
    let ir = ScheduleIR::try_from_schedule_with_dates(small_schedule(), date(2025, 4, 1), 1)
        .unwrap();
    assert_eq!(ir.shapes.len(), 1);
    assert_eq!(
        ir.shapes.get(&s("shape")),
        Some(&Shape {
            shape_id: Some(s("shape")),
            points: vec![
                Position { lat: Some(40.7f64.to_bits()), lon: Some((-74.0f64).to_bits()) },
                Position { lat: Some(40.8f64.to_bits()), lon: Some((-73.9f64).to_bits()) },
            ],
        })
    );
    assert_eq!(ir.stops.len(), 2);
    assert_eq!(
        ir.stops.get(&s("101")),
        Some(&Stop {
            stop_id: Some(s("101")),
            stop_name: Some(s("Van Cortlandt Park-242 St")),
            parent_stop_id: None,
            transfers_from: vec![Transfer {
                from_stop_id: Some(s("101")),
                to_stop_id: Some(s("102")),
                min_transfer_time: Some(180),
            }],
            position: Some(Position {
                lat: Some(40.889248f64.to_bits()),
                lon: Some((-73.898583f64).to_bits()),
            }),
            route_ids: vec![],
        })
    );
    assert_eq!(
        ir.stops.get(&s("102")),
        Some(&Stop {
            stop_id: Some(s("102")),
            stop_name: None,
            parent_stop_id: Some(s("101")),
            transfers_from: vec![],
            position: None,
            route_ids: vec![],
        })
    );
}

#[test]
fn snapshot_fails_on_a_running_trip_of_an_unknown_route() {
    let mut schedule = small_schedule();
    schedule.trips.insert(s("t-stray"), trip_row("X", "daily"));
    match ScheduleIR::try_from_schedule_with_dates(schedule, date(2025, 4, 1), 7) {
        Err(ScheduleError::UnknownRoute(id)) => assert_eq!(id, "X"),
        other => panic!("unexpected: {:?}", other.map(|_| ())),
    }
    // the same trip outside the dates of its service is no fault
    let mut schedule = small_schedule();
    schedule.trips.insert(s("t-stray"), trip_row("X", "past"));
    assert!(ScheduleIR::try_from_schedule_with_dates(schedule, date(2025, 4, 1), 7).is_ok());
}

#[test]
fn snapshot_fails_on_a_window_that_cannot_be_laid_out() {
    for (start, days) in [
        (date(2025, 4, 1), 0u8),
        (date(2025, 4, 1), 33),
        (date(2025, 2, 29), 1),
        (date(9999, 12, 31), 2),
    ] {
        assert!(matches!(
            ScheduleIR::try_from_schedule_with_dates(small_schedule(), start, days),
            Err(ScheduleError::InvalidWindow)
        ));
    }
    assert!(matches!(
        ScheduleIR::from_window(&small_schedule(), &Vec::new()),
        Err(ScheduleError::InvalidWindow)
    ));
    let long: Vec<WindowDay> =
        (0..33).map(|_| WindowDay { date: s("20250401"), weekday: Weekday::Tue }).collect();
    assert!(matches!(
        ScheduleIR::from_window(&small_schedule(), &long),
        Err(ScheduleError::InvalidWindow)
    ));
}

#[test]
fn snapshot_from_a_moment_starts_on_the_day_in_new_york() {
    // 2025-04-01 00:00:00 in New York is 04:00:00 in universal time
    let midnight = 1_743_480_000;
    let ir = ScheduleIR::try_from_schedule_at(small_schedule(), midnight).unwrap();
    let trip = ir.routes.get(&s("A")).unwrap().trips.get(&s("t-weekday")).unwrap().clone();
    assert_eq!(trip.mask_start_date, "20250401");
    assert_eq!(trip.date_mask & 0b1111111, 0b1011101);

    let ir = ScheduleIR::try_from_schedule_at(small_schedule(), midnight - 1).unwrap();
    let trip = ir.routes.get(&s("A")).unwrap().trips.get(&s("t-weekday")).unwrap().clone();
    assert_eq!(trip.mask_start_date, "20250331");
    assert_eq!(trip.date_mask & 0b11111111, 0b10111011);

    // in winter New York is five hours behind
    let ir = ScheduleIR::try_from_schedule_at(small_schedule(), 1_736_744_400 - 1).unwrap();
    let trip = ir.routes.get(&s("A")).unwrap().trips.get(&s("t-daily")).unwrap().clone();
    assert_eq!(trip.mask_start_date, "20250112");
    assert_eq!(trip.date_mask, 0xffff_ffff);
    let ir = ScheduleIR::try_from_schedule_at(small_schedule(), 1_736_744_400).unwrap();
    let trip = ir.routes.get(&s("A")).unwrap().trips.get(&s("t-daily")).unwrap().clone();
    assert_eq!(trip.mask_start_date, "20250113");

    assert!(matches!(
        ScheduleIR::try_from_schedule_at(small_schedule(), i64::MAX),
        Err(ScheduleError::InvalidWindow)
    ));
}

#[test]
fn snapshot_of_today_covers_thirty_two_days() {
    let mut schedule = small_schedule();
    schedule.services.insert(s("daily"), every_day("00000101", "99991231"));
    let ir = ScheduleIR::try_from_schedule(schedule).unwrap();
    let trip = ir.routes.get(&s("A")).unwrap().trips.get(&s("t-daily")).unwrap();
    assert_eq!(trip.date_mask, 0xffff_ffff);
    assert_eq!(trip.mask_start_date.len(), 8);
}
