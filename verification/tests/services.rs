use transit_server::cacher::{
    is_served_path, Action, CachedResponse, Cacher, Event, OriginReport, Stage,
    MAX_CACHE_ENTRIES,
};
use transit_server::calendar::{get_nyc_datetime, nyc_datetime_at, CalendarDate, LocalTime};
use transit_server::diff::ScheduleUpdate;
use transit_server::error::ScheduleError;
use transit_server::history::{HistoryStore, MAX_HISTORY_LEN};
use transit_server::ir::{RouteIR, ScheduleIR, TripIR};
use transit_server::item::Item;
use transit_server::keyed::KeyedMap;
use transit_server::log::{LogEntry, Logger, Severity};
use transit_server::messages::{
    FullSchedule, ScheduleDiff, ScheduleRequest, Shape, TripExt, TripIdTuple,
};
use transit_server::server::ScheduleService;
use transit_server::updater::{get_next_update, NextUpdate, Updater, INTERVAL_M, LAST_VALID};

fn s(text: &str) -> String {
    text.to_owned()
}

fn map_of<T: Item, U: Item>(entries: Vec<(T, U)>) -> KeyedMap<T, U> {
    let mut map = KeyedMap::new();
    for (key, value) in entries {
        map.insert(key, value);
    }
    map
}

fn trip(id: &str, mask: u32) -> TripIR {
    TripIR {
        trip_id: s(id),
        stop_times: KeyedMap::new(),
        headsign: None,
        shape_id: None,
        direction: None,
        mask_start_date: s("20250401"),
        date_mask: mask,
    }
}

/// A snapshot with one route `A` that holds the trips `t0` to `t<n-1>`, and
/// one shape.
fn snapshot(n: u32) -> ScheduleIR {
    let trips = (0..n).map(|i| (format!("t{}", i), trip(&format!("t{}", i), i + 1))).collect();
    ScheduleIR {
        routes: map_of(vec![(s("A"), RouteIR { route_id: s("A"), trips: map_of(trips) })]),
        shapes: map_of(vec![(s("sh"), Shape { shape_id: Some(s("sh")), points: vec![] })]),
        stops: KeyedMap::new(),
    }
}

fn other_routes() -> ScheduleIR {
    ScheduleIR {
        routes: map_of(vec![(s("B"), RouteIR { route_id: s("B"), trips: KeyedMap::new() })]),
        shapes: KeyedMap::new(),
        stops: KeyedMap::new(),
    }
}

fn timestamps(store: &HistoryStore) -> Vec<u32> {
    (0..store.len()).map(|i| store.timestamp_at(i)).collect()
}

#[test]
fn history_starts_empty() {
    let store = HistoryStore::new();
    assert_eq!(store.len(), 0);
    assert_eq!(store.get_last_update(), None);
    assert!(store.full().is_none());
    assert!(store.delta(0).is_none());
    assert!(store.verify_global_state());
    assert!(matches!(
        ScheduleService::default().get_schedule(&store, ScheduleRequest { timestamp: None }),
        Err(ScheduleError::NotReady)
    ));
}

#[test]
fn history_is_bounded_and_ordered_after_any_commits() {
    let mut store = HistoryStore::new();
    for i in 0..25u32 {
        let report = store.commit(snapshot(i % 4), 100 + 10 * i).unwrap();
        assert_eq!(report.mismatches, 0);
        assert!(store.len() <= MAX_HISTORY_LEN);
        assert_eq!(store.len(), std::cmp::min(i as usize + 1, 10));
        let stamps = timestamps(&store);
        assert!(stamps.windows(2).all(|w| w[0] < w[1]));
        assert_eq!(*stamps.last().unwrap(), 100 + 10 * i);
        assert_eq!(store.get_last_update(), Some(100 + 10 * i));
        for t in 0..400u32 {
            assert_eq!(store.delta(t).is_some(), stamps.contains(&t));
        }
        assert!(store.verify_global_state());
    }
    assert_eq!(timestamps(&store), (15..25).map(|i| 100 + 10 * i).collect::<Vec<u32>>());
}

#[test]
fn history_keeps_for_each_snapshot_the_delta_to_the_newest() {
    let mut store = HistoryStore::new();
    for i in 0..12u32 {
        store.commit(snapshot(i), 1000 + i).unwrap();
    }
    let newest = snapshot(11);
    assert_eq!(store.snapshot_at(store.len() - 1), &newest);
    let full: FullSchedule = newest.clone().into();
    assert_eq!(store.full(), Some(&full));
    for i in 0..store.len() {
        let old = store.snapshot_at(i);
        assert_eq!(old, &snapshot(i as u32 + 2));
        let direct = newest.get_diff(old).unwrap();
        assert_eq!(store.update_at(i), &direct);
        assert_eq!(&direct.apply_to_schedule(old.clone()).unwrap(), &newest);
        let wire: ScheduleDiff = direct.into();
        assert_eq!(store.delta(store.timestamp_at(i)), Some(&wire));
    }
}

#[test]
fn committing_the_same_snapshot_twice_gives_an_empty_delta() {
    let mut store = HistoryStore::new();
    store.commit(snapshot(3), 10).unwrap();
    store.commit(snapshot(3), 20).unwrap();
    let nothing: ScheduleDiff = ScheduleUpdate::default().into();
    assert_eq!(store.delta(10), Some(&nothing));
    assert_eq!(store.delta(20), Some(&nothing));
    let delta = store.delta(10).unwrap();
    assert!(delta.added_trips.is_empty());
    assert!(delta.removed_trip_ids.is_empty());
    assert!(delta.added_shapes.is_empty());
    assert!(delta.removed_shape_ids.is_empty());
    assert!(delta.added_stops.is_empty());
    assert!(delta.removed_stop_ids.is_empty());
    assert_eq!(store.update_at(0), &ScheduleUpdate::default());
    assert_eq!(store.update_at(1), &ScheduleUpdate::default());
}

#[test]
fn commit_with_a_stale_timestamp_changes_nothing() {
    let mut store = HistoryStore::new();
    store.commit(snapshot(1), 50).unwrap();
    store.commit(snapshot(2), 60).unwrap();
    for stale in [0u32, 59, 60] {
        assert!(matches!(store.commit(snapshot(3), stale), Err(ScheduleError::StaleTimestamp)));
        assert_eq!(timestamps(&store), vec![50, 60]);
        assert_eq!(store.snapshot_at(1), &snapshot(2));
        assert!(store.delta(stale).is_none() || stale == 60);
    }
    assert!(store.commit(snapshot(3), 61).is_ok());
    // the first commit may carry any timestamp
    let mut store = HistoryStore::new();
    assert!(store.commit(snapshot(1), 0).is_ok());
}

#[test]
fn commit_with_other_routes_changes_nothing() {
    let mut store = HistoryStore::new();
    store.commit(snapshot(1), 50).unwrap();
    let full_before = store.full().cloned();
    match store.commit(other_routes(), 60) {
        Err(ScheduleError::NewRoute(id)) => assert_eq!(id, "B"),
        other => panic!("unexpected: {:?}", other.map(|r| r.mismatches)),
    }
    assert_eq!(timestamps(&store), vec![50]);
    assert_eq!(store.full().cloned(), full_before);
    assert!(store.delta(60).is_none());
    let mut none = snapshot(1);
    none.routes.remove(&s("A"));
    match store.commit(none, 60) {
        Err(ScheduleError::RemovedRoute(id)) => assert_eq!(id, "A"),
        other => panic!("unexpected: {:?}", other.map(|r| r.mismatches)),
    }
    assert_eq!(timestamps(&store), vec![50]);
}

#[test]
fn commit_reports_snapshots_whose_folded_delta_goes_astray() {
    // a route that is filed under another id than its own cannot be rebuilt
    // from deltas, which never touch the route itself
    let tangled = |name: &str| ScheduleIR {
        routes: map_of(vec![(s("A"), RouteIR { route_id: s(name), trips: KeyedMap::new() })]),
        shapes: KeyedMap::new(),
        stops: KeyedMap::new(),
    };
    let mut store = HistoryStore::new();
    assert_eq!(store.commit(tangled("x"), 1).unwrap().mismatches, 0);
    assert_eq!(store.commit(tangled("y"), 2).unwrap().mismatches, 1);
    assert_eq!(store.commit(tangled("y"), 3).unwrap().mismatches, 1);
    assert_eq!(timestamps(&store), vec![1, 2, 3]);
}

#[test]
fn service_answers_with_a_delta_or_the_full_schedule() {
    let service = ScheduleService::default();
    let mut store = HistoryStore::new();
    assert!(matches!(
        service.get_schedule(&store, ScheduleRequest { timestamp: Some(5) }),
        Err(ScheduleError::NotReady)
    ));
    assert_eq!(service.get_last_update(&store).timestamp, None);

    store.commit(snapshot(1), 100).unwrap();
    store.commit(snapshot(3), 200).unwrap();
    assert_eq!(service.get_last_update(&store).timestamp, Some(200));

    let known = service.get_schedule(&store, ScheduleRequest { timestamp: Some(100) }).unwrap();
    assert_eq!(known.timestamp, Some(200));
    assert!(known.full_schedule.is_none());
    let delta = known.schedule_diff.unwrap();
    assert_eq!(
        delta.added_trips,
        vec![
            TripExt { trip: Some(trip("t1", 2).into()), route_id: Some(s("A")) },
            TripExt { trip: Some(trip("t2", 3).into()), route_id: Some(s("A")) },
        ]
    );
    assert_eq!(delta.removed_trip_ids, Vec::<TripIdTuple>::new());

    let newest = service.get_schedule(&store, ScheduleRequest { timestamp: Some(200) }).unwrap();
    assert_eq!(newest.schedule_diff, Some(ScheduleUpdate::default().into()));

    for unknown in [None, Some(0), Some(150), Some(201)] {
        let answer = service.get_schedule(&store, ScheduleRequest { timestamp: unknown }).unwrap();
        assert_eq!(answer.timestamp, Some(200));
        assert!(answer.schedule_diff.is_none());
        assert_eq!(answer.full_schedule, Some(snapshot(3).into()));
    }
}

#[test]
fn a_client_without_a_timestamp_counts_as_one_with_zero() {
    let mut store = HistoryStore::new();
    store.commit(snapshot(1), 0).unwrap();
    store.commit(snapshot(2), 7).unwrap();
    let answer = ScheduleService::default()
        .get_schedule(&store, ScheduleRequest { timestamp: None })
        .unwrap();
    assert!(answer.full_schedule.is_none());
    assert_eq!(answer.schedule_diff, Some(snapshot(2).get_diff(&snapshot(1)).unwrap().into()));
}

#[test]
fn wire_delta_lists_removed_trips_with_route_and_trip() {
    let update = snapshot(1).get_diff(&snapshot(3)).unwrap();
    let wire: ScheduleDiff = update.into();
    assert_eq!(
        wire.removed_trip_ids,
        vec![
            TripIdTuple { route_id: Some(s("A")), trip_id: Some(s("t1")) },
            TripIdTuple { route_id: Some(s("A")), trip_id: Some(s("t2")) },
        ]
    );
    assert!(wire.added_trips.is_empty());
}

fn answer(body: &[u8]) -> CachedResponse {
    CachedResponse {
        body: body.to_vec(),
        headers: vec![(s("content-type"), b"application/grpc".to_vec())],
        trailers: vec![(s("grpc-status"), b"0".to_vec())],
    }
}

/// Serves one request through the cacher and says whether it was forwarded.
fn serve(
    cacher: &mut Cacher,
    report: OriginReport,
    body: &[u8],
    upstream: &CachedResponse,
) -> (bool, CachedResponse) {
    let report_is_news =
        !matches!(report, OriginReport::Timestamp(time) if time == cacher.last_update_time());
    let (stage, action) =
        cacher.step(Stage::Start, Event::Request(s("/db_transit.Schedule/GetSchedule")));
    assert!(matches!(action, Action::AskOrigin));
    let (stage, action) = cacher.step(stage, Event::Origin(report));
    match action {
        Action::ReadBody { cleared } => assert_eq!(cleared, report_is_news),
        other => panic!("unexpected: {:?}", other),
    }
    let (stage, action) = cacher.step(stage, Event::Body(body.to_vec()));
    match action {
        Action::Respond(given) => {
            assert!(matches!(stage, Stage::Done));
            (false, given)
        }
        Action::Forward(bytes) => {
            assert_eq!(bytes, body);
            let room = cacher.len() < MAX_CACHE_ENTRIES;
            let (stage, action) = cacher.step(stage, Event::Upstream(upstream.clone()));
            assert!(matches!(stage, Stage::Done));
            match action {
                Action::Deliver { answer, remembered } => {
                    assert_eq!(remembered, room);
                    assert_eq!(cacher.get(&body.to_vec()).is_some(), remembered);
                    (true, answer)
                }
                other => panic!("unexpected: {:?}", other),
            }
        }
        other => panic!("unexpected: {:?}", other),
    }
}

#[test]
fn cacher_serves_from_cache_until_the_origin_has_news() {
    let mut cacher = Cacher::new();
    let first = answer(b"first");
    let second = answer(b"second");

    // the first request learns the time of the origin and is forwarded
    let (forwarded, given) = serve(&mut cacher, OriginReport::Timestamp(100), b"req", &first);
    assert!(forwarded);
    assert_eq!(given, first);
    assert_eq!(cacher.len(), 1);
    assert_eq!(cacher.last_update_time(), 100);

    // the same bytes are now served from the cache
    let (forwarded, given) = serve(&mut cacher, OriginReport::Timestamp(100), b"req", &second);
    assert!(!forwarded);
    assert_eq!(given, first);

    // other bytes are not
    let (forwarded, _) = serve(&mut cacher, OriginReport::Timestamp(100), b"req2", &second);
    assert!(forwarded);
    assert_eq!(cacher.len(), 2);

    // news at the origin drop the cache
    let (forwarded, given) = serve(&mut cacher, OriginReport::Timestamp(101), b"req", &second);
    assert!(forwarded);
    assert_eq!(given, second);
    assert_eq!(cacher.len(), 1);
    assert_eq!(cacher.last_update_time(), 101);
    let (forwarded, given) = serve(&mut cacher, OriginReport::Timestamp(101), b"req", &first);
    assert!(!forwarded);
    assert_eq!(given, second);
}

#[test]
fn cacher_drops_everything_when_the_origin_cannot_tell_the_time() {
    for report in [OriginReport::NotConnected, OriginReport::Failed, OriginReport::NoTimestamp] {
        let mut cacher = Cacher::new();
        assert!(!cacher.check_cache_validity(OriginReport::Timestamp(0)));
        assert!(cacher.check_cache_validity(OriginReport::Timestamp(9)));
        assert!(cacher.add_cached_value(b"k".to_vec(), answer(b"v")));
        assert!(!cacher.check_cache_validity(OriginReport::Timestamp(9)));
        assert_eq!(cacher.len(), 1);
        assert!(cacher.check_cache_validity(report));
        assert_eq!(cacher.len(), 0);
        assert_eq!(cacher.last_update_time(), 0);
        assert!(cacher.get(&b"k".to_vec()).is_none());
    }
}

#[test]
fn cacher_does_not_remember_more_than_it_holds() {
    let mut cacher = Cacher::new();
    for i in 0..MAX_CACHE_ENTRIES {
        assert!(cacher.add_cached_value(vec![i as u8], answer(&[i as u8])));
    }
    assert_eq!(cacher.len(), 20);
    assert!(!cacher.add_cached_value(vec![99], answer(b"late")));
    assert!(!cacher.add_cached_value(vec![0], answer(b"again")));
    assert_eq!(cacher.len(), 20);
    assert!(cacher.get(&vec![99]).is_none());
    assert_eq!(cacher.get(&vec![0]), Some(&answer(&[0])));
    assert_eq!(cacher.get(&vec![19]), Some(&answer(&[19])));
    // a forwarded answer is still given while the cache is full
    let (forwarded, given) = serve(&mut cacher, OriginReport::Timestamp(0), b"x", &answer(b"y"));
    assert!(forwarded);
    assert_eq!(given, answer(b"y"));
    assert_eq!(cacher.len(), 20);
}

#[test]
fn cacher_rejects_other_paths() {
    assert!(is_served_path("/db_transit.Schedule/GetSchedule"));
    assert!(!is_served_path("/db_transit.Schedule/GetLastUpdate"));
    assert!(!is_served_path("/db_transit.Schedule/GetSchedule/"));
    assert!(!is_served_path(""));
    let mut cacher = Cacher::new();
    cacher.add_cached_value(b"k".to_vec(), answer(b"v"));
    let (stage, action) = cacher.step(Stage::Start, Event::Request(s("/other")));
    assert!(matches!(stage, Stage::Done));
    match action {
        Action::Reject(error) => {
            assert!(matches!(&error, ScheduleError::UnsupportedEndpoint(path) if path == "/other"));
            assert_eq!(error.message(), "Endpoint not supported: /other");
        }
        other => panic!("unexpected: {:?}", other),
    }
    assert_eq!(cacher.len(), 1);
}

#[test]
fn cacher_ends_on_an_event_that_does_not_fit() {
    let mut cacher = Cacher::new();
    cacher.add_cached_value(b"k".to_vec(), answer(b"v"));
    let cases = vec![
        (Stage::Start, Event::Body(vec![1])),
        (Stage::Start, Event::Origin(OriginReport::Failed)),
        (Stage::AwaitingOrigin, Event::Request(s("/db_transit.Schedule/GetSchedule"))),
        (Stage::AwaitingBody, Event::Upstream(answer(b"v"))),
        (Stage::AwaitingUpstream(vec![1]), Event::Body(vec![1])),
        (Stage::Done, Event::Request(s("/db_transit.Schedule/GetSchedule"))),
    ];
    for (stage, event) in cases {
        let (stage, action) = cacher.step(stage, event);
        assert!(matches!(stage, Stage::Done));
        assert!(matches!(action, Action::Reject(ScheduleError::RawError(_))));
        assert_eq!(cacher.len(), 1);
    }
}

fn at(hour: u32, minute: u32, second: u32) -> LocalTime {
    LocalTime {
        timestamp: 1_743_480_000 + (hour * 3600 + minute * 60 + second) as i64,
        date: CalendarDate { year: 2025, month: 4, day: 1 },
        hour,
        minute,
        second,
    }
}

#[test]
fn next_update_falls_on_the_next_interval() {
    assert_eq!(INTERVAL_M, 1);
    assert_eq!(LAST_VALID, 59);
    let next = |h, m, sec| get_next_update(&at(h, m, sec)).unwrap();
    let same = |n: NextUpdate| (n.next_day, n.hour, n.minute, n.delay);
    assert_eq!(same(next(17, 5, 0)), (false, 17, 6, 60));
    assert_eq!(same(next(17, 5, 59)), (false, 17, 6, 1));
    assert_eq!(same(next(17, 58, 30)), (false, 17, 59, 30));
    assert_eq!(same(next(17, 59, 30)), (false, 18, 0, 30));
    assert_eq!(same(next(0, 0, 0)), (false, 0, 1, 60));
    assert_eq!(same(next(22, 59, 59)), (false, 23, 0, 1));
    assert_eq!(same(next(23, 58, 0)), (false, 23, 59, 60));
    assert_eq!(same(next(23, 59, 0)), (true, 0, 0, 60));
    assert_eq!(same(next(23, 59, 59)), (true, 0, 0, 1));
    assert!(get_next_update(&at(24, 0, 0)).is_none());
    assert!(get_next_update(&at(0, 60, 0)).is_none());
    assert!(get_next_update(&at(0, 0, 60)).is_none());
}

#[test]
fn updater_fetches_at_once_and_then_when_due() {
    let mut updater = Updater::new();
    assert!(updater.is_due(0));
    assert!(updater.is_due(i64::MIN));
    let now = at(17, 59, 30);
    updater.plan_next(&now);
    assert!(!updater.is_due(now.timestamp));
    assert!(!updater.is_due(now.timestamp + 29));
    assert!(updater.is_due(now.timestamp + 30));
    assert!(updater.is_due(now.timestamp + 31));
    updater.plan_next(&at(25, 0, 0));
    assert!(updater.is_due(i64::MIN));
    updater.plan_next(&LocalTime { timestamp: i64::MAX, ..at(1, 0, 0) });
    assert!(updater.is_due(i64::MIN));
}

#[test]
fn updater_knows_a_bundle_by_its_digest() {
    let mut updater = Updater::new();
    let digest = updater.bundle_is_new(b"").unwrap();
    let expected: Vec<u8> = vec![
        0xaf, 0x13, 0x49, 0xb9, 0xf5, 0xf9, 0xa1, 0xa6, 0xa0, 0x40, 0x4d, 0xea, 0x36, 0xdc, 0xc9,
        0x49, 0x9b, 0xcb, 0x25, 0xc9, 0xad, 0xc1, 0x12, 0xb7, 0xcc, 0x9a, 0x93, 0xca, 0xe4, 0x1f,
        0x32, 0x62,
    ];
    assert_eq!(digest, expected);
    assert!(updater.digest_is_new(&digest));

    // the first snapshot is new
    let fresh = updater.record(snapshot(1), digest.clone());
    assert_eq!(fresh, Some(snapshot(1)));
    assert!(!updater.digest_is_new(&digest));
    assert!(updater.bundle_is_new(b"").is_none());

    // another bundle with the same schedule is a new digest and no new snapshot
    let other = updater.bundle_is_new(b"other bytes").unwrap();
    assert_ne!(other, digest);
    assert_eq!(other.len(), 32);
    assert_eq!(updater.record(snapshot(1), other.clone()), None);
    assert!(updater.bundle_is_new(b"other bytes").is_none());
    assert!(updater.bundle_is_new(b"").is_some());

    // another schedule is a new snapshot
    assert_eq!(updater.record(snapshot(2), digest.clone()), Some(snapshot(2)));
    assert_eq!(updater.record(snapshot(2), digest), None);
}

#[test]
fn clock_of_new_york_shows_a_time_of_day() {
    let now = get_nyc_datetime().unwrap();
    assert!(now.timestamp > 1_700_000_000);
    assert!(now.date.year >= 2023);
    assert!((1..=12).contains(&now.date.month));
    assert!((1..=31).contains(&now.date.day));
    assert!(now.hour < 24 && now.minute < 60 && now.second < 60);
    assert!(get_next_update(&now).is_some());
}

#[test]
fn log_line_names_time_severity_and_words() {
    let entry = LogEntry::new(s("Cache is full, refusing to add another entry"), Severity::Warning);
    assert_eq!(entry.sev, Severity::Warning);
    assert_eq!(
        entry.line("12:34:56"),
        "12:34:56: [WARN] - Cache is full, refusing to add another entry\n"
    );
    assert_eq!(LogEntry::new(s(""), Severity::Debug).line(""), ": [DBG] - \n");
    assert_eq!(Severity::Debug.label(), "DBG");
    assert_eq!(Severity::Information.label(), "INFO");
    assert_eq!(Severity::Warning.label(), "WARN");
    assert_eq!(Severity::Error.label(), "ERR");
    assert_eq!(Severity::Critical.label(), "CRIT");
    assert!(Severity::Debug < Severity::Information);
    assert!(Severity::Error < Severity::Critical);
    assert_eq!(Logger::new("./cacher.log").file_name, "./cacher.log");
}

#[test]
fn errors_say_what_went_wrong() {
    assert_eq!(ScheduleError::NewRoute(s("A")).message(), "Unexpected new route: A");
    assert_eq!(ScheduleError::RemovedRoute(s("B")).message(), "Unexpected removed route: B");
    assert_eq!(
        ScheduleError::UnknownRoute(s("C")).message(),
        "Unable to find route in schedule: C"
    );
    assert_eq!(ScheduleError::UnexpectedDiffState.message(), "Unexpected situation with diffs");
    assert_eq!(ScheduleError::InvalidWindow.message(), "Unable to walk the date window");
    assert_eq!(
        ScheduleError::StaleTimestamp.message(),
        "Snapshot is not newer than the history"
    );
    assert_eq!(ScheduleError::NotReady.message(), "Unable to find data");
    assert_eq!(
        ScheduleError::UnsupportedEndpoint(s("/x")).message(),
        "Endpoint not supported: /x"
    );
    assert_eq!(ScheduleError::RawError(s("Unable to parse server response")).message(), "Unable to parse server response");
}

#[test]
fn clock_reading_is_shown_as_new_york_sees_it() {
    // 2025-04-01 04:00:00 in universal time is midnight in New York
    let shown = nyc_datetime_at(Some(1_743_480_000)).unwrap();
    assert_eq!(shown.timestamp, 1_743_480_000);
    assert_eq!(shown.date, CalendarDate { year: 2025, month: 4, day: 1 });
    assert_eq!((shown.hour, shown.minute, shown.second), (0, 0, 0));
    let shown = nyc_datetime_at(Some(1_743_480_000 - 1)).unwrap();
    assert_eq!(shown.date, CalendarDate { year: 2025, month: 3, day: 31 });
    assert_eq!((shown.hour, shown.minute, shown.second), (23, 59, 59));
    // in winter New York is five hours behind
    let shown = nyc_datetime_at(Some(1_736_744_400 + 3_723)).unwrap();
    assert_eq!(shown.date, CalendarDate { year: 2025, month: 1, day: 13 });
    assert_eq!((shown.hour, shown.minute, shown.second), (1, 2, 3));
    let shown = nyc_datetime_at(Some(0)).unwrap();
    assert_eq!(shown.date, CalendarDate { year: 1969, month: 12, day: 31 });
    assert_eq!((shown.hour, shown.minute, shown.second), (19, 0, 0));
    assert!(nyc_datetime_at(None).is_none());
    assert!(nyc_datetime_at(Some(u64::MAX)).is_none());
    assert!(nyc_datetime_at(Some(i64::MAX as u64)).is_none());
}

#[test]
fn new_history_holds_nothing_and_is_sound() {
    let store = HistoryStore::new();
    assert_eq!(store.len(), 0);
    assert_eq!(store.get_last_update(), None);
    assert!(store.full().is_none());
    for t in [0u32, 1, u32::MAX] {
        assert!(store.delta(t).is_none());
    }
    assert!(store.verify_global_state());
    let mut store = store;
    store.commit(snapshot(2), u32::MAX).unwrap();
    assert_eq!(store.len(), 1);
    assert_eq!(store.snapshot_at(0), &snapshot(2));
    assert!(store.verify_global_state());
}
