use transit_server::diff::{ScheduleUpdate, TripStopTimesUpdate};
use transit_server::error::ScheduleError;
use transit_server::ir::{RouteIR, ScheduleIR, TripIR};
use transit_server::item::Item;
use transit_server::keyed::{KeyedMap, KeyedSet};
use transit_server::messages::{
    FullSchedule, Position, RouteTripsDiff, Shape, Stop, StopTime, TripStopTimesDiff,
};

fn map_of<T: Item, U: Item>(entries: Vec<(T, U)>) -> KeyedMap<T, U> {
    let mut map = KeyedMap::new();
    for (key, value) in entries {
        map.insert(key, value);
    }
    map
}

fn set_of<T: Item>(items: Vec<T>) -> KeyedSet<T> {
    let mut set = KeyedSet::new();
    for item in items {
        set.insert(item);
    }
    set
}

fn s(text: &str) -> String {
    text.to_owned()
}

fn call(sequence: u32, stop: &str, arrival: u32) -> StopTime {
    StopTime {
        stop_id: Some(s(stop)),
        arrival_time: Some(arrival),
        departure_time: Some(arrival + 30),
        stop_sequence: Some(sequence),
    }
}

fn trip(id: &str, headsign: &str, calls: Vec<StopTime>) -> TripIR {
    TripIR {
        trip_id: s(id),
        stop_times: map_of(calls.into_iter().map(|c| (c.stop_sequence.unwrap(), c)).collect()),
        headsign: Some(s(headsign)),
        shape_id: None,
        direction: Some(0),
        mask_start_date: s("20250401"),
        date_mask: 5,
    }
}

fn route(id: &str, trips: Vec<TripIR>) -> RouteIR {
    RouteIR {
        route_id: s(id),
        trips: map_of(trips.into_iter().map(|t| (t.trip_id.clone(), t)).collect()),
    }
}

fn shape(id: &str, lat: f64) -> Shape {
    Shape {
        shape_id: Some(s(id)),
        points: vec![Position { lat: Some(lat.to_bits()), lon: Some(2.5f64.to_bits()) }],
    }
}

fn stop(id: &str, name: &str) -> Stop {
    Stop {
        stop_id: Some(s(id)),
        stop_name: Some(s(name)),
        parent_stop_id: None,
        transfers_from: vec![],
        position: None,
        route_ids: vec![],
    }
}

fn snapshot(routes: Vec<RouteIR>, shapes: Vec<Shape>, stops: Vec<Stop>) -> ScheduleIR {
    ScheduleIR {
        routes: map_of(routes.into_iter().map(|r| (r.route_id.clone(), r)).collect()),
        shapes: map_of(shapes.into_iter().map(|x| (x.shape_id.clone().unwrap(), x)).collect()),
        stops: map_of(stops.into_iter().map(|x| (x.stop_id.clone().unwrap(), x)).collect()),
    }
}

fn snapshot_a() -> ScheduleIR {
    snapshot(
        vec![
            route(
                "A",
                vec![
                    trip("a1", "North", vec![call(1, "s1", 100), call(2, "s2", 200)]),
                    trip("a2", "North", vec![call(1, "s1", 300)]),
                ],
            ),
            route("B", vec![trip("b1", "East", vec![call(1, "s2", 50)])]),
        ],
        vec![shape("sh1", 1.0), shape("sh2", 2.0)],
        vec![stop("s1", "First"), stop("s2", "Second")],
    )
}

fn snapshot_b() -> ScheduleIR {
    snapshot(
        vec![
            route(
                "A",
                vec![
                    trip("a1", "North", vec![call(1, "s1", 100), call(3, "s3", 260)]),
                    trip("a3", "South", vec![call(1, "s3", 10)]),
                ],
            ),
            route("B", vec![trip("b1", "East", vec![call(1, "s2", 50)])]),
        ],
        vec![shape("sh2", 2.0), shape("sh3", 3.0)],
        vec![stop("s1", "First"), stop("s2", "Renamed"), stop("s3", "Third")],
    )
}

fn snapshot_c() -> ScheduleIR {
    snapshot(
        vec![
            route("A", vec![trip("a2", "North", vec![call(1, "s1", 300)])]),
            route(
                "B",
                vec![
                    trip("b1", "West", vec![call(1, "s2", 50)]),
                    trip("b2", "East", vec![]),
                ],
            ),
        ],
        vec![shape("sh1", 9.0)],
        vec![stop("s3", "Third"), stop("s4", "Fourth")],
    )
}

#[test]
fn diff_of_a_snapshot_with_itself_is_empty() {
    for snapshot in [snapshot_a(), snapshot_b(), snapshot_c()] {
        let update = snapshot.get_diff(&snapshot.clone()).unwrap();
        assert_eq!(update, ScheduleUpdate::default());
        assert_eq!(update.added_trips.len(), 0);
        assert_eq!(update.removed_trip_ids.len(), 0);
        assert_eq!(update.added_shapes.len(), 0);
        assert_eq!(update.removed_shape_ids.len(), 0);
        assert_eq!(update.added_stops.len(), 0);
        assert_eq!(update.removed_stop_ids.len(), 0);
    }
}

#[test]
fn applying_a_diff_to_the_older_snapshot_gives_the_newer() {
    let all = [snapshot_a(), snapshot_b(), snapshot_c()];
    for newer in all.iter() {
        for older in all.iter() {
            let update = newer.get_diff(older).unwrap();
            let rebuilt = update.apply_to_schedule(older.clone()).unwrap();
            assert_eq!(&rebuilt, newer);
        }
    }
}

#[test]
fn combined_diffs_lead_from_the_first_snapshot_to_the_third() {
    let all = [snapshot_a(), snapshot_b(), snapshot_c()];
    for a in all.iter() {
        for b in all.iter() {
            for c in all.iter() {
                let first = b.get_diff(a).unwrap();
                let second = c.get_diff(b).unwrap();
                let combo = first.combine(&second).unwrap();
                let reached = combo.apply_to_schedule(a.clone()).unwrap();
                assert_eq!(&reached, c);
                let stepwise = second
                    .apply_to_schedule(first.apply_to_schedule(a.clone()).unwrap())
                    .unwrap();
                assert_eq!(reached, stepwise);
            }
        }
    }
}

#[test]
fn diff_between_a_and_b_names_exactly_what_changed() {
    let a = snapshot_a();
    let b = snapshot_b();
    let update = b.get_diff(&a).unwrap();

    assert_eq!(update.removed_shape_ids, set_of(vec![s("sh1")]));
    assert_eq!(update.added_shapes, map_of(vec![(s("sh3"), shape("sh3", 3.0))]));
    assert_eq!(update.removed_stop_ids, set_of(vec![s("s2")]));
    assert_eq!(
        update.added_stops,
        map_of(vec![(s("s2"), stop("s2", "Renamed")), (s("s3"), stop("s3", "Third"))])
    );
    assert_eq!(
        update.removed_trip_ids,
        set_of(vec![(s("A"), s("a1")), (s("A"), s("a2"))])
    );
    assert_eq!(
        update.added_trips,
        map_of(vec![
            (
                (s("A"), s("a1")),
                trip("a1", "North", vec![call(1, "s1", 100), call(3, "s3", 260)])
            ),
            ((s("A"), s("a3")), trip("a3", "South", vec![call(1, "s3", 10)])),
        ])
    );
}

#[test]
fn trip_with_changed_stop_times_is_removed_and_added_under_its_pair() {
    let older = snapshot(
        vec![route("R", vec![trip("T", "Sign", vec![call(12, "x", 10), call(22, "y", 20)])])],
        vec![],
        vec![],
    );
    let newer_trip = trip("T", "Sign", vec![call(12, "y", 20), call(22, "y", 20), call(13, "z", 30)]);
    let newer = snapshot(vec![route("R", vec![newer_trip.clone()])], vec![], vec![]);

    let (added_trips, removed_trip_ids) = newer.get_trip_diffs(&older).unwrap();

    assert_eq!(added_trips, map_of(vec![((s("R"), s("T")), newer_trip)]));
    assert_eq!(removed_trip_ids, set_of(vec![(s("R"), s("T"))]));
    assert_eq!(added_trips.key_at(0), &(s("R"), s("T")));
}

#[test]
fn diff_fails_on_a_new_route() {
    let older = snapshot(vec![route("A", vec![])], vec![], vec![]);
    let newer = snapshot(vec![route("A", vec![]), route("B", vec![])], vec![], vec![]);
    match newer.get_diff(&older) {
        Err(ScheduleError::NewRoute(id)) => assert_eq!(id, "B"),
        other => panic!("unexpected: {:?}", other.map(|_| ())),
    }
    match newer.get_trip_diffs(&older) {
        Err(ScheduleError::NewRoute(id)) => assert_eq!(id, "B"),
        other => panic!("unexpected: {:?}", other.map(|_| ())),
    }
}

#[test]
fn diff_fails_on_a_removed_route() {
    let older = snapshot(vec![route("A", vec![]), route("B", vec![])], vec![], vec![]);
    let newer = snapshot(vec![route("B", vec![])], vec![], vec![]);
    match newer.get_diff(&older) {
        Err(ScheduleError::RemovedRoute(id)) => assert_eq!(id, "A"),
        other => panic!("unexpected: {:?}", other.map(|_| ())),
    }
}

#[test]
fn apply_fails_on_a_trip_of_an_unknown_route() {
    let base = snapshot(vec![route("A", vec![])], vec![], vec![]);
    let mut adding = ScheduleUpdate::default();
    adding.added_trips.insert((s("Z"), s("t")), trip("t", "Sign", vec![]));
    match adding.apply_to_schedule(base.clone()) {
        Err(ScheduleError::UnknownRoute(id)) => assert_eq!(id, "Z"),
        other => panic!("unexpected: {:?}", other.map(|_| ())),
    }
    let mut removing = ScheduleUpdate::default();
    removing.removed_trip_ids.insert((s("Y"), s("t")));
    match removing.apply_to_schedule(base) {
        Err(ScheduleError::UnknownRoute(id)) => assert_eq!(id, "Y"),
        other => panic!("unexpected: {:?}", other.map(|_| ())),
    }
}

#[test]
fn apply_removes_before_it_adds() {
    let base = snapshot(
        vec![route("A", vec![trip("a1", "Old", vec![])])],
        vec![shape("sh1", 1.0)],
        vec![stop("s1", "Old")],
    );
    let update = ScheduleUpdate {
        added_trips: map_of(vec![((s("A"), s("a1")), trip("a1", "New", vec![]))]),
        removed_trip_ids: set_of(vec![(s("A"), s("a1")), (s("A"), s("gone"))]),
        added_shapes: map_of(vec![(s("sh1"), shape("sh1", 7.0))]),
        removed_shape_ids: set_of(vec![s("sh1")]),
        added_stops: map_of(vec![(s("s2"), stop("s2", "New"))]),
        removed_stop_ids: set_of(vec![s("s1")]),
    };
    let after = update.apply_to_schedule(base).unwrap();
    let expected = snapshot(
        vec![route("A", vec![trip("a1", "New", vec![])])],
        vec![shape("sh1", 7.0)],
        vec![stop("s2", "New")],
    );
    assert_eq!(after, expected);
}

#[test]
fn combine_fails_on_states_that_cannot_occur() {
    let add_only = |id: &str| {
        let mut u = ScheduleUpdate::default();
        u.added_stops.insert(s(id), stop(id, "x"));
        u
    };
    let remove_only = |id: &str| {
        let mut u = ScheduleUpdate::default();
        u.removed_stop_ids.insert(s(id));
        u
    };
    // added by both, removed by neither
    assert!(matches!(
        add_only("k").combine(&add_only("k")),
        Err(ScheduleError::UnexpectedDiffState)
    ));
    // removed by both, added by neither
    assert!(matches!(
        remove_only("k").combine(&remove_only("k")),
        Err(ScheduleError::UnexpectedDiffState)
    ));
    // removed and added by the first, added again by the second
    let mut both = add_only("k");
    both.removed_stop_ids.insert(s("k"));
    assert!(matches!(both.combine(&add_only("k")), Err(ScheduleError::UnexpectedDiffState)));
    // the same for shapes and trips
    let mut shapes = ScheduleUpdate::default();
    shapes.removed_shape_ids.insert(s("sh"));
    assert!(matches!(shapes.combine(&shapes.clone()), Err(ScheduleError::UnexpectedDiffState)));
    let mut trips = ScheduleUpdate::default();
    trips.added_trips.insert((s("A"), s("t")), trip("t", "x", vec![]));
    assert!(matches!(trips.combine(&trips.clone()), Err(ScheduleError::UnexpectedDiffState)));
    // different ids do not collide
    assert!(add_only("k").combine(&add_only("j")).is_ok());
}

#[test]
fn combine_follows_the_table() {
    // every state that can occur, one stop id per state
    let mut first = ScheduleUpdate::default();
    let mut second = ScheduleUpdate::default();
    let states: [(&str, bool, bool, bool, bool); 12] = [
        ("0001", false, false, false, true),
        ("0010", false, false, true, false),
        ("0100", false, true, false, false),
        ("0101", false, true, false, true),
        ("0110", false, true, true, false),
        ("0111", false, true, true, true),
        ("1000", true, false, false, false),
        ("1001", true, false, false, true),
        ("1010", true, false, true, false),
        ("1101", true, true, false, true),
        ("1110", true, true, true, false),
        ("1111", true, true, true, true),
    ];
    for (id, r1, r2, a1, a2) in states {
        if r1 {
            first.removed_stop_ids.insert(s(id));
        }
        if r2 {
            second.removed_stop_ids.insert(s(id));
        }
        if a1 {
            first.added_stops.insert(s(id), stop(id, "first"));
        }
        if a2 {
            second.added_stops.insert(s(id), stop(id, "second"));
        }
    }
    let combo = first.combine(&second).unwrap();
    assert_eq!(
        combo.removed_stop_ids,
        set_of(
            ["0100", "0101", "0111", "1000", "1001", "1010", "1101", "1110", "1111"]
                .iter()
                .map(|id| s(id))
                .collect()
        )
    );
    assert_eq!(
        combo.added_stops,
        map_of(vec![
            (s("0001"), stop("0001", "second")),
            (s("0010"), stop("0010", "first")),
            (s("0101"), stop("0101", "second")),
            (s("0111"), stop("0111", "second")),
            (s("1001"), stop("1001", "second")),
            (s("1010"), stop("1010", "first")),
            (s("1101"), stop("1101", "second")),
            (s("1111"), stop("1111", "second")),
        ])
    );
}

#[test]
fn full_schedule_has_the_counts_of_its_snapshot() {
    for snapshot in [snapshot_a(), snapshot_b(), snapshot_c()] {
        let routes = snapshot.routes.len();
        let shapes = snapshot.shapes.len();
        let stops = snapshot.stops.len();
        let mut trips = 0;
        let mut calls = 0;
        for i in 0..snapshot.routes.len() {
            let route = snapshot.routes.value_at(i);
            trips += route.trips.len();
            for j in 0..route.trips.len() {
                calls += route.trips.value_at(j).stop_times.len();
            }
        }
        let full: FullSchedule = snapshot.into();
        assert_eq!(full.routes.len(), routes);
        assert_eq!(full.shapes.len(), shapes);
        assert_eq!(full.stops.len(), stops);
        assert_eq!(full.routes.iter().map(|r| r.trips.len()).sum::<usize>(), trips);
        assert_eq!(
            full.routes
                .iter()
                .flat_map(|r| r.trips.iter())
                .map(|t| t.stop_times.len())
                .sum::<usize>(),
            calls
        );
    }
}

#[test]
fn full_schedule_of_snapshot_a_lists_it_in_order() {
    let full: FullSchedule = snapshot_a().into();
    assert_eq!(full.routes.len(), 2);
    assert_eq!(full.routes[0].route_id, Some(s("A")));
    assert_eq!(full.routes[0].trips.len(), 2);
    assert_eq!(full.routes[0].trips[0].trip_id, Some(s("a1")));
    assert_eq!(full.routes[0].trips[0].stop_times, vec![call(1, "s1", 100), call(2, "s2", 200)]);
    assert_eq!(full.routes[0].trips[0].mask_start_date, Some(s("20250401")));
    assert_eq!(full.routes[0].trips[0].date_mask, Some(5));
    assert_eq!(full.routes[0].trips[0].headsign, Some(s("North")));
    assert_eq!(full.routes[0].trips[0].direction, Some(0));
    assert_eq!(full.routes[1].route_id, Some(s("B")));
    assert_eq!(full.shapes, vec![shape("sh1", 1.0), shape("sh2", 2.0)]);
    assert_eq!(full.stops, vec![stop("s1", "First"), stop("s2", "Second")]);
}

#[test]
fn snapshots_compare_by_what_they_hold_not_by_order() {
    let one = snapshot(vec![route("A", vec![]), route("B", vec![])], vec![], vec![]);
    let other = snapshot(vec![route("B", vec![]), route("A", vec![])], vec![], vec![]);
    assert_eq!(one, other);
    let mut changed = other.clone();
    changed.routes.insert(s("A"), route("A", vec![trip("Test Trip", "x", vec![])]));
    assert_ne!(one, changed);
}

#[test]
fn route_diff_tells_whole_trips_from_changed_calls() {
    let kept = trip("kept", "Same", vec![call(1, "s1", 10)]);
    let mut masked = trip("masked", "Same", vec![call(1, "s1", 10)]);
    let older = route(
        "R",
        vec![
            kept.clone(),
            masked.clone(),
            trip("resigned", "Old sign", vec![call(1, "s1", 10)]),
            trip("retimed", "Same", vec![call(1, "s1", 10), call(2, "s2", 20)]),
            trip("gone", "Same", vec![]),
        ],
    );
    masked.date_mask = 9;
    let resigned = trip("resigned", "New sign", vec![call(1, "s1", 10)]);
    let retimed = trip("retimed", "Same", vec![call(1, "s1", 15), call(3, "s3", 30)]);
    let new = trip("new", "Same", vec![]);
    let newer = route(
        "R",
        vec![kept.clone(), masked.clone(), resigned.clone(), retimed.clone(), new.clone()],
    );

    let update = ScheduleIR::get_route_trips_diff(&newer, &older);

    assert_eq!(update.route_id, "R");
    assert_eq!(
        update.added_trips,
        map_of(vec![
            (s("masked"), masked.clone()),
            (s("resigned"), resigned.clone()),
            (s("new"), new.clone())
        ])
    );
    assert_eq!(update.removed_trip_ids, set_of(vec![s("masked"), s("resigned"), s("gone")]));
    assert_eq!(
        update.trip_diffs,
        vec![TripStopTimesUpdate {
            trip_id: s("retimed"),
            added_stop_times: map_of(vec![(1, call(1, "s1", 15)), (3, call(3, "s3", 30))]),
            removed_stop_time_seq: set_of(vec![1, 2]),
        }]
    );

    let wire: RouteTripsDiff = update.into();
    assert_eq!(
        wire,
        RouteTripsDiff {
            route_id: Some(s("R")),
            added_trips: vec![masked.into(), resigned.into(), new.into()],
            removed_trip_ids: vec![s("masked"), s("resigned"), s("gone")],
            trip_diffs: vec![TripStopTimesDiff {
                trip_id: Some(s("retimed")),
                added_stop_times: vec![call(1, "s1", 15), call(3, "s3", 30)],
                removed_stop_seq: vec![1, 2],
            }],
        }
    );

    let same = ScheduleIR::get_route_trips_diff(&older, &older.clone());
    assert_eq!(same.added_trips.len(), 0);
    assert_eq!(same.removed_trip_ids.len(), 0);
    assert_eq!(same.trip_diffs.len(), 0);
}

#[test]
fn positions_compare_bit_for_bit() {
    let at = |lat: f64, lon: f64| Position { lat: Some(lat.to_bits()), lon: Some(lon.to_bits()) };
    assert_eq!(at(1.5, -2.5), at(1.5, -2.5));
    assert_ne!(at(1.5, -2.5), at(1.5, 2.5));
    assert_ne!(at(0.0, 0.0), at(-0.0, 0.0));
    assert_eq!(at(f64::NAN, 0.0), at(f64::NAN, 0.0));
    assert_ne!(Position { lat: None, lon: Some(0) }, Position { lat: Some(0), lon: Some(0) });
}

#[test]
fn maps_and_sets_keep_the_order_of_insertion() {
    let mut map: KeyedMap<String, u32> = KeyedMap::new();
    assert!(map.is_empty());
    assert_eq!(map.insert(s("b"), 2), None);
    assert_eq!(map.insert(s("a"), 1), None);
    assert_eq!(map.insert(s("c"), 3), None);
    assert_eq!(map.insert(s("a"), 10), Some(1));
    assert_eq!(map.len(), 3);
    assert_eq!((map.key_at(0), map.value_at(0)), (&s("b"), &2));
    assert_eq!((map.key_at(1), map.value_at(1)), (&s("a"), &10));
    assert_eq!((map.key_at(2), map.value_at(2)), (&s("c"), &3));
    assert_eq!(map.position(&s("c")), Some(2));
    assert_eq!(map.position(&s("z")), None);
    assert_eq!(map.replace_at(0, 20), 2);
    assert_eq!(map.get(&s("b")), Some(&20));
    assert_eq!(map.remove(&s("b")), Some(20));
    assert_eq!(map.remove(&s("b")), None);
    assert!(!map.contains_key(&s("b")));
    assert_eq!(map.key_at(0), &s("a"));
    assert_eq!(map.key_at(1), &s("c"));
    map.clear();
    assert!(map.is_empty());

    let mut set: KeyedSet<(String, String)> = KeyedSet::new();
    assert!(set.is_empty());
    assert!(set.insert((s("r"), s("t"))));
    assert!(!set.insert((s("r"), s("t"))));
    assert!(set.insert((s("r"), s("u"))));
    assert_eq!(set.len(), 2);
    assert!(set.contains(&(s("r"), s("u"))));
    assert!(!set.contains(&(s("u"), s("r"))));
    assert_eq!(set.member_at(1), &(s("r"), s("u")));
    assert!(set.remove(&(s("r"), s("t"))));
    assert!(!set.remove(&(s("r"), s("t"))));
    assert_eq!(set.member_at(0), &(s("r"), s("u")));
}

/// A snapshot with `routes` routes of `trips` trips each, which differs from
/// its neighbours in every `step`-th trip.
fn large_snapshot(routes: u32, trips: u32, step: u32, salt: u32) -> ScheduleIR {
    let mut all = Vec::new();
    for r in 0..routes {
        let mut of_route = Vec::new();
        for t in 0..trips {
            let id = format!("r{}-t{}", r, t);
            let n = r * trips + t;
            if n % step == salt % step && salt > 0 {
                if n % 2 == 0 {
                    continue;
                }
                of_route.push(trip(&id, "Changed", vec![call(1, "s1", n + salt)]));
            } else {
                of_route.push(trip(&id, "Sign", vec![call(1, "s1", n), call(2, "s2", n + 60)]));
            }
        }
        all.push(route(&format!("r{}", r), of_route));
    }
    snapshot(all, vec![shape("sh1", salt as f64)], vec![stop("s1", "First")])
}

#[test]
fn deltas_between_large_snapshots_lead_where_they_should() {
    let a = large_snapshot(30, 100, 7, 0);
    let b = large_snapshot(30, 100, 7, 3);
    let c = large_snapshot(30, 100, 5, 4);
    let first = b.get_diff(&a).unwrap();
    let second = c.get_diff(&b).unwrap();
    assert!(first.added_trips.len() > 100);
    assert!(first.removed_trip_ids.len() > first.added_trips.len());
    assert_eq!(first.apply_to_schedule(a.clone()).unwrap(), b);
    assert_eq!(second.apply_to_schedule(b.clone()).unwrap(), c);
    let combo = first.combine(&second).unwrap();
    assert_eq!(combo.apply_to_schedule(a.clone()).unwrap(), c);
    assert_eq!(combo.removed_shape_ids, set_of(vec![s("sh1")]));
    let full: FullSchedule = c.clone().into();
    assert_eq!(full.routes.len(), 30);
    assert_eq!(
        full.routes.iter().map(|r| r.trips.len()).sum::<usize>(),
        (0..c.routes.len()).map(|i| c.routes.value_at(i).trips.len()).sum::<usize>()
    );
}

#[test]
fn errors_name_the_first_route_at_fault() {
    let older = snapshot(
        vec![route("A", vec![]), route("gone1", vec![]), route("gone2", vec![])],
        vec![],
        vec![],
    );
    let newer = snapshot(
        vec![route("new1", vec![]), route("A", vec![]), route("new2", vec![])],
        vec![],
        vec![],
    );
    assert!(matches!(newer.get_diff(&older), Err(ScheduleError::NewRoute(id)) if id == "new1"));
    let subset = snapshot(vec![route("A", vec![])], vec![], vec![]);
    assert!(matches!(
        subset.get_diff(&older),
        Err(ScheduleError::RemovedRoute(id)) if id == "gone1"
    ));

    let mut update = ScheduleUpdate::default();
    update.added_trips.insert((s("x"), s("t")), trip("t", "Sign", vec![]));
    update.added_trips.insert((s("y"), s("t")), trip("t", "Sign", vec![]));
    assert!(matches!(
        update.apply_to_schedule(subset.clone()),
        Err(ScheduleError::UnknownRoute(id)) if id == "x"
    ));
    update.removed_trip_ids.insert((s("A"), s("t")));
    update.removed_trip_ids.insert((s("z"), s("t")));
    assert!(matches!(
        update.apply_to_schedule(subset),
        Err(ScheduleError::UnknownRoute(id)) if id == "z"
    ));
}

#[test]
fn route_diff_reports_a_trip_whose_days_changed() {
    let old = TripIR {
        trip_id: s("T"),
        stop_times: KeyedMap::new(),
        headsign: None,
        shape_id: None,
        direction: None,
        mask_start_date: s("20250401"),
        date_mask: 1,
    };
    let prev = RouteIR { route_id: s("R"), trips: map_of(vec![(s("T"), old.clone())]) };
    let changes = [
        TripIR { date_mask: 3, ..old.clone() },
        TripIR { mask_start_date: s("20250402"), ..old.clone() },
        TripIR { trip_id: s("U"), ..old.clone() },
        TripIR { headsign: Some(s("Sign")), ..old.clone() },
        TripIR { shape_id: Some(s("shape")), ..old.clone() },
        TripIR { direction: Some(1), ..old.clone() },
    ];
    for new in changes {
        let curr = RouteIR { route_id: s("R"), trips: map_of(vec![(s("T"), new.clone())]) };
        let update = ScheduleIR::get_route_trips_diff(&curr, &prev);
        assert_eq!(update.route_id, "R");
        assert_eq!(update.added_trips, map_of(vec![(s("T"), new)]));
        assert_eq!(update.removed_trip_ids, set_of(vec![s("T")]));
        assert!(update.trip_diffs.is_empty());
    }
}
