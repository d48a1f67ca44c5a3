use transit_server::clock::time_str_to_int;
use transit_server::diff::{ScheduleUpdate, TripStopTimesUpdate};
use transit_server::ir::{ScheduleIR, TripIR};
use transit_server::item::Item;
use transit_server::keyed::{KeyedMap, KeyedSet};
use transit_server::messages::{Position, Shape, Stop, StopTime};

fn nm<T: Item, U: Item>() -> KeyedMap<T, U> {
    KeyedMap::new()
}

fn pos(lat: f64, lon: f64) -> Position {
    Position { lat: Some(lat.to_bits()), lon: Some(lon.to_bits()) }
}

fn set_of<T: Item>(items: Vec<T>) -> KeyedSet<T> {
    let mut set = KeyedSet::new();
    for item in items {
        set.insert(item);
    }
    set
}

fn map_of<T: Item, U: Item>(entries: Vec<(T, U)>) -> KeyedMap<T, U> {
    let mut map = KeyedMap::new();
    for (key, value) in entries {
        map.insert(key, value);
    }
    map
}

fn shape_diffs_case() {
    let id1 = "Testing".to_owned();
    let id2 = "Testing2".to_owned();
    let id3 = "Testing3".to_owned();

    let mut shapes1 = nm();
    shapes1.insert(
        id1.clone(),
        Shape { shape_id: Some(id1.clone()), points: vec![pos(1.0, 2.0)] },
    );
    shapes1.insert(
        id2.clone(),
        Shape { shape_id: Some(id2.clone()), points: vec![pos(2.0, 3.0)] },
    );

    let mut shapes2 = nm();
    shapes2.insert(
        id2.clone(),
        Shape { shape_id: Some(id2.clone()), points: vec![pos(2.0, 3.0)] },
    );
    shapes2.insert(
        id3.clone(),
        Shape { shape_id: Some(id3.clone()), points: vec![pos(3.0, 4.0)] },
    );

    let ir1 = ScheduleIR { routes: nm(), stops: nm(), shapes: shapes1 };
    let ir2 = ScheduleIR { routes: nm(), stops: nm(), shapes: shapes2 };

    let (added_shapes, removed_shape_ids) = ir2.get_shape_diffs(&ir1);

    assert_eq!(removed_shape_ids, set_of(vec![id1.clone()]));
    assert_eq!(removed_shape_ids.len(), 1);
    assert_eq!(removed_shape_ids.member_at(0), &id1);
    assert_eq!(added_shapes.len(), 1);
    assert_eq!(
        added_shapes.value_at(0),
        &Shape { shape_id: Some(id3.clone()), points: vec![pos(3.0, 4.0)] }
    );
    assert_eq!(added_shapes.key_at(0), &id3);
}

fn stop_diffs_case() {
    let id1 = "Testing".to_owned();
    let id2 = "Testing2".to_owned();
    let id3 = "Testing3".to_owned();

    let stop1 = Stop {
        stop_id: Some(id1.clone()),
        stop_name: None,
        parent_stop_id: None,
        transfers_from: vec![],
        position: Some(pos(1.0, 2.0)),
        route_ids: vec![],
    };

    let stop2 = Stop {
        stop_id: Some(id2.clone()),
        stop_name: None,
        parent_stop_id: None,
        transfers_from: vec![],
        position: Some(pos(2.0, 3.0)),
        route_ids: vec![],
    };

    let stop3 = Stop {
        stop_id: Some(id3.clone()),
        stop_name: None,
        parent_stop_id: None,
        transfers_from: vec![],
        position: Some(pos(3.0, 4.0)),
        route_ids: vec![],
    };

    let stop4 = Stop {
        stop_id: Some(id1.clone()),
        stop_name: Some("Name".to_owned()),
        parent_stop_id: None,
        transfers_from: vec![],
        position: Some(pos(4.0, 4.0)),
        route_ids: vec![],
    };

    let mut stops1 = nm();
    let mut stops2 = nm();

    stops1.insert(id1.clone(), stop1.clone());
    stops1.insert(id2.clone(), stop2.clone());

    stops2.insert(id2.clone(), stop2.clone());
    stops2.insert(id3.clone(), stop3.clone());
    stops2.insert(id1.clone(), stop4.clone());

    let ir1 = ScheduleIR { routes: nm(), shapes: nm(), stops: stops1 };
    let ir2 = ScheduleIR { routes: nm(), shapes: nm(), stops: stops2 };

    let (added_stops, removed_stop_ids) = ir2.get_stop_diffs(&ir1);

    let mut added_vec: Vec<&Stop> =
        (0..added_stops.len()).map(|i| added_stops.value_at(i)).collect();
    let mut exp_added = vec![&stop3, &stop4];
    added_vec.sort_by_key(|s| s.stop_id.clone().unwrap_or_default());
    exp_added.sort_by_key(|s| s.stop_id.clone().unwrap_or_default());

    assert_eq!(removed_stop_ids.len(), 1);
    assert_eq!(removed_stop_ids.member_at(0), &id1);
    assert_eq!(added_vec, exp_added);
}

#[test]
fn diff_test_shape_diffs() {
    shape_diffs_case();
}

#[test]
fn tests_test_shape_diffs() {
    shape_diffs_case();
}

#[test]
fn diff_test_stop_diffs() {
    stop_diffs_case();
}

#[test]
fn tests_test_stop_diffs() {
    stop_diffs_case();
}

#[test]
fn test_trip_stop_time_diffs() {
    let id1 = "Testing1".to_owned();
    let id2 = "Testing2".to_owned();
    let id3 = "Testing3".to_owned();

    let ss1 = 12;
    let ss2 = 22;
    let ss3 = 13;

    let stop_time1 = StopTime {
        arrival_time: time_str_to_int(Some("12:00:00".to_owned())),
        departure_time: time_str_to_int(Some("13:00:00".to_owned())),
        stop_sequence: Some(ss1),
        stop_id: Some(id1.clone()),
    };
    let stop_time2 = StopTime {
        arrival_time: time_str_to_int(Some("22:00:00".to_owned())),
        departure_time: time_str_to_int(Some("23:00:00".to_owned())),
        stop_sequence: Some(ss2),
        stop_id: Some(id2.clone()),
    };
    let stop_time3 = StopTime {
        arrival_time: time_str_to_int(Some("15:00:00".to_owned())),
        departure_time: time_str_to_int(Some("16:00:00".to_owned())),
        stop_sequence: Some(ss3),
        stop_id: Some(id3.clone()),
    };
    let stop_time4 = StopTime {
        arrival_time: time_str_to_int(Some("22:00:00".to_owned())),
        departure_time: time_str_to_int(Some("23:00:00".to_owned())),
        stop_sequence: Some(ss1),
        stop_id: Some(id2.clone()),
    };

    let mut times1 = nm();
    let mut times2 = nm();

    times1.insert(ss1, stop_time1.clone());
    times1.insert(ss2, stop_time2.clone());

    times2.insert(ss2, stop_time2.clone());
    times2.insert(ss3, stop_time3.clone());
    times2.insert(ss1, stop_time4.clone());

    let trip1 = TripIR {
        trip_id: "TestTrip1".to_owned(),
        stop_times: times1,
        headsign: Some("TestSign1".to_owned()),
        shape_id: Some("TestShape1".to_owned()),
        direction: Some(1),
        date_mask: 1,
        mask_start_date: "20250401".to_owned(),
    };
    let trip2 = TripIR {
        trip_id: "TestTrip2".to_owned(),
        stop_times: times2,
        headsign: Some("TestSign2".to_owned()),
        shape_id: Some("TestShape2".to_owned()),
        direction: Some(2),
        date_mask: 1,
        mask_start_date: "20250401".to_owned(),
    };

    let TripStopTimesUpdate { added_stop_times, removed_stop_time_seq, .. } =
        ScheduleIR::get_trip_stop_times_diff(&trip2, &trip1);

    let mut added_vec: Vec<&StopTime> =
        (0..added_stop_times.len()).map(|i| added_stop_times.value_at(i)).collect();
    let mut exp_added: Vec<_> = vec![&stop_time3, &stop_time4];

    added_vec.sort_by_key(|t| t.stop_sequence.unwrap_or_default());
    exp_added.sort_by_key(|t| t.stop_sequence.unwrap_or_default());

    assert_eq!(removed_stop_time_seq.len(), 1);
    assert_eq!(removed_stop_time_seq.member_at(0), &ss1);
    assert_eq!(added_vec, exp_added);
}

#[test]
fn test_combine() {
    let shape_id1: String = "ShapeId1".to_owned();
    let shape_id2: String = "ShapeId2".to_owned();
    let shape_id3: String = "ShapeId3".to_owned();

    let stop_id1: String = "StopId1".to_owned();
    let stop_id2: String = "StopId2".to_owned();
    let stop_id3: String = "StopId3".to_owned();

    let trip_id1: String = "TripId1".to_owned();
    let trip_id2: String = "TripId2".to_owned();
    let trip_id3: String = "TripId3".to_owned();

    let route_id1: String = "RouteId1".to_owned();
    let route_id2: String = "RouteId2".to_owned();
    let route_id3: String = "RouteId3".to_owned();

    let date_str: String = "20250401".to_owned();

    let test_shape1: Shape = Shape { shape_id: Some(shape_id1.clone()), points: vec![] };
    let test_shape2: Shape = Shape { shape_id: Some(shape_id2.clone()), points: vec![] };
    let test_shape3: Shape = Shape { shape_id: Some(shape_id3.clone()), points: vec![] };

    let test_stop2: Stop = Stop {
        stop_id: Some(stop_id2.clone()),
        stop_name: None,
        transfers_from: vec![],
        position: None,
        parent_stop_id: None,
        route_ids: vec![],
    };
    let test_stop3: Stop = Stop {
        stop_id: Some(stop_id3.clone()),
        stop_name: None,
        transfers_from: vec![],
        position: None,
        parent_stop_id: None,
        route_ids: vec![],
    };

    let test_trip1: TripIR = TripIR {
        trip_id: trip_id1.clone(),
        shape_id: None,
        stop_times: KeyedMap::new(),
        mask_start_date: date_str.clone(),
        date_mask: 1,
        headsign: None,
        direction: None,
    };
    let test_trip2: TripIR = TripIR {
        trip_id: trip_id2.clone(),
        shape_id: None,
        stop_times: KeyedMap::new(),
        mask_start_date: date_str.clone(),
        date_mask: 1,
        headsign: None,
        direction: None,
    };
    let test_trip3: TripIR = TripIR {
        trip_id: trip_id3.clone(),
        shape_id: None,
        stop_times: KeyedMap::new(),
        mask_start_date: date_str.clone(),
        date_mask: 1,
        headsign: None,
        direction: None,
    };

    let diff1 = ScheduleUpdate {
        removed_stop_ids: set_of(vec![stop_id1.clone()]),
        removed_shape_ids: set_of(vec![]),
        removed_trip_ids: set_of(vec![(route_id1.clone(), trip_id1.clone())]),
        added_stops: map_of(vec![(stop_id2.clone(), test_stop2)]),
        added_shapes: map_of(vec![
            (shape_id2.clone(), test_shape2),
            (shape_id1.clone(), test_shape1.clone()),
        ]),
        added_trips: map_of(vec![
            ((route_id2.clone(), trip_id2.clone()), test_trip2.clone()),
            ((route_id1.clone(), trip_id1.clone()), test_trip1.clone()),
        ]),
    };
    let diff2 = ScheduleUpdate {
        removed_stop_ids: set_of(vec![stop_id2.clone()]),
        removed_shape_ids: set_of(vec![shape_id2.clone()]),
        removed_trip_ids: set_of(vec![(route_id2.clone(), trip_id2.clone())]),
        added_stops: map_of(vec![(stop_id3.clone(), test_stop3.clone())]),
        added_shapes: map_of(vec![(shape_id3.clone(), test_shape3.clone())]),
        added_trips: map_of(vec![
            ((route_id3.clone(), trip_id3.clone()), test_trip3.clone()),
            ((route_id2.clone(), trip_id2.clone()), test_trip2.clone()),
        ]),
    };

    let combo = diff1.combine(&diff2).unwrap();

    assert_eq!(combo.removed_stop_ids, set_of(vec![stop_id1]));
    assert_eq!(combo.removed_shape_ids, set_of(vec![]));
    assert_eq!(
        combo.removed_trip_ids,
        set_of(vec![
            (route_id1.clone(), trip_id1.clone()),
            (route_id2.clone(), trip_id2.clone())
        ])
    );

    assert_eq!(combo.added_stops, map_of(vec![(stop_id3.clone(), test_stop3.clone())]));
    assert_eq!(
        combo.added_shapes,
        map_of(vec![
            (shape_id3.clone(), test_shape3.clone()),
            (shape_id1.clone(), test_shape1.clone())
        ])
    );
    assert_eq!(
        combo.added_trips,
        map_of(vec![
            ((route_id1.clone(), trip_id1.clone()), test_trip1.clone()),
            ((route_id2.clone(), trip_id2.clone()), test_trip2.clone()),
            ((route_id3.clone(), trip_id3.clone()), test_trip3.clone()),
        ])
    );
}
