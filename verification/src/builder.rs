//! Building a snapshot from a parsed schedule and a window of days.
//!
//! A trip is kept when its service runs on at least one day of the window.
//! Bit `k` of its date mask says whether it runs on day `k`.

use crate::calendar::{
    date_digits, date_window, new_york_time, new_york_wall_clock, text_at_most, text_le,
    unix_seconds, window, CalendarDate, Weekday, WindowDay, WindowDayView,
};
use crate::clock::{clock_seconds, time_str_to_int};
use crate::delta::{among, lemma_take_ends, lemma_take_step};
use crate::error::ScheduleError;
use crate::feed::{
    DirectionType, ExceptionType, Schedule, ScheduleView, ServiceRowView, ShapeRow, ShapeRowView,
    StopRow, StopRowView, StopTimeRow, StopTimeRowView, TripRow,
};
use crate::ir::{RouteIR, RouteIRView, ScheduleIR, ScheduleIRView, TripIR, TripIRView};
use crate::item::Item;
use crate::keyed::KeyedMap;
use crate::messages::{Position, Shape, ShapeView, Stop, StopTime, StopTimeView, StopView};
use vstd::prelude::*;
use vstd::utf8::encode_utf8;

verus! {

/// Whether the calendar lets a service run on a weekday.
pub open spec fn runs_on_weekday(service: ServiceRowView, weekday: Weekday) -> bool {
    match weekday {
        Weekday::Mon => service.monday,
        Weekday::Tue => service.tuesday,
        Weekday::Wed => service.wednesday,
        Weekday::Thu => service.thursday,
        Weekday::Fri => service.friday,
        Weekday::Sat => service.saturday,
        Weekday::Sun => service.sunday,
    }
}

/// Whether the calendar alone lets a service run on a day: the service has a
/// row, the row has the weekday, and the day lies between the row's dates.
pub open spec fn runs_by_calendar(
    schedule: ScheduleView,
    service_id: Seq<char>,
    day: WindowDayView,
) -> bool {
    schedule.services.contains_key(service_id) && runs_on_weekday(
        schedule.services[service_id],
        day.weekday,
    ) && text_le(schedule.services[service_id].start_date, day.date) && text_le(
        day.date,
        schedule.services[service_id].end_date,
    )
}

/// Whether a service runs on a day. An exception for the service on that date
/// decides; without one the calendar does.
pub open spec fn runs_on(
    schedule: ScheduleView,
    service_id: Seq<char>,
    day: WindowDayView,
) -> bool {
    if schedule.service_exceptions.contains_key(service_id)
        && schedule.service_exceptions[service_id].contains_key(day.date) {
        schedule.service_exceptions[service_id][day.date].exception_type == ExceptionType::Added
    } else {
        runs_by_calendar(schedule, service_id, day)
    }
}

/// The date mask of a service over a window: bit `k` for day `k`.
pub open spec fn date_mask(
    schedule: ScheduleView,
    service_id: Seq<char>,
    days: Seq<WindowDayView>,
) -> u32
    decreases days.len(),
{
    if days.len() == 0 {
        0
    } else {
        let before = date_mask(schedule, service_id, days.drop_last());
        if runs_on(schedule, service_id, days.last()) {
            before | (1u32 << ((days.len() - 1) as u32))
        } else {
            before
        }
    }
}

/// Whether bit `k` of a mask is set.
pub open spec fn bit_set(mask: u32, k: int) -> bool {
    0 <= k < 32 && (mask >> (k as u32)) & 1 == 1
}

/// Bit `k` of a date mask is set exactly when the window has a day `k` and
/// the service runs on it.
pub proof fn lemma_date_mask_bits(
    schedule: ScheduleView,
    service_id: Seq<char>,
    days: Seq<WindowDayView>,
)
    requires
        days.len() <= 32,
    ensures
        forall|k: int|
            0 <= k < 32 ==> (#[trigger] bit_set(date_mask(schedule, service_id, days), k) <==> k
                < days.len() && runs_on(schedule, service_id, days[k])),
    decreases days.len(),
{
    if days.len() == 0 {
        assert forall|k: int| 0 <= k < 32 implies !(#[trigger] bit_set(0u32, k)) by {
            let s = k as u32;
            assert((0u32 >> s) & 1 == 0) by (bit_vector);
        }
    } else {
        let before = date_mask(schedule, service_id, days.drop_last());
        lemma_date_mask_bits(schedule, service_id, days.drop_last());
        let top = (days.len() - 1) as u32;
        let mask = date_mask(schedule, service_id, days);
        assert forall|k: int| 0 <= k < 32 implies (#[trigger] bit_set(mask, k) <==> k < days.len()
            && runs_on(schedule, service_id, days[k])) by {
            let s = k as u32;
            assert(bit_set(before, k) <==> k < days.len() - 1 && runs_on(
                schedule,
                service_id,
                days.drop_last()[k],
            ));
            if runs_on(schedule, service_id, days.last()) {
                assert(((before | (1u32 << top)) >> s) & 1 == 1 <==> ((before >> s) & 1 == 1 || s
                    == top)) by (bit_vector)
                    requires
                        s < 32,
                        top < 32,
                ;
            }
        }
    }
}

/// Decides whether a service runs on a day of a window.
pub fn service_runs(schedule: &Schedule, service_id: &String, day: &WindowDay) -> (runs: bool)
    ensures
        runs == runs_on(schedule@, service_id@, day@),
{
    let mut active = false;
    match schedule.services.get(service_id) {
        Some(service) => {
            let on_weekday = match day.weekday {
                Weekday::Mon => service.monday,
                Weekday::Tue => service.tuesday,
                Weekday::Wed => service.wednesday,
                Weekday::Thu => service.thursday,
                Weekday::Fri => service.friday,
                Weekday::Sat => service.saturday,
                Weekday::Sun => service.sunday,
            };
            active = on_weekday && text_at_most(&service.start_date, &day.date) && text_at_most(
                &day.date,
                &service.end_date,
            );
        },
        None => {},
    }
    match schedule.service_exceptions.get(service_id) {
        Some(exceptions) => {
            match exceptions.get(&day.date) {
                Some(exception) => {
                    active = match exception.exception_type {
                        ExceptionType::Added => true,
                        ExceptionType::Removed => false,
                    };
                },
                None => {},
            }
        },
        None => {},
    }
    active
}

/// Computes the date mask of a service over a window of at most 32 days.
pub fn service_date_mask(schedule: &Schedule, service_id: &String, days: &Vec<WindowDay>) -> (mask:
    u32)
    requires
        days.len() <= 32,
    ensures
        mask == date_mask(schedule@, service_id@, days.deep_view()),
{
    let mut mask: u32 = 0;
    let mut k: usize = 0;
    proof {
        assert(days.deep_view().take(0) =~= Seq::<WindowDayView>::empty());
    }
    while k < days.len()
        invariant
            k <= days.len() <= 32,
            mask == date_mask(schedule@, service_id@, days.deep_view().take(k as int)),
        decreases days.len() - k,
    {
        proof {
            let now = days.deep_view().take(k + 1);
            assert(now.drop_last() =~= days.deep_view().take(k as int));
            assert(now.last() == days[k as int]@);
        }
        if service_runs(schedule, service_id, &days[k]) {
            mask = mask | (1u32 << (k as u32));
        }
        k += 1;
    }
    proof {
        assert(days.deep_view().take(k as int) =~= days.deep_view());
    }
    mask
}

/// The seconds that a time of day stands for, where the table has one.
pub open spec fn seconds_of(time: Option<Seq<char>>) -> Option<u32> {
    match time {
        Some(text) => clock_seconds(encode_utf8(text)),
        None => None,
    }
}

/// The call that a row of the table of stop times stands for.
pub open spec fn built_stop_time(row: StopTimeRowView) -> StopTimeView {
    StopTimeView {
        stop_id: row.stop_id,
        arrival_time: seconds_of(row.arrival_time),
        departure_time: seconds_of(row.departure_time),
        stop_sequence: Some(row.stop_sequence),
    }
}

/// The calls of a trip, keyed as the table keys them; none where the table
/// has no rows for the trip.
pub open spec fn built_stop_times(schedule: ScheduleView, trip_id: Seq<char>) -> Map<
    u32,
    StopTimeView,
> {
    if schedule.stop_times.contains_key(trip_id) {
        Map::new(
            |k: u32| schedule.stop_times[trip_id].contains_key(k),
            |k: u32| built_stop_time(schedule.stop_times[trip_id][k]),
        )
    } else {
        Map::empty()
    }
}

/// The number that stands for a direction: 0 for uptown, 1 for any other.
pub open spec fn direction_number(direction: Option<DirectionType>) -> Option<u32> {
    match direction {
        Some(DirectionType::Uptown) => Some(0),
        Some(DirectionType::Downtown) => Some(1),
        None => None,
    }
}

/// The trip that the row under `trip_id` stands for, over a window of days.
pub open spec fn built_trip(
    schedule: ScheduleView,
    trip_id: Seq<char>,
    days: Seq<WindowDayView>,
) -> TripIRView {
    let row = schedule.trips[trip_id];
    TripIRView {
        trip_id,
        stop_times: built_stop_times(schedule, trip_id),
        headsign: row.trip_headsign,
        shape_id: row.shape_id,
        direction: direction_number(row.direction_id),
        mask_start_date: days[0].date,
        date_mask: date_mask(schedule, row.service_id, days),
    }
}

/// Whether the table has a trip under `trip_id` that runs on some day of the
/// window.
pub open spec fn trip_runs(
    schedule: ScheduleView,
    trip_id: Seq<char>,
    days: Seq<WindowDayView>,
) -> bool {
    schedule.trips.contains_key(trip_id) && date_mask(
        schedule,
        schedule.trips[trip_id].service_id,
        days,
    ) != 0
}

/// Whether a trip runs in the window on a route that the schedule lacks.
pub open spec fn trip_is_stray(
    schedule: ScheduleView,
    trip_id: Seq<char>,
    days: Seq<WindowDayView>,
) -> bool {
    trip_runs(schedule, trip_id, days) && !schedule.routes.contains(
        schedule.trips[trip_id].route_id,
    )
}

/// Whether the trip at place `i` of `ids` is the first that runs in the window
/// on a route that the schedule lacks.
pub open spec fn first_stray(
    schedule: ScheduleView,
    ids: Seq<Seq<char>>,
    days: Seq<WindowDayView>,
    i: int,
) -> bool {
    &&& 0 <= i < ids.len()
    &&& trip_is_stray(schedule, ids[i], days)
    &&& forall|j: int| 0 <= j < i ==> !trip_is_stray(schedule, #[trigger] ids[j], days)
}

/// Whether an error names the route of the first trip, in the order of the
/// table of trips, that runs in the window on a route that the schedule lacks.
pub open spec fn names_stray_route(
    e: ScheduleError,
    schedule: ScheduleView,
    ids: Seq<Seq<char>>,
    days: Seq<WindowDayView>,
) -> bool {
    match e {
        ScheduleError::UnknownRoute(id) => exists|i: int| #[trigger]
            first_stray(schedule, ids, days, i) && schedule.trips[ids[i]].route_id == id@,
        _ => false,
    }
}

/// The route under `route_id` with the trips that run on it in the window.
pub open spec fn built_route(
    schedule: ScheduleView,
    route_id: Seq<char>,
    days: Seq<WindowDayView>,
) -> RouteIRView {
    RouteIRView {
        route_id,
        trips: Map::new(
            |t: Seq<char>|
                trip_runs(schedule, t, days) && schedule.trips[t].route_id == route_id,
            |t: Seq<char>| built_trip(schedule, t, days),
        ),
    }
}

/// The shape that a row of points stands for.
pub open spec fn built_shape(row: ShapeRowView) -> ShapeView {
    ShapeView {
        shape_id: Some(row.shape_id),
        points: Seq::new(
            row.points.len(),
            |i: int| Position { lat: Some(row.points[i].0), lon: Some(row.points[i].1) },
        ),
    }
}

/// The stop that a row of the table of stops stands for: with a position
/// where the row has both coordinates, with the transfers that start from it,
/// and with no route ids.
pub open spec fn built_stop(schedule: ScheduleView, row: StopRowView) -> StopView {
    StopView {
        stop_id: Some(row.stop_id),
        stop_name: row.stop_name,
        parent_stop_id: row.parent_station,
        transfers_from: if schedule.transfers.contains_key(row.stop_id) {
            schedule.transfers[row.stop_id]
        } else {
            Seq::empty()
        },
        position: if row.stop_lat is Some && row.stop_lon is Some {
            Some(Position { lat: row.stop_lat, lon: row.stop_lon })
        } else {
            None
        },
        route_ids: Seq::empty(),
    }
}

/// The snapshot that a parsed schedule stands for over a window of days.
pub open spec fn built(schedule: ScheduleView, days: Seq<WindowDayView>) -> ScheduleIRView {
    ScheduleIRView {
        routes: Map::new(
            |r: Seq<char>| schedule.routes.contains(r),
            |r: Seq<char>| built_route(schedule, r, days),
        ),
        shapes: Map::new(
            |k: Seq<char>| schedule.shapes.contains_key(k),
            |k: Seq<char>| built_shape(schedule.shapes[k]),
        ),
        stops: Map::new(
            |k: Seq<char>| schedule.stops.contains_key(k),
            |k: Seq<char>| built_stop(schedule, schedule.stops[k]),
        ),
    }
}

/// A snapshot that is built from a parsed schedule files every route and
/// every trip under its own id, and holds no trip with an empty date mask.
pub proof fn lemma_built_is_well_formed(schedule: ScheduleView, days: Seq<WindowDayView>)
    ensures
        built(schedule, days).well_formed(),
{
}

/// In a snapshot that is built from a parsed schedule, the date mask of every
/// trip starts on the first day of the window.
pub proof fn lemma_built_masks_start_with_window(schedule: ScheduleView, days: Seq<WindowDayView>)
    ensures
        built(schedule, days).every_mask_starts_on(days[0].date),
{
}

/// Turns a row of the table of stop times into a call.
pub fn build_stop_time(row: &StopTimeRow) -> (call: StopTime)
    ensures
        call@ == built_stop_time(row@),
{
    StopTime {
        stop_id: row.stop_id.copy(),
        arrival_time: time_str_to_int(row.arrival_time.copy()),
        departure_time: time_str_to_int(row.departure_time.copy()),
        stop_sequence: Some(row.stop_sequence),
    }
}

/// Collects the calls of a trip from the table of stop times.
pub fn build_stop_times(schedule: &Schedule, trip_id: &String) -> (calls: KeyedMap<u32, StopTime>)
    ensures
        calls@ == built_stop_times(schedule@, trip_id@),
{
    let mut calls: KeyedMap<u32, StopTime> = KeyedMap::new();
    match schedule.stop_times.get(trip_id) {
        None => {
            assert(calls@ =~= built_stop_times(schedule@, trip_id@));
        },
        Some(rows) => {
            proof {
                use_type_invariant(rows);
                rows.lemma_entries();
                lemma_take_ends(rows.keys());
            }
            let n = rows.len();
            let mut i: usize = 0;
            while i < n
                invariant
                    i <= n,
                    n == rows.keys().len(),
                    rows.wf(),
                    forall|k: u32|
                        #![trigger calls@.contains_key(k)]
                        #![trigger among(rows.keys(), i as int, k)]
                        calls@.contains_key(k) <==> among(rows.keys(), i as int, k),
                    forall|k: u32|
                        calls@.contains_key(k) ==> #[trigger] calls@[k] == built_stop_time(
                            rows@[k],
                        ),
                decreases n - i,
            {
                proof {
                    rows.lemma_entries();
                    lemma_take_step(rows.keys(), i as int);
                }
                calls.insert(*rows.key_at(i), build_stop_time(rows.value_at(i)));
                i += 1;
            }
            proof {
                rows.lemma_entries();
                assert(calls@ =~= built_stop_times(schedule@, trip_id@));
            }
        },
    }
    calls
}

/// Turns a row of points into a shape.
pub fn build_shape(row: &ShapeRow) -> (shape: Shape)
    ensures
        shape@ == built_shape(row@),
{
    let mut points: Vec<Position> = Vec::new();
    let mut i: usize = 0;
    while i < row.points.len()
        invariant
            i <= row.points@.len(),
            points@.len() == i,
            forall|j: int|
                0 <= j < i ==> #[trigger] points@[j] == (Position {
                    lat: Some(row.points@[j].0),
                    lon: Some(row.points@[j].1),
                }),
        decreases row.points@.len() - i,
    {
        let point = &row.points[i];
        points.push(Position { lat: Some(point.0), lon: Some(point.1) });
        i += 1;
    }
    let shape = Shape { shape_id: Some(row.shape_id.copy()), points };
    proof {
        assert(shape@.points =~= built_shape(row@).points);
    }
    shape
}

/// Turns a row of the table of stops into a stop.
pub fn build_stop(schedule: &Schedule, row: &StopRow) -> (stop: Stop)
    ensures
        stop@ == built_stop(schedule@, row@),
{
    let transfers_from = match schedule.transfers.get(&row.stop_id) {
        Some(transfers) => transfers.copy(),
        None => Vec::new(),
    };
    let position = match (row.stop_lat, row.stop_lon) {
        (Some(lat), Some(lon)) => Some(Position { lat: Some(lat), lon: Some(lon) }),
        _ => None,
    };
    let stop = Stop {
        stop_id: Some(row.stop_id.copy()),
        stop_name: row.stop_name.copy(),
        parent_stop_id: row.parent_station.copy(),
        transfers_from,
        route_ids: Vec::new(),
        position,
    };
    proof {
        assert(stop@.transfers_from =~= built_stop(schedule@, row@).transfers_from);
        assert(stop@.route_ids =~= built_stop(schedule@, row@).route_ids);
    }
    stop
}

/// Builds the trip that a row stands for, with the mask that was computed
/// for its service.
fn build_trip(
    schedule: &Schedule,
    trip_id: &String,
    row: &TripRow,
    mask: u32,
    days: &Vec<WindowDay>,
) -> (trip: TripIR)
    requires
        1 <= days.len(),
        schedule@.trips.contains_key(trip_id@),
        schedule@.trips[trip_id@] == row@,
        mask == date_mask(schedule@, row@.service_id, days.deep_view()),
    ensures
        trip@ == built_trip(schedule@, trip_id@, days.deep_view()),
{
    let direction = match row.direction_id {
        Some(DirectionType::Uptown) => Some(0u32),
        Some(DirectionType::Downtown) => Some(1u32),
        None => None,
    };
    TripIR {
        trip_id: trip_id.copy(),
        shape_id: row.shape_id.copy(),
        headsign: row.trip_headsign.copy(),
        direction,
        stop_times: build_stop_times(schedule, trip_id),
        date_mask: mask,
        mask_start_date: days[0].date.copy(),
    }
}

/// Sorts the trips that run in the window by the route they run on: one map
/// of trips for each route of the schedule, in the order of the routes.
///
/// Fails with the id of the route when a trip that runs names a route that
/// the schedule lacks.
fn build_trips(schedule: &Schedule, days: &Vec<WindowDay>) -> (res: Result<
    Vec<KeyedMap<String, TripIR>>,
    ScheduleError,
>)
    requires
        1 <= days.len() <= 32,
    ensures
        res is Ok <==> forall|t: Seq<char>|
            !(#[trigger] trip_is_stray(schedule@, t, days.deep_view())),
        res matches Ok(sorted) ==> sorted@.len() == schedule.routes.members().len() && forall|
            p: int,
        |
            0 <= p < sorted@.len() ==> (#[trigger] sorted@[p])@ == built_route(
                schedule@,
                schedule.routes.members()[p],
                days.deep_view(),
            ).trips,
        res matches Err(e) ==> names_stray_route(
            e,
            schedule@,
            schedule.trips.keys(),
            days.deep_view(),
        ),
{
    let ghost window = days.deep_view();
    let ghost route_ids = schedule.routes.members();
    proof {
        use_type_invariant(&schedule.routes);
        use_type_invariant(&schedule.trips);
        schedule.routes.lemma_members();
        schedule.trips.lemma_entries();
        lemma_take_ends(schedule.trips.keys());
    }
    let route_count = schedule.routes.len();
    let mut sorted: Vec<KeyedMap<String, TripIR>> = Vec::new();
    let mut p: usize = 0;
    while p < route_count
        invariant
            p <= route_count,
            sorted@.len() == p,
            forall|q: int| 0 <= q < p ==> (#[trigger] sorted@[q])@ == Map::<
                Seq<char>,
                TripIRView,
            >::empty(),
        decreases route_count - p,
    {
        sorted.push(KeyedMap::new());
        p += 1;
    }
    let n = schedule.trips.len();
    let mut i: usize = 0;
    while i < n
        invariant
            i <= n,
            n == schedule.trips.keys().len(),
            schedule.trips.wf(),
            schedule.routes.wf(),
            1 <= days.len() <= 32,
            window == days.deep_view(),
            route_ids == schedule.routes.members(),
            sorted@.len() == route_ids.len(),
            forall|t: Seq<char>| #[trigger]
                among(schedule.trips.keys(), i as int, t) ==> !trip_is_stray(schedule@, t, window),
            forall|q: int, t: Seq<char>|
                #![trigger sorted@[q]@.contains_key(t)]
                0 <= q < sorted@.len() ==> (sorted@[q]@.contains_key(t) <==> among(
                    schedule.trips.keys(),
                    i as int,
                    t,
                ) && trip_runs(schedule@, t, window) && schedule@.trips[t].route_id
                    == route_ids[q]),
            forall|q: int, t: Seq<char>|
                0 <= q < sorted@.len() && sorted@[q]@.contains_key(t) ==> #[trigger] sorted@[q]@[t]
                    == built_trip(schedule@, t, window),
        decreases n - i,
    {
        let trip_id = schedule.trips.key_at(i);
        let row = schedule.trips.value_at(i);
        proof {
            schedule.trips.lemma_entries();
            schedule.routes.lemma_members();
            lemma_take_step(schedule.trips.keys(), i as int);
        }
        let mask = service_date_mask(schedule, &row.service_id, days);
        if mask != 0 {
            match schedule.routes.position(&row.route_id) {
                None => {
                    proof {
                        let ids = schedule.trips.keys();
                        assert(trip_is_stray(schedule@, trip_id@, window));
                        assert forall|j: int| 0 <= j < i implies !trip_is_stray(
                            schedule@,
                            #[trigger] ids[j],
                            window,
                        ) by {
                            assert(ids.take(i as int)[j] == ids[j]);
                            assert(among(ids, i as int, ids[j]));
                        }
                        assert(first_stray(schedule@, ids, window, i as int));
                    }
                    return Err(ScheduleError::UnknownRoute(row.route_id.copy()));
                },
                Some(place) => {
                    let trip = build_trip(schedule, trip_id, row, mask, days);
                    let mut trips: KeyedMap<String, TripIR> = KeyedMap::new();
                    let ghost before = sorted@;
                    sorted.set_and_swap(place, &mut trips);
                    trips.insert(trip_id.copy(), trip);
                    sorted.set(place, trips);
                    proof {
                        assert forall|q: int|
                            0 <= q < sorted@.len() && q != place implies sorted@[q]
                            == before[q] by {}
                        assert forall|q: int|
                            0 <= q < route_ids.len() && q != place implies route_ids[q]
                            != route_ids[place as int] by {}
                    }
                },
            }
        }
        i += 1;
    }
    proof {
        assert forall|t: Seq<char>| !(#[trigger] trip_is_stray(schedule@, t, window)) by {
            if schedule@.trips.contains_key(t) {
                assert(among(schedule.trips.keys(), n as int, t));
            }
        }
        assert forall|q: int| 0 <= q < sorted@.len() implies (#[trigger] sorted@[q])@
            == built_route(schedule@, route_ids[q], window).trips by {
            assert forall|t: Seq<char>|
                built_route(schedule@, route_ids[q], window).trips.contains_key(
                    t,
                ) implies sorted@[q]@.contains_key(t) by {
                assert(among(schedule.trips.keys(), n as int, t));
            }
            assert(sorted@[q]@ =~= built_route(schedule@, route_ids[q], window).trips);
        }
    }
    Ok(sorted)
}

impl ScheduleIR {
    /// Builds a snapshot from a parsed schedule and the days of a window.
    ///
    /// Fails when the window is not between 1 and 32 days long, and when a
    /// trip that runs in the window names a route that the schedule lacks.
    pub fn from_window(value: &Schedule, days: &Vec<WindowDay>) -> (res: Result<
        ScheduleIR,
        ScheduleError,
    >)
        ensures
            res is Ok <==> 1 <= days.len() <= 32 && forall|t: Seq<char>|
                !(#[trigger] trip_is_stray(value@, t, days.deep_view())),
            res matches Ok(ir) ==> ir@ == built(value@, days.deep_view()) && ir@.well_formed(),
            res matches Ok(ir) ==> ir@.every_mask_starts_on(days[0].date@),
            res matches Err(e) ==> match e {
                ScheduleError::InvalidWindow => !(1 <= days.len() <= 32),
                _ => 1 <= days.len() <= 32 && names_stray_route(
                    e,
                    value@,
                    value.trips.keys(),
                    days.deep_view(),
                ),
            },
    {
        if days.len() < 1 || days.len() > 32 {
            return Err(ScheduleError::InvalidWindow);
        }
        let ghost window = days.deep_view();
        let mut sorted = match build_trips(value, days) {
            Ok(sorted) => sorted,
            Err(e) => {
                return Err(e);
            },
        };
        let ghost route_ids = value.routes.members();
        proof {
            use_type_invariant(&value.routes);
            use_type_invariant(&value.shapes);
            use_type_invariant(&value.stops);
            value.routes.lemma_members();
            value.shapes.lemma_entries();
            value.stops.lemma_entries();
            lemma_take_ends(route_ids);
            lemma_take_ends(value.shapes.keys());
            lemma_take_ends(value.stops.keys());
        }
        let mut routes: KeyedMap<String, RouteIR> = KeyedMap::new();
        let route_count = value.routes.len();
        let mut p: usize = 0;
        while p < route_count
            invariant
                p <= route_count,
                route_count == route_ids.len(),
                route_ids == value.routes.members(),
                value.routes.wf(),
                sorted@.len() == route_count,
                forall|q: int|
                    p <= q < route_count ==> (#[trigger] sorted@[q])@ == built_route(
                        value@,
                        route_ids[q],
                        window,
                    ).trips,
                forall|r: Seq<char>|
                    #![trigger routes@.contains_key(r)]
                    #![trigger among(route_ids, p as int, r)]
                    routes@.contains_key(r) <==> among(route_ids, p as int, r),
                forall|r: Seq<char>|
                    routes@.contains_key(r) ==> #[trigger] routes@[r] == built_route(
                        value@,
                        r,
                        window,
                    ),
            decreases route_count - p,
        {
            let route_id = value.routes.member_at(p);
            proof {
                lemma_take_step(route_ids, p as int);
            }
            let mut trips: KeyedMap<String, TripIR> = KeyedMap::new();
            sorted.set_and_swap(p, &mut trips);
            routes.insert(route_id.copy(), RouteIR { route_id: route_id.copy(), trips });
            p += 1;
        }
        let mut shapes: KeyedMap<String, Shape> = KeyedMap::new();
        let shape_count = value.shapes.len();
        let mut i: usize = 0;
        while i < shape_count
            invariant
                i <= shape_count,
                shape_count == value.shapes.keys().len(),
                value.shapes.wf(),
                forall|k: Seq<char>|
                    #![trigger shapes@.contains_key(k)]
                    #![trigger among(value.shapes.keys(), i as int, k)]
                    shapes@.contains_key(k) <==> among(value.shapes.keys(), i as int, k),
                forall|k: Seq<char>|
                    shapes@.contains_key(k) ==> #[trigger] shapes@[k] == built_shape(
                        value@.shapes[k],
                    ),
            decreases shape_count - i,
        {
            proof {
                value.shapes.lemma_entries();
                lemma_take_step(value.shapes.keys(), i as int);
            }
            shapes.insert(value.shapes.key_at(i).copy(), build_shape(value.shapes.value_at(i)));
            i += 1;
        }
        let mut stops: KeyedMap<String, Stop> = KeyedMap::new();
        let stop_count = value.stops.len();
        let mut j: usize = 0;
        while j < stop_count
            invariant
                j <= stop_count,
                stop_count == value.stops.keys().len(),
                value.stops.wf(),
                forall|k: Seq<char>|
                    #![trigger stops@.contains_key(k)]
                    #![trigger among(value.stops.keys(), j as int, k)]
                    stops@.contains_key(k) <==> among(value.stops.keys(), j as int, k),
                forall|k: Seq<char>|
                    stops@.contains_key(k) ==> #[trigger] stops@[k] == built_stop(
                        value@,
                        value@.stops[k],
                    ),
            decreases stop_count - j,
        {
            proof {
                value.stops.lemma_entries();
                lemma_take_step(value.stops.keys(), j as int);
            }
            stops.insert(
                value.stops.key_at(j).copy(),
                build_stop(value, value.stops.value_at(j)),
            );
            j += 1;
        }
        let ir = ScheduleIR { routes, stops, shapes };
        proof {
            value.shapes.lemma_entries();
            value.stops.lemma_entries();
            assert(ir@.routes =~= built(value@, window).routes);
            assert(ir@.shapes =~= built(value@, window).shapes);
            assert(ir@.stops =~= built(value@, window).stops);
            lemma_built_is_well_formed(value@, window);
            lemma_built_masks_start_with_window(value@, window);
            assert(window[0] == days[0]@);
        }
        Ok(ir)
    }

    /// Builds a snapshot from a parsed schedule for the window of `days` days
    /// that starts on `start_date`.
    ///
    /// The date mask of every trip starts on `start_date`, written `YYYYMMDD`.
    ///
    /// Fails when the window is not between 1 and 32 days long or one of its
    /// days lies beyond the calendar, and when a trip that runs in the window
    /// names a route that the schedule lacks.
    pub fn try_from_schedule_with_dates(
        value: Schedule,
        start_date: CalendarDate,
        days: u8,
    ) -> (res: Result<ScheduleIR, ScheduleError>)
        ensures
            res is Ok <==> (window(start_date, days as int) matches Some(w) && forall|t: Seq<char>|
                !(#[trigger] trip_is_stray(value@, t, w))),
            res matches Ok(ir) ==> ir@ == built(value@, window(start_date, days as int)->0)
                && ir@.well_formed(),
            res matches Ok(ir) ==> ir@.every_mask_starts_on(
                date_digits(
                    start_date.year as int,
                    start_date.month as int,
                    start_date.day as int,
                ),
            ),
            res matches Err(e) ==> match e {
                ScheduleError::InvalidWindow => window(start_date, days as int) is None,
                _ => (window(start_date, days as int) matches Some(w) && names_stray_route(
                    e,
                    value@,
                    value.trips.keys(),
                    w,
                )),
            },
    {
        match date_window(&start_date, days) {
            Some(days_of) => {
                proof {
                    assert(window(start_date, days as int) == Some(days_of.deep_view()));
                    assert(days_of.deep_view().len() == days_of.len());
                    assert(window(start_date, days as int)->0.len() == days);
                }
                Self::from_window(&value, &days_of)
            },
            None => Err(ScheduleError::InvalidWindow),
        }
    }

    /// Builds a snapshot from a parsed schedule for the 32 days that start on
    /// the day that the clocks of New York show at a moment, given in seconds
    /// since the start of 1970 in universal time.
    ///
    /// Fails as [`ScheduleIR::try_from_schedule_with_dates`] does, and with
    /// the same error as for a window that cannot be laid out when the moment
    /// lies beyond the calendar.
    pub fn try_from_schedule_at(value: Schedule, timestamp: i64) -> (res: Result<
        ScheduleIR,
        ScheduleError,
    >)
        ensures
            res is Ok <==> (days_from(timestamp as int) matches Some(w) && forall|t: Seq<char>|
                !(#[trigger] trip_is_stray(value@, t, w))),
            res matches Ok(ir) ==> ir@ == built(value@, days_from(timestamp as int)->0)
                && ir@.well_formed(),
            res matches Ok(ir) ==> (new_york_wall_clock(timestamp as int) matches Some(shown)
                && ir@.every_mask_starts_on(date_digits(shown.0, shown.1, shown.2))),
            res matches Err(e) ==> match e {
                ScheduleError::InvalidWindow => days_from(timestamp as int) is None,
                _ => (days_from(timestamp as int) matches Some(w) && names_stray_route(
                    e,
                    value@,
                    value.trips.keys(),
                    w,
                )),
            },
    {
        match new_york_time(timestamp) {
            Some(now) => Self::try_from_schedule_with_dates(value, now.date, DEFAULT_DAYS),
            None => Err(ScheduleError::InvalidWindow),
        }
    }

    /// Builds a snapshot from a parsed schedule for the 32 days that start
    /// today, as the clocks of New York show it.
    ///
    /// Fails as [`ScheduleIR::try_from_schedule_at`] does, and with the same
    /// error as for a window that cannot be laid out when the system clock
    /// cannot be read.
    pub fn try_from_schedule(value: Schedule) -> (res: Result<ScheduleIR, ScheduleError>)
        ensures
            res matches Ok(ir) ==> ir@.well_formed() && exists|timestamp: int|
                (#[trigger] days_from(timestamp)) is Some && ir@ == built(
                    value@,
                    days_from(timestamp)->0,
                ),
            res matches Err(e) ==> e is InvalidWindow || e is UnknownRoute,
    {
        match unix_seconds() {
            Some(seconds) => {
                if seconds > 0x7fff_ffff_ffff_ffff {
                    Err(ScheduleError::InvalidWindow)
                } else {
                    Self::try_from_schedule_at(value, seconds as i64)
                }
            },
            None => Err(ScheduleError::InvalidWindow),
        }
    }
}

/// How many days the window has that starts today.
pub const DEFAULT_DAYS: u8 = 32;

/// The window of 32 days that starts on the day that the clocks of New York
/// show at a moment.
pub open spec fn days_from(timestamp: int) -> Option<Seq<WindowDayView>> {
    match new_york_wall_clock(timestamp) {
        Some((year, month, day, _, _, _)) => if i32::MIN <= year <= i32::MAX && 0 <= month
            <= u32::MAX && 0 <= day <= u32::MAX {
            window(CalendarDate { year: year as i32, month: month as u32, day: day as u32 }, 32)
        } else {
            None
        },
        None => None,
    }
}

} // verus!
