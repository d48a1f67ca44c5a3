//! Turning snapshots and deltas into the messages that clients receive.
//!
//! A message lists what a snapshot keys, in the order in which the snapshot
//! holds it. Nothing is added and nothing is left out, so a message has as
//! many routes, trips and calls as the snapshot it was made from.

use crate::diff::{RouteTripsUpdate, ScheduleUpdate, TripStopTimesUpdate};
use crate::ir::{RouteIR, ScheduleIR, TripIR};
use crate::item::Item;
use crate::keyed::{KeyedMap, KeyedSet};
use crate::messages::{
    FullSchedule, FullScheduleView, Route, RouteTripsDiff, RouteTripsDiffView, RouteView,
    ScheduleDiff, ScheduleDiffView, StopTime, Trip, TripExt, TripExtView, TripIdTuple,
    TripIdTupleView, TripStopTimesDiff, TripStopTimesDiffView, TripView,
};
use vstd::prelude::*;
use vstd::std_specs::convert::FromSpecImpl;

verus! {

/// The number of calls of all trips in a list.
pub open spec fn calls_of_trips(trips: Seq<TripIR>) -> nat
    decreases trips.len(),
{
    if trips.len() == 0 {
        0
    } else {
        calls_of_trips(trips.drop_last()) + trips.last().call_count()
    }
}

/// The number of trips of all routes in a list.
pub open spec fn trips_of_routes(routes: Seq<RouteIR>) -> nat
    decreases routes.len(),
{
    if routes.len() == 0 {
        0
    } else {
        trips_of_routes(routes.drop_last()) + routes.last().trip_count()
    }
}

/// The number of calls of all trips of all routes in a list.
pub open spec fn calls_of_routes(routes: Seq<RouteIR>) -> nat
    decreases routes.len(),
{
    if routes.len() == 0 {
        0
    } else {
        calls_of_routes(routes.drop_last()) + routes.last().call_count()
    }
}

/// The number of calls of all trips in a list of messages.
pub open spec fn calls_of_sent_trips(trips: Seq<TripView>) -> nat
    decreases trips.len(),
{
    if trips.len() == 0 {
        0
    } else {
        calls_of_sent_trips(trips.drop_last()) + trips.last().stop_times.len()
    }
}

/// The number of trips of all routes in a list of messages.
pub open spec fn trips_of_sent_routes(routes: Seq<RouteView>) -> nat
    decreases routes.len(),
{
    if routes.len() == 0 {
        0
    } else {
        trips_of_sent_routes(routes.drop_last()) + routes.last().trips.len()
    }
}

/// The number of calls of all trips of all routes in a list of messages.
pub open spec fn calls_of_sent_routes(routes: Seq<RouteView>) -> nat
    decreases routes.len(),
{
    if routes.len() == 0 {
        0
    } else {
        calls_of_sent_routes(routes.drop_last()) + calls_of_sent_trips(routes.last().trips)
    }
}

impl TripIR {
    /// The message that carries this trip, with its calls in the order in
    /// which the trip holds them.
    pub open spec fn on_wire(&self) -> TripView {
        TripView {
            trip_id: Some(self.trip_id@),
            stop_times: self.stop_times.values(),
            headsign: self.headsign.deep_view(),
            shape_id: self.shape_id.deep_view(),
            direction: self.direction,
            mask_start_date: Some(self.mask_start_date@),
            date_mask: Some(self.date_mask),
        }
    }

    /// The number of calls of this trip.
    pub open spec fn call_count(&self) -> nat {
        self.stop_times.keys().len()
    }
}

impl RouteIR {
    /// The message that carries this route, with its trips in the order in
    /// which the route holds them.
    pub open spec fn on_wire(&self) -> RouteView {
        RouteView {
            route_id: Some(self.route_id@),
            trips: Seq::new(
                self.trips.value_seq().len(),
                |i: int| self.trips.value_seq()[i].on_wire(),
            ),
        }
    }

    /// The number of trips of this route.
    pub open spec fn trip_count(&self) -> nat {
        self.trips.keys().len()
    }

    /// The number of calls of all trips of this route.
    pub open spec fn call_count(&self) -> nat {
        calls_of_trips(self.trips.value_seq())
    }
}

impl ScheduleIR {
    /// The message that carries this snapshot, with routes, shapes and stops
    /// in the order in which the snapshot holds them.
    pub open spec fn on_wire(&self) -> FullScheduleView {
        FullScheduleView {
            routes: Seq::new(
                self.routes.value_seq().len(),
                |i: int| self.routes.value_seq()[i].on_wire(),
            ),
            shapes: self.shapes.values(),
            stops: self.stops.values(),
        }
    }

    /// The number of trips of all routes of this snapshot.
    pub open spec fn trip_count(&self) -> nat {
        trips_of_routes(self.routes.value_seq())
    }

    /// The number of calls of all trips of this snapshot.
    pub open spec fn call_count(&self) -> nat {
        calls_of_routes(self.routes.value_seq())
    }
}

impl FullScheduleView {
    /// The number of trips of all routes of this message.
    pub open spec fn trip_count(self) -> nat {
        trips_of_sent_routes(self.routes)
    }

    /// The number of calls of all trips of this message.
    pub open spec fn call_count(self) -> nat {
        calls_of_sent_routes(self.routes)
    }
}

/// A list of trips and the messages that carry them have the same number of
/// calls.
pub proof fn lemma_sent_trips_keep_calls(trips: Seq<TripIR>, sent: Seq<TripView>)
    requires
        sent.len() == trips.len(),
        forall|i: int| 0 <= i < trips.len() ==> #[trigger] sent[i] == trips[i].on_wire(),
    ensures
        calls_of_sent_trips(sent) == calls_of_trips(trips),
    decreases trips.len(),
{
    if trips.len() > 0 {
        lemma_sent_trips_keep_calls(trips.drop_last(), sent.drop_last());
        trips.last().stop_times.lemma_value_seq();
        assert(sent.last() == trips.last().on_wire());
    }
}

/// A list of routes and the messages that carry them have the same number of
/// trips and the same number of calls.
pub proof fn lemma_sent_routes_keep_counts(routes: Seq<RouteIR>, sent: Seq<RouteView>)
    requires
        sent.len() == routes.len(),
        forall|i: int| 0 <= i < routes.len() ==> #[trigger] sent[i] == routes[i].on_wire(),
    ensures
        trips_of_sent_routes(sent) == trips_of_routes(routes),
        calls_of_sent_routes(sent) == calls_of_routes(routes),
    decreases routes.len(),
{
    if routes.len() > 0 {
        lemma_sent_routes_keep_counts(routes.drop_last(), sent.drop_last());
        let route = routes.last();
        route.trips.lemma_value_seq();
        assert(sent.last() == route.on_wire());
        lemma_sent_trips_keep_calls(route.trips.value_seq(), sent.last().trips);
    }
}

/// Writes a trip as the message that carries it.
pub fn trip_to_wire(trip: &TripIR) -> (wire: Trip)
    ensures
        wire@ == trip.on_wire(),
{
    let mut stop_times: Vec<StopTime> = Vec::new();
    let n = trip.stop_times.len();
    let mut i: usize = 0;
    while i < n
        invariant
            i <= n,
            n == trip.stop_times.keys().len(),
            stop_times@.len() == i,
            forall|j: int|
                0 <= j < i ==> (#[trigger] stop_times@[j]).deep_view()
                    == trip.stop_times.values()[j],
        decreases n - i,
    {
        stop_times.push(trip.stop_times.value_at(i).copy());
        i += 1;
    }
    let wire = Trip {
        trip_id: Some(trip.trip_id.copy()),
        stop_times,
        headsign: trip.headsign.copy(),
        shape_id: trip.shape_id.copy(),
        direction: trip.direction,
        mask_start_date: Some(trip.mask_start_date.copy()),
        date_mask: Some(trip.date_mask),
    };
    proof {
        trip.stop_times.lemma_value_seq();
        assert(wire@.stop_times =~= trip.on_wire().stop_times);
    }
    wire
}

/// Writes a route as the message that carries it.
pub fn route_to_wire(route: &RouteIR) -> (wire: Route)
    ensures
        wire@ == route.on_wire(),
{
    let mut trips: Vec<Trip> = Vec::new();
    let n = route.trips.len();
    let mut i: usize = 0;
    while i < n
        invariant
            i <= n,
            n == route.trips.keys().len(),
            trips@.len() == i,
            forall|j: int|
                0 <= j < i ==> (#[trigger] trips@[j])@ == route.trips.value_seq()[j].on_wire(),
        decreases n - i,
    {
        trips.push(trip_to_wire(route.trips.value_at(i)));
        i += 1;
    }
    let wire = Route { route_id: Some(route.route_id.copy()), trips };
    proof {
        route.trips.lemma_value_seq();
        assert(wire@.trips =~= route.on_wire().trips);
    }
    wire
}

/// Copies the values of a map into a list, in the order of the map.
fn values_to_wire<K: Item, V: Item>(map: &KeyedMap<K, V>) -> (list: Vec<V>)
    ensures
        list.deep_view() == map.values(),
        list@.len() == map@.len(),
{
    let mut list: Vec<V> = Vec::new();
    let n = map.len();
    let mut i: usize = 0;
    while i < n
        invariant
            i <= n,
            n == map.keys().len(),
            list@.len() == i,
            forall|j: int| 0 <= j < i ==> (#[trigger] list@[j]).deep_view() == map.values()[j],
        decreases n - i,
    {
        list.push(map.value_at(i).copy());
        i += 1;
    }
    proof {
        map.lemma_value_seq();
        assert(list.deep_view() =~= map.values());
    }
    list
}

/// Copies the members of a set into a list, in the order of the set.
fn members_to_wire<K: Item>(set: &KeyedSet<K>) -> (list: Vec<K>)
    ensures
        list.deep_view() == set.members(),
{
    let mut list: Vec<K> = Vec::new();
    let n = set.len();
    let mut i: usize = 0;
    while i < n
        invariant
            i <= n,
            n == set.members().len(),
            list@.len() == i,
            forall|j: int| 0 <= j < i ==> (#[trigger] list@[j]).deep_view() == set.members()[j],
        decreases n - i,
    {
        list.push(set.member_at(i).copy());
        i += 1;
    }
    proof {
        assert(list.deep_view() =~= set.members());
    }
    list
}

/// Writes a snapshot as the message that carries it.
///
/// The message has as many routes, shapes and stops as the snapshot, and as
/// many trips and calls.
pub fn schedule_to_wire(ir: &ScheduleIR) -> (wire: FullSchedule)
    ensures
        wire@ == ir.on_wire(),
        wire@.routes.len() == ir@.routes.len(),
        wire@.shapes.len() == ir@.shapes.len(),
        wire@.stops.len() == ir@.stops.len(),
        wire@.trip_count() == ir.trip_count(),
        wire@.call_count() == ir.call_count(),
{
    let mut routes: Vec<Route> = Vec::new();
    let n = ir.routes.len();
    let mut i: usize = 0;
    while i < n
        invariant
            i <= n,
            n == ir.routes.keys().len(),
            routes@.len() == i,
            forall|j: int|
                0 <= j < i ==> (#[trigger] routes@[j])@ == ir.routes.value_seq()[j].on_wire(),
        decreases n - i,
    {
        routes.push(route_to_wire(ir.routes.value_at(i)));
        i += 1;
    }
    let shapes = values_to_wire(&ir.shapes);
    let stops = values_to_wire(&ir.stops);
    let wire = FullSchedule { routes, shapes, stops };
    proof {
        ir.routes.lemma_value_seq();
        assert(wire@.routes =~= ir.on_wire().routes);
        lemma_sent_routes_keep_counts(ir.routes.value_seq(), wire@.routes);
    }
    wire
}

impl From<TripIR> for Trip {
    fn from(value: TripIR) -> (wire: Trip)
        ensures
            wire@ == value.on_wire(),
    {
        trip_to_wire(&value)
    }
}

/// A message keeps the order in which its source holds its entries, which the
/// model of the source does not tell. So `from` states its result itself.
impl FromSpecImpl<TripIR> for Trip {
    open spec fn obeys_from_spec() -> bool {
        false
    }

    open spec fn from_spec(v: TripIR) -> Trip {
        arbitrary()
    }
}

impl From<RouteIR> for Route {
    fn from(value: RouteIR) -> (wire: Route)
        ensures
            wire@ == value.on_wire(),
    {
        route_to_wire(&value)
    }
}

/// A message keeps the order in which its source holds its entries, which the
/// model of the source does not tell. So `from` states its result itself.
impl FromSpecImpl<RouteIR> for Route {
    open spec fn obeys_from_spec() -> bool {
        false
    }

    open spec fn from_spec(v: RouteIR) -> Route {
        arbitrary()
    }
}

impl From<ScheduleIR> for FullSchedule {
    fn from(value: ScheduleIR) -> (wire: FullSchedule)
        ensures
            wire@ == value.on_wire(),
            wire@.routes.len() == value@.routes.len(),
            wire@.shapes.len() == value@.shapes.len(),
            wire@.stops.len() == value@.stops.len(),
            wire@.trip_count() == value.trip_count(),
            wire@.call_count() == value.call_count(),
    {
        schedule_to_wire(&value)
    }
}

/// A message keeps the order in which its source holds its entries, which the
/// model of the source does not tell. So `from` states its result itself.
impl FromSpecImpl<ScheduleIR> for FullSchedule {
    open spec fn obeys_from_spec() -> bool {
        false
    }

    open spec fn from_spec(v: ScheduleIR) -> FullSchedule {
        arbitrary()
    }
}

impl ScheduleUpdate {
    /// The message that carries this delta, each list in the order in which
    /// the delta holds its entries. A trip that is added comes with the id of
    /// its route.
    pub open spec fn on_wire(&self) -> ScheduleDiffView {
        ScheduleDiffView {
            added_trips: Seq::new(
                self.added_trips.keys().len(),
                |i: int|
                    TripExtView {
                        trip: Some(self.added_trips.value_seq()[i].on_wire()),
                        route_id: Some(self.added_trips.keys()[i].0),
                    },
            ),
            removed_trip_ids: Seq::new(
                self.removed_trip_ids.members().len(),
                |i: int|
                    TripIdTupleView {
                        route_id: Some(self.removed_trip_ids.members()[i].0),
                        trip_id: Some(self.removed_trip_ids.members()[i].1),
                    },
            ),
            added_shapes: self.added_shapes.values(),
            removed_shape_ids: self.removed_shape_ids.members(),
            added_stops: self.added_stops.values(),
            removed_stop_ids: self.removed_stop_ids.members(),
        }
    }
}

/// Writes a delta as the message that carries it.
pub fn update_to_wire(update: &ScheduleUpdate) -> (wire: ScheduleDiff)
    ensures
        wire@ == update.on_wire(),
{
    let mut added_trips: Vec<TripExt> = Vec::new();
    let n = update.added_trips.len();
    let mut i: usize = 0;
    while i < n
        invariant
            i <= n,
            n == update.added_trips.keys().len(),
            added_trips@.len() == i,
            forall|j: int|
                0 <= j < i ==> (#[trigger] added_trips@[j])@ == (TripExtView {
                    trip: Some(update.added_trips.value_seq()[j].on_wire()),
                    route_id: Some(update.added_trips.keys()[j].0),
                }),
        decreases n - i,
    {
        let address = update.added_trips.key_at(i);
        added_trips.push(
            TripExt {
                trip: Some(trip_to_wire(update.added_trips.value_at(i))),
                route_id: Some(address.0.copy()),
            },
        );
        i += 1;
    }
    let mut removed_trip_ids: Vec<TripIdTuple> = Vec::new();
    let m = update.removed_trip_ids.len();
    let mut j: usize = 0;
    while j < m
        invariant
            j <= m,
            m == update.removed_trip_ids.members().len(),
            removed_trip_ids@.len() == j,
            forall|k: int|
                0 <= k < j ==> (#[trigger] removed_trip_ids@[k])@ == (TripIdTupleView {
                    route_id: Some(update.removed_trip_ids.members()[k].0),
                    trip_id: Some(update.removed_trip_ids.members()[k].1),
                }),
        decreases m - j,
    {
        let address = update.removed_trip_ids.member_at(j);
        removed_trip_ids.push(
            TripIdTuple { route_id: Some(address.0.copy()), trip_id: Some(address.1.copy()) },
        );
        j += 1;
    }
    let wire = ScheduleDiff {
        added_trips,
        removed_trip_ids,
        added_shapes: values_to_wire(&update.added_shapes),
        removed_shape_ids: members_to_wire(&update.removed_shape_ids),
        added_stops: values_to_wire(&update.added_stops),
        removed_stop_ids: members_to_wire(&update.removed_stop_ids),
    };
    proof {
        update.added_trips.lemma_value_seq();
        assert(wire@.added_trips =~= update.on_wire().added_trips);
        assert(wire@.removed_trip_ids =~= update.on_wire().removed_trip_ids);
    }
    wire
}

impl From<ScheduleUpdate> for ScheduleDiff {
    fn from(value: ScheduleUpdate) -> (wire: ScheduleDiff)
        ensures
            wire@ == value.on_wire(),
    {
        update_to_wire(&value)
    }
}

/// A message keeps the order in which its source holds its entries, which the
/// model of the source does not tell. So `from` states its result itself.
impl FromSpecImpl<ScheduleUpdate> for ScheduleDiff {
    open spec fn obeys_from_spec() -> bool {
        false
    }

    open spec fn from_spec(v: ScheduleUpdate) -> ScheduleDiff {
        arbitrary()
    }
}

impl TripStopTimesUpdate {
    /// The message that carries these changes, each list in the order in
    /// which the changes are held.
    pub open spec fn on_wire(&self) -> TripStopTimesDiffView {
        TripStopTimesDiffView {
            trip_id: Some(self.trip_id@),
            added_stop_times: self.added_stop_times.values(),
            removed_stop_seq: self.removed_stop_time_seq.members(),
        }
    }
}

/// Writes the changes among the calls of a trip as the message that carries
/// them.
pub fn stop_times_update_to_wire(update: &TripStopTimesUpdate) -> (wire: TripStopTimesDiff)
    ensures
        wire@ == update.on_wire(),
{
    TripStopTimesDiff {
        trip_id: Some(update.trip_id.copy()),
        added_stop_times: values_to_wire(&update.added_stop_times),
        removed_stop_seq: members_to_wire(&update.removed_stop_time_seq),
    }
}

impl From<TripStopTimesUpdate> for TripStopTimesDiff {
    fn from(value: TripStopTimesUpdate) -> (wire: TripStopTimesDiff)
        ensures
            wire@ == value.on_wire(),
    {
        stop_times_update_to_wire(&value)
    }
}

/// A message keeps the order in which its source holds its entries, which the
/// model of the source does not tell. So `from` states its result itself.
impl FromSpecImpl<TripStopTimesUpdate> for TripStopTimesDiff {
    open spec fn obeys_from_spec() -> bool {
        false
    }

    open spec fn from_spec(v: TripStopTimesUpdate) -> TripStopTimesDiff {
        arbitrary()
    }
}

impl RouteTripsUpdate {
    /// The message that carries these changes, each list in the order in
    /// which the changes are held.
    pub open spec fn on_wire(&self) -> RouteTripsDiffView {
        RouteTripsDiffView {
            route_id: Some(self.route_id@),
            added_trips: Seq::new(
                self.added_trips.value_seq().len(),
                |i: int| self.added_trips.value_seq()[i].on_wire(),
            ),
            removed_trip_ids: self.removed_trip_ids.members(),
            trip_diffs: Seq::new(self.trip_diffs@.len(), |i: int| self.trip_diffs@[i].on_wire()),
        }
    }
}

/// Writes the changes among the trips of a route as the message that carries
/// them.
pub fn route_update_to_wire(update: &RouteTripsUpdate) -> (wire: RouteTripsDiff)
    ensures
        wire@ == update.on_wire(),
{
    let mut added_trips: Vec<Trip> = Vec::new();
    let n = update.added_trips.len();
    let mut i: usize = 0;
    while i < n
        invariant
            i <= n,
            n == update.added_trips.keys().len(),
            added_trips@.len() == i,
            forall|j: int|
                0 <= j < i ==> (#[trigger] added_trips@[j])@
                    == update.added_trips.value_seq()[j].on_wire(),
        decreases n - i,
    {
        added_trips.push(trip_to_wire(update.added_trips.value_at(i)));
        i += 1;
    }
    let mut trip_diffs: Vec<TripStopTimesDiff> = Vec::new();
    let mut j: usize = 0;
    while j < update.trip_diffs.len()
        invariant
            j <= update.trip_diffs@.len(),
            trip_diffs@.len() == j,
            forall|k: int|
                0 <= k < j ==> (#[trigger] trip_diffs@[k])@ == update.trip_diffs@[k].on_wire(),
        decreases update.trip_diffs@.len() - j,
    {
        trip_diffs.push(stop_times_update_to_wire(&update.trip_diffs[j]));
        j += 1;
    }
    let wire = RouteTripsDiff {
        route_id: Some(update.route_id.copy()),
        added_trips,
        removed_trip_ids: members_to_wire(&update.removed_trip_ids),
        trip_diffs,
    };
    proof {
        update.added_trips.lemma_value_seq();
        assert(wire@.added_trips =~= update.on_wire().added_trips);
        assert(wire@.trip_diffs =~= update.on_wire().trip_diffs);
    }
    wire
}

impl From<RouteTripsUpdate> for RouteTripsDiff {
    fn from(value: RouteTripsUpdate) -> (wire: RouteTripsDiff)
        ensures
            wire@ == value.on_wire(),
    {
        route_update_to_wire(&value)
    }
}

/// A message keeps the order in which its source holds its entries, which the
/// model of the source does not tell. So `from` states its result itself.
impl FromSpecImpl<RouteTripsUpdate> for RouteTripsDiff {
    open spec fn obeys_from_spec() -> bool {
        false
    }

    open spec fn from_spec(v: RouteTripsUpdate) -> RouteTripsDiff {
        arbitrary()
    }
}

} // verus!
