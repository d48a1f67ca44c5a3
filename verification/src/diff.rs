//! Deltas between schedule snapshots: computing one, applying one, and folding
//! two that follow one another into one.
//!
//! A delta addresses stops and shapes by their id and trips by the pair of
//! route id and trip id. Routes themselves are never added or removed: two
//! snapshots with different sets of routes have no delta.

use crate::delta::{
    added_entries, among, apply_entries, combinable, combine_entries, combined_added,
    combined_removed, diff_entries, entries_under, file_entries, file_members, first_outside,
    firsts, lemma_take_ends, lemma_take_step, members_under, patched, removed_keys,
    select_entries, select_members,
};
use crate::error::ScheduleError;
use crate::ir::{RouteIR, RouteIRView, ScheduleIR, ScheduleIRView, TripIR, TripIRView};
use crate::item::Item;
use crate::keyed::{KeyedMap, KeyedSet};
use crate::messages::{Shape, ShapeView, Stop, StopTime, StopTimeView, StopView};
use vstd::prelude::*;
use vstd::std_specs::cmp::PartialEqSpecImpl;

verus! {

/// What changes between two snapshots.
///
/// An id that stands both among the removed ids and among the added entries is
/// an update: the stale value goes and the new one comes.
#[derive(Debug)]
pub struct ScheduleUpdate {
    pub added_trips: KeyedMap<(String, String), TripIR>,
    pub removed_trip_ids: KeyedSet<(String, String)>,
    pub added_shapes: KeyedMap<String, Shape>,
    pub removed_shape_ids: KeyedSet<String>,
    pub added_stops: KeyedMap<String, Stop>,
    pub removed_stop_ids: KeyedSet<String>,
}

/// The mathematical model of a [`ScheduleUpdate`].
#[verifier::ext_equal]
pub struct ScheduleUpdateView {
    pub added_trips: Map<(Seq<char>, Seq<char>), TripIRView>,
    pub removed_trip_ids: Set<(Seq<char>, Seq<char>)>,
    pub added_shapes: Map<Seq<char>, ShapeView>,
    pub removed_shape_ids: Set<Seq<char>>,
    pub added_stops: Map<Seq<char>, StopView>,
    pub removed_stop_ids: Set<Seq<char>>,
}

impl View for ScheduleUpdate {
    type V = ScheduleUpdateView;

    open spec fn view(&self) -> ScheduleUpdateView {
        ScheduleUpdateView {
            added_trips: self.added_trips.deep_view(),
            removed_trip_ids: self.removed_trip_ids.deep_view(),
            added_shapes: self.added_shapes.deep_view(),
            removed_shape_ids: self.removed_shape_ids.deep_view(),
            added_stops: self.added_stops.deep_view(),
            removed_stop_ids: self.removed_stop_ids.deep_view(),
        }
    }
}

impl DeepView for ScheduleUpdate {
    type V = ScheduleUpdateView;

    open spec fn deep_view(&self) -> ScheduleUpdateView {
        self@
    }
}

impl Item for ScheduleUpdate {
    fn same(&self, other: &Self) -> (b: bool) {
        self.added_trips.same(&other.added_trips)
            && self.removed_trip_ids.same(&other.removed_trip_ids)
            && self.added_shapes.same(&other.added_shapes)
            && self.removed_shape_ids.same(&other.removed_shape_ids)
            && self.added_stops.same(&other.added_stops)
            && self.removed_stop_ids.same(&other.removed_stop_ids)
    }

    fn copy(&self) -> (c: Self) {
        ScheduleUpdate {
            added_trips: self.added_trips.copy(),
            removed_trip_ids: self.removed_trip_ids.copy(),
            added_shapes: self.added_shapes.copy(),
            removed_shape_ids: self.removed_shape_ids.copy(),
            added_stops: self.added_stops.copy(),
            removed_stop_ids: self.removed_stop_ids.copy(),
        }
    }
}

impl Clone for ScheduleUpdate {
    fn clone(&self) -> (c: Self)
        ensures
            c@ == self@,
    {
        self.copy()
    }
}

impl PartialEq for ScheduleUpdate {
    fn eq(&self, other: &Self) -> (b: bool) {
        self.same(other)
    }
}

impl PartialEqSpecImpl for ScheduleUpdate {
    open spec fn obeys_eq_spec() -> bool {
        true
    }

    open spec fn eq_spec(&self, other: &Self) -> bool {
        self@ == other@
    }
}

/// What changes among the calls of one trip, keyed by stop sequence.
#[derive(Debug)]
pub struct TripStopTimesUpdate {
    pub trip_id: String,
    pub added_stop_times: KeyedMap<u32, StopTime>,
    pub removed_stop_time_seq: KeyedSet<u32>,
}

/// The mathematical model of a [`TripStopTimesUpdate`].
#[verifier::ext_equal]
pub struct TripStopTimesUpdateView {
    pub trip_id: Seq<char>,
    pub added_stop_times: Map<u32, StopTimeView>,
    pub removed_stop_time_seq: Set<u32>,
}

impl View for TripStopTimesUpdate {
    type V = TripStopTimesUpdateView;

    open spec fn view(&self) -> TripStopTimesUpdateView {
        TripStopTimesUpdateView {
            trip_id: self.trip_id.deep_view(),
            added_stop_times: self.added_stop_times.deep_view(),
            removed_stop_time_seq: self.removed_stop_time_seq.deep_view(),
        }
    }
}

impl DeepView for TripStopTimesUpdate {
    type V = TripStopTimesUpdateView;

    open spec fn deep_view(&self) -> TripStopTimesUpdateView {
        self@
    }
}

impl Item for TripStopTimesUpdate {
    fn same(&self, other: &Self) -> (b: bool) {
        self.trip_id.same(&other.trip_id)
            && self.added_stop_times.same(&other.added_stop_times)
            && self.removed_stop_time_seq.same(&other.removed_stop_time_seq)
    }

    fn copy(&self) -> (c: Self) {
        TripStopTimesUpdate {
            trip_id: self.trip_id.copy(),
            added_stop_times: self.added_stop_times.copy(),
            removed_stop_time_seq: self.removed_stop_time_seq.copy(),
        }
    }
}

impl Clone for TripStopTimesUpdate {
    fn clone(&self) -> (c: Self)
        ensures
            c@ == self@,
    {
        self.copy()
    }
}

impl PartialEq for TripStopTimesUpdate {
    fn eq(&self, other: &Self) -> (b: bool) {
        self.same(other)
    }
}

impl PartialEqSpecImpl for TripStopTimesUpdate {
    open spec fn obeys_eq_spec() -> bool {
        true
    }

    open spec fn eq_spec(&self, other: &Self) -> bool {
        self@ == other@
    }
}

/// What changes among the trips of one route: whole trips that come and go,
/// and for trips that only changed their calls, the changes among those.
#[derive(Debug)]
pub struct RouteTripsUpdate {
    pub route_id: String,
    pub added_trips: KeyedMap<String, TripIR>,
    pub removed_trip_ids: KeyedSet<String>,
    pub trip_diffs: Vec<TripStopTimesUpdate>,
}

/// The mathematical model of a [`RouteTripsUpdate`].
#[verifier::ext_equal]
pub struct RouteTripsUpdateView {
    pub route_id: Seq<char>,
    pub added_trips: Map<Seq<char>, TripIRView>,
    pub removed_trip_ids: Set<Seq<char>>,
    pub trip_diffs: Seq<TripStopTimesUpdateView>,
}

impl View for RouteTripsUpdate {
    type V = RouteTripsUpdateView;

    open spec fn view(&self) -> RouteTripsUpdateView {
        RouteTripsUpdateView {
            route_id: self.route_id.deep_view(),
            added_trips: self.added_trips.deep_view(),
            removed_trip_ids: self.removed_trip_ids.deep_view(),
            trip_diffs: self.trip_diffs.deep_view(),
        }
    }
}

impl DeepView for RouteTripsUpdate {
    type V = RouteTripsUpdateView;

    open spec fn deep_view(&self) -> RouteTripsUpdateView {
        self@
    }
}

impl Item for RouteTripsUpdate {
    fn same(&self, other: &Self) -> (b: bool) {
        self.route_id.same(&other.route_id)
            && self.added_trips.same(&other.added_trips)
            && self.removed_trip_ids.same(&other.removed_trip_ids)
            && self.trip_diffs.same(&other.trip_diffs)
    }

    fn copy(&self) -> (c: Self) {
        RouteTripsUpdate {
            route_id: self.route_id.copy(),
            added_trips: self.added_trips.copy(),
            removed_trip_ids: self.removed_trip_ids.copy(),
            trip_diffs: self.trip_diffs.copy(),
        }
    }
}

impl Clone for RouteTripsUpdate {
    fn clone(&self) -> (c: Self)
        ensures
            c@ == self@,
    {
        self.copy()
    }
}

impl PartialEq for RouteTripsUpdate {
    fn eq(&self, other: &Self) -> (b: bool) {
        self.same(other)
    }
}

impl PartialEqSpecImpl for RouteTripsUpdate {
    open spec fn obeys_eq_spec() -> bool {
        true
    }

    open spec fn eq_spec(&self, other: &Self) -> bool {
        self@ == other@
    }
}

/// Every trip of a snapshot, addressed by its route id and its own id.
pub open spec fn trip_table(ir: ScheduleIRView) -> Map<(Seq<char>, Seq<char>), TripIRView> {
    Map::new(
        |k: (Seq<char>, Seq<char>)|
            ir.routes.contains_key(k.0) && ir.routes[k.0].trips.contains_key(k.1),
        |k: (Seq<char>, Seq<char>)| ir.routes[k.0].trips[k.1],
    )
}

/// The delta that leads from `prev` to `curr`, for snapshots with the same
/// routes.
pub open spec fn schedule_diff(curr: ScheduleIRView, prev: ScheduleIRView) -> ScheduleUpdateView {
    ScheduleUpdateView {
        added_trips: added_entries(trip_table(curr), trip_table(prev)),
        removed_trip_ids: removed_keys(trip_table(curr), trip_table(prev)),
        added_shapes: added_entries(curr.shapes, prev.shapes),
        removed_shape_ids: removed_keys(curr.shapes, prev.shapes),
        added_stops: added_entries(curr.stops, prev.stops),
        removed_stop_ids: removed_keys(curr.stops, prev.stops),
    }
}

/// The delta that changes nothing.
pub open spec fn empty_update() -> ScheduleUpdateView {
    ScheduleUpdateView {
        added_trips: Map::empty(),
        removed_trip_ids: Set::empty(),
        added_shapes: Map::empty(),
        removed_shape_ids: Set::empty(),
        added_stops: Map::empty(),
        removed_stop_ids: Set::empty(),
    }
}

/// Whether an error names the route over which two snapshots disagree, when
/// `curr_ids` and `prev_ids` are the route ids of the newer and of the older
/// snapshot in their order: the first new route, or where no route is new,
/// the first that is gone.
pub open spec fn names_route_mismatch(
    e: ScheduleError,
    curr_ids: Seq<Seq<char>>,
    prev_ids: Seq<Seq<char>>,
) -> bool {
    match e {
        ScheduleError::NewRoute(id) => exists|i: int| #[trigger]
            first_outside(curr_ids, prev_ids.to_set(), i) && curr_ids[i] == id@,
        ScheduleError::RemovedRoute(id) => curr_ids.to_set().subset_of(prev_ids.to_set())
            && exists|i: int| #[trigger]
            first_outside(prev_ids, curr_ids.to_set(), i) && prev_ids[i] == id@,
        _ => false,
    }
}

/// Whether an error names the route that keeps a delta from a snapshot with
/// the routes `routes`: the route of the first address among the removed
/// addresses that is on no route, or where all of these are on a route, of
/// the first such address among the added ones.
pub open spec fn names_unknown_route(
    e: ScheduleError,
    removed: Seq<(Seq<char>, Seq<char>)>,
    added: Seq<(Seq<char>, Seq<char>)>,
    routes: Set<Seq<char>>,
) -> bool {
    match e {
        ScheduleError::UnknownRoute(id) => {
            ||| exists|i: int| #[trigger]
                first_outside(firsts(removed), routes, i) && removed[i].0 == id@
            ||| {
                &&& forall|i: int|
                    0 <= i < removed.len() ==> routes.contains(#[trigger] removed[i].0)
                &&& exists|i: int| #[trigger]
                    first_outside(firsts(added), routes, i) && added[i].0 == id@
            }
        },
        _ => false,
    }
}

/// The changes among the calls of a trip, from `prev` to `curr`.
pub open spec fn stop_times_diff(curr: TripIRView, prev: TripIRView) -> TripStopTimesUpdateView {
    TripStopTimesUpdateView {
        trip_id: curr.trip_id,
        added_stop_times: added_entries(curr.stop_times, prev.stop_times),
        removed_stop_time_seq: removed_keys(curr.stop_times, prev.stop_times),
    }
}

impl ScheduleIR {
    /// The delta that leads from `prev` to this snapshot.
    ///
    /// Fails when the two snapshots do not have the same routes.
    pub fn get_diff(&self, prev: &Self) -> (res: Result<ScheduleUpdate, ScheduleError>)
        ensures
            res is Ok <==> self@.routes.dom() == prev@.routes.dom(),
            res matches Ok(update) ==> update@ == schedule_diff(self@, prev@),
            res matches Err(e) ==> names_route_mismatch(e, self.routes.keys(), prev.routes.keys()),
    {
        let (added_stops, removed_stop_ids) = self.get_stop_diffs(prev);
        let (added_shapes, removed_shape_ids) = self.get_shape_diffs(prev);
        match self.get_trip_diffs(prev) {
            Ok((added_trips, removed_trip_ids)) => Ok(
                ScheduleUpdate {
                    added_trips,
                    removed_trip_ids,
                    added_shapes,
                    removed_shape_ids,
                    added_stops,
                    removed_stop_ids,
                },
            ),
            Err(e) => Err(e),
        }
    }

    /// The stops to add and the stop ids to remove on the way from `prev` to
    /// this snapshot.
    pub fn get_stop_diffs(&self, prev: &Self) -> (delta: (KeyedMap<String, Stop>, KeyedSet<String>))
        ensures
            delta.0@ == added_entries(self@.stops, prev@.stops),
            delta.1@ == removed_keys(self@.stops, prev@.stops),
    {
        diff_entries(&self.stops, &prev.stops)
    }

    /// The shapes to add and the shape ids to remove on the way from `prev` to
    /// this snapshot.
    pub fn get_shape_diffs(&self, prev: &Self) -> (delta: (
        KeyedMap<String, Shape>,
        KeyedSet<String>,
    ))
        ensures
            delta.0@ == added_entries(self@.shapes, prev@.shapes),
            delta.1@ == removed_keys(self@.shapes, prev@.shapes),
    {
        diff_entries(&self.shapes, &prev.shapes)
    }

    /// The trips to add and the trip addresses to remove on the way from
    /// `prev` to this snapshot, each addressed by route id and trip id.
    ///
    /// Fails when the two snapshots do not have the same routes.
    pub fn get_trip_diffs(&self, prev: &Self) -> (res: Result<
        (KeyedMap<(String, String), TripIR>, KeyedSet<(String, String)>),
        ScheduleError,
    >)
        ensures
            res is Ok <==> self@.routes.dom() == prev@.routes.dom(),
            res matches Ok(delta) ==> delta.0@ == added_entries(
                trip_table(self@),
                trip_table(prev@),
            ) && delta.1@ == removed_keys(trip_table(self@), trip_table(prev@)),
            res matches Err(e) ==> names_route_mismatch(e, self.routes.keys(), prev.routes.keys()),
    {
        let mut added: KeyedMap<(String, String), TripIR> = KeyedMap::new();
        let mut removed: KeyedSet<(String, String)> = KeyedSet::new();
        let ghost goal_added = added_entries(trip_table(self@), trip_table(prev@));
        let ghost goal_removed = removed_keys(trip_table(self@), trip_table(prev@));
        proof {
            use_type_invariant(&self.routes);
            use_type_invariant(&prev.routes);
            self.routes.lemma_entries();
            prev.routes.lemma_entries();
            lemma_take_ends(self.routes.keys());
            lemma_take_ends(prev.routes.keys());
        }
        let n = self.routes.len();
        let mut i: usize = 0;
        while i < n
            invariant
                i <= n,
                n == self.routes.keys().len(),
                self.routes.wf(),
                prev.routes.wf(),
                goal_added == added_entries(trip_table(self@), trip_table(prev@)),
                goal_removed == removed_keys(trip_table(self@), trip_table(prev@)),
                forall|r: Seq<char>| #[trigger]
                    among(self.routes.keys(), i as int, r) ==> prev@.routes.contains_key(r),
                forall|k: (Seq<char>, Seq<char>)|
                    #![trigger added@.contains_key(k)]
                    added@.contains_key(k) <==> among(self.routes.keys(), i as int, k.0)
                        && goal_added.contains_key(k),
                forall|k: (Seq<char>, Seq<char>)|
                    added@.contains_key(k) ==> #[trigger] added@[k] == goal_added[k],
                forall|k: (Seq<char>, Seq<char>)|
                    #![trigger removed@.contains(k)]
                    removed@.contains(k) <==> among(self.routes.keys(), i as int, k.0)
                        && goal_removed.contains(k),
            decreases n - i,
        {
            let route_id = self.routes.key_at(i);
            let route = self.routes.value_at(i);
            proof {
                self.routes.lemma_entries();
                prev.routes.lemma_entries();
                lemma_take_step(self.routes.keys(), i as int);
            }
            match prev.routes.get(route_id) {
                None => {
                    proof {
                        assert forall|j: int|
                            0 <= j < i implies prev.routes.keys().to_set().contains(
                            #[trigger] self.routes.keys()[j],
                        ) by {
                            assert(self.routes.keys().take(i as int)[j] == self.routes.keys()[j]);
                            assert(among(self.routes.keys(), i as int, self.routes.keys()[j]));
                        }
                        assert(first_outside(
                            self.routes.keys(),
                            prev.routes.keys().to_set(),
                            i as int,
                        ));
                    }
                    return Err(ScheduleError::NewRoute(route_id.copy()));
                },
                Some(prev_route) => {
                    let (route_added, route_removed) = diff_entries(
                        &route.trips,
                        &prev_route.trips,
                    );
                    file_entries(&mut added, route_id, &route_added);
                    file_members(&mut removed, route_id, &route_removed);
                },
            }
            i += 1;
        }
        proof {
            assert forall|r: Seq<char>|
                self@.routes.dom().contains(r) implies prev@.routes.dom().contains(r) by {
                assert(among(self.routes.keys(), n as int, r));
            }
        }
        let m = prev.routes.len();
        let mut j: usize = 0;
        while j < m
            invariant
                j <= m,
                m == prev.routes.keys().len(),
                prev.routes.wf(),
                self.routes.wf(),
                self@.routes.dom().subset_of(prev@.routes.dom()),
                forall|r: Seq<char>| #[trigger]
                    among(prev.routes.keys(), j as int, r) ==> self@.routes.contains_key(r),
            decreases m - j,
        {
            let route_id = prev.routes.key_at(j);
            proof {
                self.routes.lemma_entries();
                prev.routes.lemma_entries();
                lemma_take_step(prev.routes.keys(), j as int);
            }
            if !self.routes.contains_key(route_id) {
                proof {
                    assert forall|t: int|
                        0 <= t < j implies self.routes.keys().to_set().contains(
                        #[trigger] prev.routes.keys()[t],
                    ) by {
                        assert(prev.routes.keys().take(j as int)[t] == prev.routes.keys()[t]);
                        assert(among(prev.routes.keys(), j as int, prev.routes.keys()[t]));
                    }
                    assert(first_outside(
                        prev.routes.keys(),
                        self.routes.keys().to_set(),
                        j as int,
                    ));
                }
                return Err(ScheduleError::RemovedRoute(route_id.copy()));
            }
            j += 1;
        }
        proof {
            assert(self@.routes.dom() =~= prev@.routes.dom()) by {
                assert forall|r: Seq<char>|
                    prev@.routes.dom().contains(r) implies self@.routes.dom().contains(r) by {
                    assert(among(prev.routes.keys(), m as int, r));
                }
            }
            assert(added@ =~= goal_added) by {
                assert forall|k: (Seq<char>, Seq<char>)|
                    goal_added.contains_key(k) implies added@.contains_key(k) by {
                    assert(among(self.routes.keys(), n as int, k.0));
                }
            }
            assert(removed@ =~= goal_removed) by {
                assert forall|k: (Seq<char>, Seq<char>)|
                    goal_removed.contains(k) implies removed@.contains(k) by {
                    assert(prev@.routes.contains_key(k.0));
                    assert(self@.routes.dom().contains(k.0));
                    assert(among(self.routes.keys(), n as int, k.0));
                }
            }
        }
        Ok((added, removed))
    }

    /// The changes among the calls of one trip, from `prev` to `curr`.
    pub fn get_trip_stop_times_diff(curr: &TripIR, prev: &TripIR) -> (update: TripStopTimesUpdate)
        ensures
            update@ == stop_times_diff(curr@, prev@),
    {
        let (added_stop_times, removed_stop_time_seq) = diff_entries(
            &curr.stop_times,
            &prev.stop_times,
        );
        TripStopTimesUpdate {
            trip_id: curr.trip_id.copy(),
            added_stop_times,
            removed_stop_time_seq,
        }
    }
}

/// Whether every trip that a delta addresses stands on a route of `base`.
pub open spec fn reaches(update: ScheduleUpdateView, base: ScheduleIRView) -> bool {
    forall|k: (Seq<char>, Seq<char>)|
        #![trigger update.removed_trip_ids.contains(k)]
        #![trigger update.added_trips.contains_key(k)]
        update.removed_trip_ids.contains(k) || update.added_trips.contains_key(k)
            ==> base.routes.contains_key(k.0)
}

/// A route after the part of a delta that is addressed to it, `r` being the
/// id under which the route is filed.
pub open spec fn route_patched(
    update: ScheduleUpdateView,
    route: RouteIRView,
    r: Seq<char>,
) -> RouteIRView {
    RouteIRView {
        route_id: route.route_id,
        trips: patched(
            route.trips,
            entries_under(update.added_trips, r),
            members_under(update.removed_trip_ids, r),
        ),
    }
}

/// A snapshot after a delta: in each class the removals, then the insertions.
pub open spec fn schedule_patched(
    update: ScheduleUpdateView,
    base: ScheduleIRView,
) -> ScheduleIRView {
    ScheduleIRView {
        routes: Map::new(
            |r: Seq<char>| base.routes.contains_key(r),
            |r: Seq<char>| route_patched(update, base.routes[r], r),
        ),
        shapes: patched(base.shapes, update.added_shapes, update.removed_shape_ids),
        stops: patched(base.stops, update.added_stops, update.removed_stop_ids),
    }
}

/// Whether two deltas can follow one another, class by class.
pub open spec fn updates_combinable(first: ScheduleUpdateView, second: ScheduleUpdateView) -> bool {
    &&& combinable(
        first.added_shapes,
        first.removed_shape_ids,
        second.added_shapes,
        second.removed_shape_ids,
    )
    &&& combinable(
        first.added_stops,
        first.removed_stop_ids,
        second.added_stops,
        second.removed_stop_ids,
    )
    &&& combinable(
        first.added_trips,
        first.removed_trip_ids,
        second.added_trips,
        second.removed_trip_ids,
    )
}

/// The one delta that stands for `first` followed by `second`.
pub open spec fn updates_combined(
    first: ScheduleUpdateView,
    second: ScheduleUpdateView,
) -> ScheduleUpdateView {
    ScheduleUpdateView {
        added_trips: combined_added(
            first.added_trips,
            first.removed_trip_ids,
            second.added_trips,
            second.removed_trip_ids,
        ),
        removed_trip_ids: combined_removed(
            first.added_trips,
            first.removed_trip_ids,
            second.added_trips,
            second.removed_trip_ids,
        ),
        added_shapes: combined_added(
            first.added_shapes,
            first.removed_shape_ids,
            second.added_shapes,
            second.removed_shape_ids,
        ),
        removed_shape_ids: combined_removed(
            first.added_shapes,
            first.removed_shape_ids,
            second.added_shapes,
            second.removed_shape_ids,
        ),
        added_stops: combined_added(
            first.added_stops,
            first.removed_stop_ids,
            second.added_stops,
            second.removed_stop_ids,
        ),
        removed_stop_ids: combined_removed(
            first.added_stops,
            first.removed_stop_ids,
            second.added_stops,
            second.removed_stop_ids,
        ),
    }
}

impl Default for ScheduleUpdate {
    /// The delta that changes nothing.
    fn default() -> (update: Self)
        ensures
            update@ == empty_update(),
    {
        ScheduleUpdate {
            added_trips: KeyedMap::new(),
            added_shapes: KeyedMap::new(),
            added_stops: KeyedMap::new(),
            removed_trip_ids: KeyedSet::new(),
            removed_stop_ids: KeyedSet::new(),
            removed_shape_ids: KeyedSet::new(),
        }
    }
}

impl ScheduleUpdate {
    /// Folds this delta and the one that follows it into one.
    ///
    /// Fails when some id stands in a state that two deltas which follow one
    /// another cannot produce.
    pub fn combine(&self, other: &ScheduleUpdate) -> (res: Result<ScheduleUpdate, ScheduleError>)
        ensures
            res is Ok <==> updates_combinable(self@, other@),
            res matches Ok(update) ==> update@ == updates_combined(self@, other@),
            res matches Err(e) ==> e is UnexpectedDiffState,
    {
        let shapes = combine_entries(
            &self.added_shapes,
            &self.removed_shape_ids,
            &other.added_shapes,
            &other.removed_shape_ids,
        );
        let stops = combine_entries(
            &self.added_stops,
            &self.removed_stop_ids,
            &other.added_stops,
            &other.removed_stop_ids,
        );
        let trips = combine_entries(
            &self.added_trips,
            &self.removed_trip_ids,
            &other.added_trips,
            &other.removed_trip_ids,
        );
        match (shapes, stops, trips) {
            (
                Some((added_shapes, removed_shape_ids)),
                Some((added_stops, removed_stop_ids)),
                Some((added_trips, removed_trip_ids)),
            ) => Ok(
                ScheduleUpdate {
                    added_shapes,
                    added_trips,
                    added_stops,
                    removed_trip_ids,
                    removed_shape_ids,
                    removed_stop_ids,
                },
            ),
            _ => Err(ScheduleError::UnexpectedDiffState),
        }
    }

    /// Applies this delta to a snapshot.
    ///
    /// Fails when the delta addresses a trip on a route that the snapshot
    /// does not have, and then names that route.
    pub fn apply_to_schedule(&self, response: ScheduleIR) -> (res: Result<
        ScheduleIR,
        ScheduleError,
    >)
        ensures
            res is Ok <==> reaches(self@, response@),
            res matches Ok(ir) ==> ir@ == schedule_patched(self@, response@),
            res matches Err(e) ==> names_unknown_route(
                e,
                self.removed_trip_ids.members(),
                self.added_trips.keys(),
                response@.routes.dom(),
            ),
    {
        let ghost base = response@;
        let mut ir = response;
        proof {
            use_type_invariant(&self.removed_trip_ids);
            use_type_invariant(&self.added_trips);
            self.removed_trip_ids.lemma_members();
            self.added_trips.lemma_entries();
            lemma_take_ends(self.removed_trip_ids.members());
            lemma_take_ends(self.added_trips.keys());
        }
        let n = self.removed_trip_ids.len();
        let mut i: usize = 0;
        while i < n
            invariant
                i <= n,
                n == self.removed_trip_ids.members().len(),
                self.removed_trip_ids.wf(),
                ir@ == base,
                base == response@,
                forall|k: (Seq<char>, Seq<char>)| #[trigger]
                    among(self.removed_trip_ids.members(), i as int, k)
                        ==> base.routes.contains_key(k.0),
            decreases n - i,
        {
            let address = self.removed_trip_ids.member_at(i);
            proof {
                lemma_take_step(self.removed_trip_ids.members(), i as int);
            }
            if !ir.routes.contains_key(&address.0) {
                proof {
                    let removed = self.removed_trip_ids.members();
                    assert forall|t: int| 0 <= t < i implies base.routes.dom().contains(
                        #[trigger] firsts(removed)[t],
                    ) by {
                        assert(removed.take(i as int)[t] == removed[t]);
                        assert(among(removed, i as int, removed[t]));
                    }
                    assert(first_outside(firsts(removed), base.routes.dom(), i as int));
                    assert(self@.removed_trip_ids.contains((address.0@, address.1@)));
                }
                return Err(ScheduleError::UnknownRoute(address.0.copy()));
            }
            i += 1;
        }
        proof {
            let removed = self.removed_trip_ids.members();
            assert forall|t: int| 0 <= t < removed.len() implies base.routes.dom().contains(
                (#[trigger] removed[t]).0,
            ) by {
                assert(removed.contains(removed[t]));
                assert(among(removed, n as int, removed[t]));
            }
        }
        let m = self.added_trips.len();
        let mut j: usize = 0;
        while j < m
            invariant
                j <= m,
                m == self.added_trips.keys().len(),
                self.added_trips.wf(),
                ir@ == base,
                base == response@,
                forall|t: int|
                    0 <= t < self.removed_trip_ids.members().len() ==> base.routes.dom().contains(
                        (#[trigger] self.removed_trip_ids.members()[t]).0,
                    ),
                forall|k: (Seq<char>, Seq<char>)| #[trigger]
                    among(self.added_trips.keys(), j as int, k) ==> base.routes.contains_key(k.0),
            decreases m - j,
        {
            let address = self.added_trips.key_at(j);
            proof {
                lemma_take_step(self.added_trips.keys(), j as int);
            }
            if !ir.routes.contains_key(&address.0) {
                proof {
                    let added = self.added_trips.keys();
                    assert forall|t: int| 0 <= t < j implies base.routes.dom().contains(
                        #[trigger] firsts(added)[t],
                    ) by {
                        assert(added.take(j as int)[t] == added[t]);
                        assert(among(added, j as int, added[t]));
                    }
                    assert(first_outside(firsts(added), base.routes.dom(), j as int));
                    assert(self@.added_trips.contains_key((address.0@, address.1@)));
                }
                return Err(ScheduleError::UnknownRoute(address.0.copy()));
            }
            j += 1;
        }
        proof {
            assert(reaches(self@, base)) by {
                assert forall|k: (Seq<char>, Seq<char>)|
                    self@.removed_trip_ids.contains(k) || self@.added_trips.contains_key(
                        k,
                    ) implies base.routes.contains_key(k.0) by {
                    if self@.removed_trip_ids.contains(k) {
                        assert(among(self.removed_trip_ids.members(), n as int, k));
                    } else {
                        assert(among(self.added_trips.keys(), m as int, k));
                    }
                }
            }
        }
        apply_entries(&mut ir.shapes, &self.added_shapes, &self.removed_shape_ids);
        apply_entries(&mut ir.stops, &self.added_stops, &self.removed_stop_ids);

        let ghost route_ids = ir.routes.keys();
        proof {
            use_type_invariant(&ir.routes);
            ir.routes.lemma_entries();
            lemma_take_ends(route_ids);
        }
        let count = ir.routes.len();
        let mut r: usize = 0;
        while r < count
            invariant
                r <= count,
                count == route_ids.len(),
                ir.routes.keys() == route_ids,
                ir.shapes@ == patched(
                    base.shapes,
                    self@.added_shapes,
                    self@.removed_shape_ids,
                ),
                ir.stops@ == patched(base.stops, self@.added_stops, self@.removed_stop_ids),
                forall|id: Seq<char>|
                    ir.routes@.contains_key(id) <==> base.routes.contains_key(id),
                forall|id: Seq<char>|
                    base.routes.contains_key(id) ==> route_ids.contains(id),
                forall|id: Seq<char>|
                    base.routes.contains_key(id) ==> #[trigger] ir.routes@[id] == (if among(
                        route_ids,
                        r as int,
                        id,
                    ) {
                        route_patched(self@, base.routes[id], id)
                    } else {
                        base.routes[id]
                    }),
            decreases count - r,
        {
            proof {
                use_type_invariant(&ir.routes);
                ir.routes.lemma_entries();
                lemma_take_step(route_ids, r as int);
            }
            let route_id = ir.routes.key_at(r).copy();
            let added = select_entries(&self.added_trips, &route_id);
            let removed = select_members(&self.removed_trip_ids, &route_id);
            let route = ir.routes.value_at(r);
            let mut trips = route.trips.copy();
            let name = route.route_id.copy();
            apply_entries(&mut trips, &added, &removed);
            ir.routes.replace_at(r, RouteIR { route_id: name, trips });
            r += 1;
        }
        proof {
            assert(ir.routes@ =~= schedule_patched(self@, base).routes) by {
                assert forall|id: Seq<char>| base.routes.contains_key(id) implies ir.routes@[id]
                    == route_patched(self@, base.routes[id], id) by {
                    assert(among(route_ids, count as int, id));
                }
            }
        }
        Ok(ir)
    }
}

/// Whether a trip changed in anything but its calls: its id, its shape, its
/// headsign, its direction, the start of its date mask or the mask itself.
pub open spec fn header_changed(curr: TripIRView, prev: TripIRView) -> bool {
    ||| curr.trip_id != prev.trip_id
    ||| curr.shape_id != prev.shape_id
    ||| curr.headsign != prev.headsign
    ||| curr.direction != prev.direction
    ||| curr.mask_start_date != prev.mask_start_date
    ||| curr.date_mask != prev.date_mask
}

/// Two trips differ exactly when they differ in their header or in their
/// calls, so the changes among the trips of a route miss no change.
pub proof fn lemma_trip_changes(curr: TripIRView, prev: TripIRView)
    ensures
        curr != prev <==> header_changed(curr, prev) || curr.stop_times != prev.stop_times,
{
}

/// Decides whether a trip changed in anything but its calls.
pub fn header_differs(curr: &TripIR, prev: &TripIR) -> (changed: bool)
    ensures
        changed == header_changed(curr@, prev@),
{
    !curr.trip_id.same(&prev.trip_id) || !curr.shape_id.same(&prev.shape_id)
        || !curr.headsign.same(&prev.headsign) || !curr.direction.same(&prev.direction)
        || !curr.mask_start_date.same(&prev.mask_start_date) || curr.date_mask != prev.date_mask
}

/// The trips of a route that are new, or whose header changed.
pub open spec fn route_added_trips(
    curr: Map<Seq<char>, TripIRView>,
    prev: Map<Seq<char>, TripIRView>,
) -> Map<Seq<char>, TripIRView> {
    Map::new(
        |t: Seq<char>|
            curr.contains_key(t) && (!prev.contains_key(t) || header_changed(curr[t], prev[t])),
        |t: Seq<char>| curr[t],
    )
}

/// The trips of a route that are gone, or whose header changed.
pub open spec fn route_removed_trips(
    curr: Map<Seq<char>, TripIRView>,
    prev: Map<Seq<char>, TripIRView>,
) -> Set<Seq<char>> {
    Set::new(
        |t: Seq<char>|
            prev.contains_key(t) && (!curr.contains_key(t) || header_changed(curr[t], prev[t])),
    )
}

/// For the trips under `ids`, in that order: the changes among the calls of
/// each trip that is in both routes with the same header and other calls.
pub open spec fn call_diffs(
    ids: Seq<Seq<char>>,
    curr: Map<Seq<char>, TripIRView>,
    prev: Map<Seq<char>, TripIRView>,
) -> Seq<TripStopTimesUpdateView>
    decreases ids.len(),
{
    if ids.len() == 0 {
        Seq::empty()
    } else {
        let before = call_diffs(ids.drop_last(), curr, prev);
        let t = ids.last();
        if prev.contains_key(t) && !header_changed(curr[t], prev[t]) && curr[t].stop_times
            != prev[t].stop_times {
            before.push(stop_times_diff(curr[t], prev[t]))
        } else {
            before
        }
    }
}

impl ScheduleIR {
    /// The changes among the trips of one route, from `prev` to `curr`.
    ///
    /// A trip that changed in anything but its calls is removed and added as
    /// a whole. A trip of which only the calls changed is reported by the
    /// changes among its calls, in the order of the trips of `curr`.
    pub fn get_route_trips_diff(curr: &RouteIR, prev: &RouteIR) -> (update: RouteTripsUpdate)
        ensures
            update@.route_id == curr@.route_id,
            update@.added_trips == route_added_trips(curr@.trips, prev@.trips),
            update@.removed_trip_ids == route_removed_trips(curr@.trips, prev@.trips),
            update@.trip_diffs == call_diffs(curr.trips.keys(), curr@.trips, prev@.trips),
    {
        let mut added_trips: KeyedMap<String, TripIR> = KeyedMap::new();
        let mut removed_trip_ids: KeyedSet<String> = KeyedSet::new();
        let mut trip_diffs: Vec<TripStopTimesUpdate> = Vec::new();
        let ghost ids = curr.trips.keys();
        let ghost goal_added = route_added_trips(curr@.trips, prev@.trips);
        let ghost goal_removed = route_removed_trips(curr@.trips, prev@.trips);
        proof {
            use_type_invariant(&curr.trips);
            use_type_invariant(&prev.trips);
            curr.trips.lemma_entries();
            prev.trips.lemma_entries();
            lemma_take_ends(ids);
            lemma_take_ends(prev.trips.keys());
            assert(ids.take(0) =~= Seq::<Seq<char>>::empty());
        }
        let n = curr.trips.len();
        let mut i: usize = 0;
        while i < n
            invariant
                i <= n,
                n == ids.len(),
                ids == curr.trips.keys(),
                curr.trips.wf(),
                goal_added == route_added_trips(curr@.trips, prev@.trips),
                goal_removed == route_removed_trips(curr@.trips, prev@.trips),
                forall|t: Seq<char>|
                    #![trigger added_trips@.contains_key(t)]
                    #![trigger among(ids, i as int, t)]
                    added_trips@.contains_key(t) <==> among(ids, i as int, t)
                        && goal_added.contains_key(t),
                forall|t: Seq<char>|
                    added_trips@.contains_key(t) ==> #[trigger] added_trips@[t] == curr@.trips[t],
                forall|t: Seq<char>|
                    #![trigger removed_trip_ids@.contains(t)]
                    #![trigger among(ids, i as int, t)]
                    removed_trip_ids@.contains(t) <==> among(ids, i as int, t)
                        && goal_removed.contains(t),
                trip_diffs.deep_view() == call_diffs(ids.take(i as int), curr@.trips, prev@.trips),
            decreases n - i,
        {
            let trip_id = curr.trips.key_at(i);
            let curr_trip = curr.trips.value_at(i);
            let ghost before = trip_diffs.deep_view();
            proof {
                curr.trips.lemma_entries();
                lemma_take_step(ids, i as int);
                assert(ids.take(i + 1).drop_last() =~= ids.take(i as int));
                assert(ids.take(i + 1).last() == ids[i as int]);
            }
            match prev.trips.get(trip_id) {
                Some(prev_trip) => {
                    if header_differs(curr_trip, prev_trip) {
                        removed_trip_ids.insert(trip_id.copy());
                        added_trips.insert(trip_id.copy(), curr_trip.copy());
                    } else if !curr_trip.stop_times.same(&prev_trip.stop_times) {
                        let calls = Self::get_trip_stop_times_diff(curr_trip, prev_trip);
                        trip_diffs.push(calls);
                        proof {
                            assert(trip_diffs.deep_view() =~= before.push(
                                stop_times_diff(curr_trip@, prev_trip@),
                            ));
                        }
                    }
                },
                None => {
                    added_trips.insert(trip_id.copy(), curr_trip.copy());
                },
            }
            i += 1;
        }
        proof {
            assert(ids.take(n as int) =~= ids);
            assert(added_trips@ =~= goal_added);
        }
        let m = prev.trips.len();
        let mut j: usize = 0;
        while j < m
            invariant
                j <= m,
                m == prev.trips.keys().len(),
                prev.trips.wf(),
                curr.trips.wf(),
                goal_removed == route_removed_trips(curr@.trips, prev@.trips),
                forall|t: Seq<char>|
                    #![trigger removed_trip_ids@.contains(t)]
                    #![trigger among(prev.trips.keys(), j as int, t)]
                    removed_trip_ids@.contains(t) <==> goal_removed.contains(t) && (
                    curr@.trips.contains_key(t) || among(prev.trips.keys(), j as int, t)),
            decreases m - j,
        {
            let trip_id = prev.trips.key_at(j);
            proof {
                lemma_take_step(prev.trips.keys(), j as int);
            }
            if !curr.trips.contains_key(trip_id) {
                removed_trip_ids.insert(trip_id.copy());
            }
            j += 1;
        }
        proof {
            assert(removed_trip_ids@ =~= goal_removed);
        }
        RouteTripsUpdate {
            route_id: curr.route_id.copy(),
            trip_diffs,
            added_trips,
            removed_trip_ids,
        }
    }
}

} // verus!
