//! The intermediate representation of a schedule: a keyed form of routes,
//! trips, shapes and stops that can be compared and diffed entry by entry.

use crate::item::Item;
use crate::keyed::KeyedMap;
use crate::messages::{Shape, ShapeView, Stop, StopTime, StopTimeView, StopView};
use vstd::prelude::*;
use vstd::std_specs::cmp::PartialEqSpecImpl;

verus! {

/// A trip, with its calls keyed by stop sequence.
///
/// Bit `k` of `date_mask` says whether the trip runs on the day `k` days after
/// `mask_start_date`, which is written `YYYYMMDD`.
#[derive(Debug)]
pub struct TripIR {
    pub trip_id: String,
    pub stop_times: KeyedMap<u32, StopTime>,
    pub headsign: Option<String>,
    pub shape_id: Option<String>,
    pub direction: Option<u32>,
    pub mask_start_date: String,
    pub date_mask: u32,
}

/// The mathematical model of a [`TripIR`].
#[verifier::ext_equal]
pub struct TripIRView {
    pub trip_id: Seq<char>,
    pub stop_times: Map<u32, StopTimeView>,
    pub headsign: Option<Seq<char>>,
    pub shape_id: Option<Seq<char>>,
    pub direction: Option<u32>,
    pub mask_start_date: Seq<char>,
    pub date_mask: u32,
}

impl View for TripIR {
    type V = TripIRView;

    open spec fn view(&self) -> TripIRView {
        TripIRView {
            trip_id: self.trip_id.deep_view(),
            stop_times: self.stop_times.deep_view(),
            headsign: self.headsign.deep_view(),
            shape_id: self.shape_id.deep_view(),
            direction: self.direction.deep_view(),
            mask_start_date: self.mask_start_date.deep_view(),
            date_mask: self.date_mask.deep_view(),
        }
    }
}

impl DeepView for TripIR {
    type V = TripIRView;

    open spec fn deep_view(&self) -> TripIRView {
        self@
    }
}

impl Item for TripIR {
    fn same(&self, other: &Self) -> (b: bool) {
        self.trip_id.same(&other.trip_id)
            && self.stop_times.same(&other.stop_times)
            && self.headsign.same(&other.headsign)
            && self.shape_id.same(&other.shape_id)
            && self.direction.same(&other.direction)
            && self.mask_start_date.same(&other.mask_start_date)
            && self.date_mask.same(&other.date_mask)
    }

    fn copy(&self) -> (c: Self) {
        TripIR {
            trip_id: self.trip_id.copy(),
            stop_times: self.stop_times.copy(),
            headsign: self.headsign.copy(),
            shape_id: self.shape_id.copy(),
            direction: self.direction.copy(),
            mask_start_date: self.mask_start_date.copy(),
            date_mask: self.date_mask.copy(),
        }
    }
}

impl Clone for TripIR {
    fn clone(&self) -> (c: Self)
        ensures
            c@ == self@,
    {
        self.copy()
    }
}

impl PartialEq for TripIR {
    fn eq(&self, other: &Self) -> (b: bool) {
        self.same(other)
    }
}

impl PartialEqSpecImpl for TripIR {
    open spec fn obeys_eq_spec() -> bool {
        true
    }

    open spec fn eq_spec(&self, other: &Self) -> bool {
        self@ == other@
    }
}

/// A route, with its trips keyed by trip id.
#[derive(Debug)]
pub struct RouteIR {
    pub route_id: String,
    pub trips: KeyedMap<String, TripIR>,
}

/// The mathematical model of a [`RouteIR`].
#[verifier::ext_equal]
pub struct RouteIRView {
    pub route_id: Seq<char>,
    pub trips: Map<Seq<char>, TripIRView>,
}

impl View for RouteIR {
    type V = RouteIRView;

    open spec fn view(&self) -> RouteIRView {
        RouteIRView {
            route_id: self.route_id.deep_view(),
            trips: self.trips.deep_view(),
        }
    }
}

impl DeepView for RouteIR {
    type V = RouteIRView;

    open spec fn deep_view(&self) -> RouteIRView {
        self@
    }
}

impl Item for RouteIR {
    fn same(&self, other: &Self) -> (b: bool) {
        self.route_id.same(&other.route_id)
            && self.trips.same(&other.trips)
    }

    fn copy(&self) -> (c: Self) {
        RouteIR {
            route_id: self.route_id.copy(),
            trips: self.trips.copy(),
        }
    }
}

impl Clone for RouteIR {
    fn clone(&self) -> (c: Self)
        ensures
            c@ == self@,
    {
        self.copy()
    }
}

impl PartialEq for RouteIR {
    fn eq(&self, other: &Self) -> (b: bool) {
        self.same(other)
    }
}

impl PartialEqSpecImpl for RouteIR {
    open spec fn obeys_eq_spec() -> bool {
        true
    }

    open spec fn eq_spec(&self, other: &Self) -> bool {
        self@ == other@
    }
}

/// One snapshot of the schedule.
#[derive(Debug)]
pub struct ScheduleIR {
    pub routes: KeyedMap<String, RouteIR>,
    pub shapes: KeyedMap<String, Shape>,
    pub stops: KeyedMap<String, Stop>,
}

/// The mathematical model of a [`ScheduleIR`].
#[verifier::ext_equal]
pub struct ScheduleIRView {
    pub routes: Map<Seq<char>, RouteIRView>,
    pub shapes: Map<Seq<char>, ShapeView>,
    pub stops: Map<Seq<char>, StopView>,
}

impl View for ScheduleIR {
    type V = ScheduleIRView;

    open spec fn view(&self) -> ScheduleIRView {
        ScheduleIRView {
            routes: self.routes.deep_view(),
            shapes: self.shapes.deep_view(),
            stops: self.stops.deep_view(),
        }
    }
}

impl DeepView for ScheduleIR {
    type V = ScheduleIRView;

    open spec fn deep_view(&self) -> ScheduleIRView {
        self@
    }
}

impl Item for ScheduleIR {
    fn same(&self, other: &Self) -> (b: bool) {
        self.routes.same(&other.routes)
            && self.shapes.same(&other.shapes)
            && self.stops.same(&other.stops)
    }

    fn copy(&self) -> (c: Self) {
        ScheduleIR {
            routes: self.routes.copy(),
            shapes: self.shapes.copy(),
            stops: self.stops.copy(),
        }
    }
}

impl Clone for ScheduleIR {
    fn clone(&self) -> (c: Self)
        ensures
            c@ == self@,
    {
        self.copy()
    }
}

impl PartialEq for ScheduleIR {
    fn eq(&self, other: &Self) -> (b: bool) {
        self.same(other)
    }
}

impl PartialEqSpecImpl for ScheduleIR {
    open spec fn obeys_eq_spec() -> bool {
        true
    }

    open spec fn eq_spec(&self, other: &Self) -> bool {
        self@ == other@
    }
}

impl ScheduleIRView {
    /// Every route is filed under its own id.
    pub open spec fn routes_filed_by_id(self) -> bool {
        forall|r: Seq<char>| #[trigger]
            self.routes.contains_key(r) ==> self.routes[r].route_id == r
    }

    /// Every trip is filed under its own id.
    pub open spec fn trips_filed_by_id(self) -> bool {
        forall|r: Seq<char>, t: Seq<char>|
            self.routes.contains_key(r) && #[trigger] self.routes[r].trips.contains_key(t)
                ==> self.routes[r].trips[t].trip_id == t
    }

    /// Every trip runs on at least one day of its window.
    pub open spec fn every_trip_runs(self) -> bool {
        forall|r: Seq<char>, t: Seq<char>|
            self.routes.contains_key(r) && #[trigger] self.routes[r].trips.contains_key(t)
                ==> self.routes[r].trips[t].date_mask != 0
    }

    /// The date mask of every trip starts on the day that is written `date`.
    pub open spec fn every_mask_starts_on(self, date: Seq<char>) -> bool {
        forall|r: Seq<char>, t: Seq<char>|
            self.routes.contains_key(r) && #[trigger] self.routes[r].trips.contains_key(t)
                ==> self.routes[r].trips[t].mask_start_date == date
    }

    /// What holds of every snapshot that is built from a parsed schedule.
    pub open spec fn well_formed(self) -> bool {
        &&& self.routes_filed_by_id()
        &&& self.trips_filed_by_id()
        &&& self.every_trip_runs()
    }
}

} // verus!
