//! A parsed schedule as the builder of snapshots takes it: the tables of the
//! upstream bundle, each keyed as the bundle keys it, with plain values in
//! every cell.

use crate::item::Item;
use crate::keyed::{KeyedMap, KeyedSet};
use crate::messages::{Transfer, TransferView};
use vstd::prelude::*;
use vstd::std_specs::cmp::PartialEqSpecImpl;

verus! {

/// The way a trip runs along its route.
#[derive(Debug, Copy)]
pub enum DirectionType {
    Uptown,
    Downtown,
}

impl View for DirectionType {
    type V = DirectionType;

    open spec fn view(&self) -> DirectionType {
        *self
    }
}

impl DeepView for DirectionType {
    type V = DirectionType;

    open spec fn deep_view(&self) -> DirectionType {
        *self
    }
}

impl Item for DirectionType {
    fn same(&self, other: &Self) -> (b: bool) {
        match (self, other) {
            (DirectionType::Uptown, DirectionType::Uptown) => true,
            (DirectionType::Downtown, DirectionType::Downtown) => true,
            _ => false,
        }
    }

    fn copy(&self) -> (c: Self) {
        *self
    }
}

impl Clone for DirectionType {
    fn clone(&self) -> (c: Self)
        ensures
            c@ == self@,
    {
        self.copy()
    }
}

impl PartialEq for DirectionType {
    fn eq(&self, other: &Self) -> (b: bool) {
        self.same(other)
    }
}

impl PartialEqSpecImpl for DirectionType {
    open spec fn obeys_eq_spec() -> bool {
        true
    }

    open spec fn eq_spec(&self, other: &Self) -> bool {
        self@ == other@
    }
}

/// What a dated exception does to a service on its day.
#[derive(Debug, Copy)]
pub enum ExceptionType {
    Added,
    Removed,
}

impl View for ExceptionType {
    type V = ExceptionType;

    open spec fn view(&self) -> ExceptionType {
        *self
    }
}

impl DeepView for ExceptionType {
    type V = ExceptionType;

    open spec fn deep_view(&self) -> ExceptionType {
        *self
    }
}

impl Item for ExceptionType {
    fn same(&self, other: &Self) -> (b: bool) {
        match (self, other) {
            (ExceptionType::Added, ExceptionType::Added) => true,
            (ExceptionType::Removed, ExceptionType::Removed) => true,
            _ => false,
        }
    }

    fn copy(&self) -> (c: Self) {
        *self
    }
}

impl Clone for ExceptionType {
    fn clone(&self) -> (c: Self)
        ensures
            c@ == self@,
    {
        self.copy()
    }
}

impl PartialEq for ExceptionType {
    fn eq(&self, other: &Self) -> (b: bool) {
        self.same(other)
    }
}

impl PartialEqSpecImpl for ExceptionType {
    open spec fn obeys_eq_spec() -> bool {
        true
    }

    open spec fn eq_spec(&self, other: &Self) -> bool {
        self@ == other@
    }
}

/// A row of the table of trips.
#[derive(Debug)]
pub struct TripRow {
    pub route_id: String,
    pub service_id: String,
    pub trip_headsign: Option<String>,
    pub shape_id: Option<String>,
    pub direction_id: Option<DirectionType>,
}

/// The mathematical model of a [`TripRow`].
#[verifier::ext_equal]
pub struct TripRowView {
    pub route_id: Seq<char>,
    pub service_id: Seq<char>,
    pub trip_headsign: Option<Seq<char>>,
    pub shape_id: Option<Seq<char>>,
    pub direction_id: Option<DirectionType>,
}

impl View for TripRow {
    type V = TripRowView;

    open spec fn view(&self) -> TripRowView {
        TripRowView {
            route_id: self.route_id.deep_view(),
            service_id: self.service_id.deep_view(),
            trip_headsign: self.trip_headsign.deep_view(),
            shape_id: self.shape_id.deep_view(),
            direction_id: self.direction_id.deep_view(),
        }
    }
}

impl DeepView for TripRow {
    type V = TripRowView;

    open spec fn deep_view(&self) -> TripRowView {
        self@
    }
}

impl Item for TripRow {
    fn same(&self, other: &Self) -> (b: bool) {
        self.route_id.same(&other.route_id)
            && self.service_id.same(&other.service_id)
            && self.trip_headsign.same(&other.trip_headsign)
            && self.shape_id.same(&other.shape_id)
            && self.direction_id.same(&other.direction_id)
    }

    fn copy(&self) -> (c: Self) {
        TripRow {
            route_id: self.route_id.copy(),
            service_id: self.service_id.copy(),
            trip_headsign: self.trip_headsign.copy(),
            shape_id: self.shape_id.copy(),
            direction_id: self.direction_id.copy(),
        }
    }
}

impl Clone for TripRow {
    fn clone(&self) -> (c: Self)
        ensures
            c@ == self@,
    {
        self.copy()
    }
}

impl PartialEq for TripRow {
    fn eq(&self, other: &Self) -> (b: bool) {
        self.same(other)
    }
}

impl PartialEqSpecImpl for TripRow {
    open spec fn obeys_eq_spec() -> bool {
        true
    }

    open spec fn eq_spec(&self, other: &Self) -> bool {
        self@ == other@
    }
}

/// A row of the calendar: the weekdays on which a service runs, between two
/// dates written `YYYYMMDD`, both included.
#[derive(Debug)]
pub struct ServiceRow {
    pub monday: bool,
    pub tuesday: bool,
    pub wednesday: bool,
    pub thursday: bool,
    pub friday: bool,
    pub saturday: bool,
    pub sunday: bool,
    pub start_date: String,
    pub end_date: String,
}

/// The mathematical model of a [`ServiceRow`].
#[verifier::ext_equal]
pub struct ServiceRowView {
    pub monday: bool,
    pub tuesday: bool,
    pub wednesday: bool,
    pub thursday: bool,
    pub friday: bool,
    pub saturday: bool,
    pub sunday: bool,
    pub start_date: Seq<char>,
    pub end_date: Seq<char>,
}

impl View for ServiceRow {
    type V = ServiceRowView;

    open spec fn view(&self) -> ServiceRowView {
        ServiceRowView {
            monday: self.monday.deep_view(),
            tuesday: self.tuesday.deep_view(),
            wednesday: self.wednesday.deep_view(),
            thursday: self.thursday.deep_view(),
            friday: self.friday.deep_view(),
            saturday: self.saturday.deep_view(),
            sunday: self.sunday.deep_view(),
            start_date: self.start_date.deep_view(),
            end_date: self.end_date.deep_view(),
        }
    }
}

impl DeepView for ServiceRow {
    type V = ServiceRowView;

    open spec fn deep_view(&self) -> ServiceRowView {
        self@
    }
}

impl Item for ServiceRow {
    fn same(&self, other: &Self) -> (b: bool) {
        self.monday.same(&other.monday)
            && self.tuesday.same(&other.tuesday)
            && self.wednesday.same(&other.wednesday)
            && self.thursday.same(&other.thursday)
            && self.friday.same(&other.friday)
            && self.saturday.same(&other.saturday)
            && self.sunday.same(&other.sunday)
            && self.start_date.same(&other.start_date)
            && self.end_date.same(&other.end_date)
    }

    fn copy(&self) -> (c: Self) {
        ServiceRow {
            monday: self.monday.copy(),
            tuesday: self.tuesday.copy(),
            wednesday: self.wednesday.copy(),
            thursday: self.thursday.copy(),
            friday: self.friday.copy(),
            saturday: self.saturday.copy(),
            sunday: self.sunday.copy(),
            start_date: self.start_date.copy(),
            end_date: self.end_date.copy(),
        }
    }
}

impl Clone for ServiceRow {
    fn clone(&self) -> (c: Self)
        ensures
            c@ == self@,
    {
        self.copy()
    }
}

impl PartialEq for ServiceRow {
    fn eq(&self, other: &Self) -> (b: bool) {
        self.same(other)
    }
}

impl PartialEqSpecImpl for ServiceRow {
    open spec fn obeys_eq_spec() -> bool {
        true
    }

    open spec fn eq_spec(&self, other: &Self) -> bool {
        self@ == other@
    }
}

/// A row of the calendar of exceptions, for one service on one date.
#[derive(Debug)]
pub struct ExceptionRow {
    pub exception_type: ExceptionType,
}

/// The mathematical model of a [`ExceptionRow`].
#[verifier::ext_equal]
pub struct ExceptionRowView {
    pub exception_type: ExceptionType,
}

impl View for ExceptionRow {
    type V = ExceptionRowView;

    open spec fn view(&self) -> ExceptionRowView {
        ExceptionRowView {
            exception_type: self.exception_type.deep_view(),
        }
    }
}

impl DeepView for ExceptionRow {
    type V = ExceptionRowView;

    open spec fn deep_view(&self) -> ExceptionRowView {
        self@
    }
}

impl Item for ExceptionRow {
    fn same(&self, other: &Self) -> (b: bool) {
        self.exception_type.same(&other.exception_type)
    }

    fn copy(&self) -> (c: Self) {
        ExceptionRow {
            exception_type: self.exception_type.copy(),
        }
    }
}

impl Clone for ExceptionRow {
    fn clone(&self) -> (c: Self)
        ensures
            c@ == self@,
    {
        self.copy()
    }
}

impl PartialEq for ExceptionRow {
    fn eq(&self, other: &Self) -> (b: bool) {
        self.same(other)
    }
}

impl PartialEqSpecImpl for ExceptionRow {
    open spec fn obeys_eq_spec() -> bool {
        true
    }

    open spec fn eq_spec(&self, other: &Self) -> bool {
        self@ == other@
    }
}

/// The points of one shape, in their order. A point is its latitude and its
/// longitude, each carried as the IEEE 754 binary64 bit pattern of the degrees.
#[derive(Debug)]
pub struct ShapeRow {
    pub shape_id: String,
    pub points: Vec<(u64, u64)>,
}

/// The mathematical model of a [`ShapeRow`].
#[verifier::ext_equal]
pub struct ShapeRowView {
    pub shape_id: Seq<char>,
    pub points: Seq<(u64, u64)>,
}

impl View for ShapeRow {
    type V = ShapeRowView;

    open spec fn view(&self) -> ShapeRowView {
        ShapeRowView {
            shape_id: self.shape_id.deep_view(),
            points: self.points.deep_view(),
        }
    }
}

impl DeepView for ShapeRow {
    type V = ShapeRowView;

    open spec fn deep_view(&self) -> ShapeRowView {
        self@
    }
}

impl Item for ShapeRow {
    fn same(&self, other: &Self) -> (b: bool) {
        self.shape_id.same(&other.shape_id)
            && self.points.same(&other.points)
    }

    fn copy(&self) -> (c: Self) {
        ShapeRow {
            shape_id: self.shape_id.copy(),
            points: self.points.copy(),
        }
    }
}

impl Clone for ShapeRow {
    fn clone(&self) -> (c: Self)
        ensures
            c@ == self@,
    {
        self.copy()
    }
}

impl PartialEq for ShapeRow {
    fn eq(&self, other: &Self) -> (b: bool) {
        self.same(other)
    }
}

impl PartialEqSpecImpl for ShapeRow {
    open spec fn obeys_eq_spec() -> bool {
        true
    }

    open spec fn eq_spec(&self, other: &Self) -> bool {
        self@ == other@
    }
}

/// A row of the table of stops. A coordinate is present where the table has
/// one that reads as a number, and is then carried as that number's IEEE 754
/// binary64 bit pattern.
#[derive(Debug)]
pub struct StopRow {
    pub stop_id: String,
    pub stop_name: Option<String>,
    pub parent_station: Option<String>,
    pub stop_lat: Option<u64>,
    pub stop_lon: Option<u64>,
}

/// The mathematical model of a [`StopRow`].
#[verifier::ext_equal]
pub struct StopRowView {
    pub stop_id: Seq<char>,
    pub stop_name: Option<Seq<char>>,
    pub parent_station: Option<Seq<char>>,
    pub stop_lat: Option<u64>,
    pub stop_lon: Option<u64>,
}

impl View for StopRow {
    type V = StopRowView;

    open spec fn view(&self) -> StopRowView {
        StopRowView {
            stop_id: self.stop_id.deep_view(),
            stop_name: self.stop_name.deep_view(),
            parent_station: self.parent_station.deep_view(),
            stop_lat: self.stop_lat.deep_view(),
            stop_lon: self.stop_lon.deep_view(),
        }
    }
}

impl DeepView for StopRow {
    type V = StopRowView;

    open spec fn deep_view(&self) -> StopRowView {
        self@
    }
}

impl Item for StopRow {
    fn same(&self, other: &Self) -> (b: bool) {
        self.stop_id.same(&other.stop_id)
            && self.stop_name.same(&other.stop_name)
            && self.parent_station.same(&other.parent_station)
            && self.stop_lat.same(&other.stop_lat)
            && self.stop_lon.same(&other.stop_lon)
    }

    fn copy(&self) -> (c: Self) {
        StopRow {
            stop_id: self.stop_id.copy(),
            stop_name: self.stop_name.copy(),
            parent_station: self.parent_station.copy(),
            stop_lat: self.stop_lat.copy(),
            stop_lon: self.stop_lon.copy(),
        }
    }
}

impl Clone for StopRow {
    fn clone(&self) -> (c: Self)
        ensures
            c@ == self@,
    {
        self.copy()
    }
}

impl PartialEq for StopRow {
    fn eq(&self, other: &Self) -> (b: bool) {
        self.same(other)
    }
}

impl PartialEqSpecImpl for StopRow {
    open spec fn obeys_eq_spec() -> bool {
        true
    }

    open spec fn eq_spec(&self, other: &Self) -> bool {
        self@ == other@
    }
}

/// A row of the table of stop times, with its times of day as written.
#[derive(Debug)]
pub struct StopTimeRow {
    pub stop_id: Option<String>,
    pub arrival_time: Option<String>,
    pub departure_time: Option<String>,
    pub stop_sequence: u32,
}

/// The mathematical model of a [`StopTimeRow`].
#[verifier::ext_equal]
pub struct StopTimeRowView {
    pub stop_id: Option<Seq<char>>,
    pub arrival_time: Option<Seq<char>>,
    pub departure_time: Option<Seq<char>>,
    pub stop_sequence: u32,
}

impl View for StopTimeRow {
    type V = StopTimeRowView;

    open spec fn view(&self) -> StopTimeRowView {
        StopTimeRowView {
            stop_id: self.stop_id.deep_view(),
            arrival_time: self.arrival_time.deep_view(),
            departure_time: self.departure_time.deep_view(),
            stop_sequence: self.stop_sequence.deep_view(),
        }
    }
}

impl DeepView for StopTimeRow {
    type V = StopTimeRowView;

    open spec fn deep_view(&self) -> StopTimeRowView {
        self@
    }
}

impl Item for StopTimeRow {
    fn same(&self, other: &Self) -> (b: bool) {
        self.stop_id.same(&other.stop_id)
            && self.arrival_time.same(&other.arrival_time)
            && self.departure_time.same(&other.departure_time)
            && self.stop_sequence.same(&other.stop_sequence)
    }

    fn copy(&self) -> (c: Self) {
        StopTimeRow {
            stop_id: self.stop_id.copy(),
            arrival_time: self.arrival_time.copy(),
            departure_time: self.departure_time.copy(),
            stop_sequence: self.stop_sequence.copy(),
        }
    }
}

impl Clone for StopTimeRow {
    fn clone(&self) -> (c: Self)
        ensures
            c@ == self@,
    {
        self.copy()
    }
}

impl PartialEq for StopTimeRow {
    fn eq(&self, other: &Self) -> (b: bool) {
        self.same(other)
    }
}

impl PartialEqSpecImpl for StopTimeRow {
    open spec fn obeys_eq_spec() -> bool {
        true
    }

    open spec fn eq_spec(&self, other: &Self) -> bool {
        self@ == other@
    }
}

/// All tables of one upstream bundle.
///
/// Trips, shapes and stops are keyed by their ids, services by service id,
/// exceptions by service id and then by date, stop times by trip id and then by
/// stop sequence, transfers by the stop they start from. Of the routes only
/// the ids are kept.
#[derive(Debug)]
pub struct Schedule {
    pub trips: KeyedMap<String, TripRow>,
    pub routes: KeyedSet<String>,
    pub services: KeyedMap<String, ServiceRow>,
    pub service_exceptions: KeyedMap<String, KeyedMap<String, ExceptionRow>>,
    pub shapes: KeyedMap<String, ShapeRow>,
    pub stops: KeyedMap<String, StopRow>,
    pub stop_times: KeyedMap<String, KeyedMap<u32, StopTimeRow>>,
    pub transfers: KeyedMap<String, Vec<Transfer>>,
}

/// The mathematical model of a [`Schedule`].
#[verifier::ext_equal]
pub struct ScheduleView {
    pub trips: Map<Seq<char>, TripRowView>,
    pub routes: Set<Seq<char>>,
    pub services: Map<Seq<char>, ServiceRowView>,
    pub service_exceptions: Map<Seq<char>, Map<Seq<char>, ExceptionRowView>>,
    pub shapes: Map<Seq<char>, ShapeRowView>,
    pub stops: Map<Seq<char>, StopRowView>,
    pub stop_times: Map<Seq<char>, Map<u32, StopTimeRowView>>,
    pub transfers: Map<Seq<char>, Seq<TransferView>>,
}

impl View for Schedule {
    type V = ScheduleView;

    open spec fn view(&self) -> ScheduleView {
        ScheduleView {
            trips: self.trips.deep_view(),
            routes: self.routes.deep_view(),
            services: self.services.deep_view(),
            service_exceptions: self.service_exceptions.deep_view(),
            shapes: self.shapes.deep_view(),
            stops: self.stops.deep_view(),
            stop_times: self.stop_times.deep_view(),
            transfers: self.transfers.deep_view(),
        }
    }
}

impl DeepView for Schedule {
    type V = ScheduleView;

    open spec fn deep_view(&self) -> ScheduleView {
        self@
    }
}

impl Item for Schedule {
    fn same(&self, other: &Self) -> (b: bool) {
        self.trips.same(&other.trips)
            && self.routes.same(&other.routes)
            && self.services.same(&other.services)
            && self.service_exceptions.same(&other.service_exceptions)
            && self.shapes.same(&other.shapes)
            && self.stops.same(&other.stops)
            && self.stop_times.same(&other.stop_times)
            && self.transfers.same(&other.transfers)
    }

    fn copy(&self) -> (c: Self) {
        Schedule {
            trips: self.trips.copy(),
            routes: self.routes.copy(),
            services: self.services.copy(),
            service_exceptions: self.service_exceptions.copy(),
            shapes: self.shapes.copy(),
            stops: self.stops.copy(),
            stop_times: self.stop_times.copy(),
            transfers: self.transfers.copy(),
        }
    }
}

impl Clone for Schedule {
    fn clone(&self) -> (c: Self)
        ensures
            c@ == self@,
    {
        self.copy()
    }
}

impl PartialEq for Schedule {
    fn eq(&self, other: &Self) -> (b: bool) {
        self.same(other)
    }
}

impl PartialEqSpecImpl for Schedule {
    open spec fn obeys_eq_spec() -> bool {
        true
    }

    open spec fn eq_spec(&self, other: &Self) -> bool {
        self@ == other@
    }
}

} // verus!
