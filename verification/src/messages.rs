//! The messages that travel between the schedule service and its clients.
//!
//! Every scalar field is optional on the wire, so the records here keep them
//! as `Option`. A record's view replaces every string by its characters and
//! every repeated field by a sequence; two records are equal when their views
//! are.

use crate::item::Item;
use vstd::prelude::*;
use vstd::std_specs::cmp::PartialEqSpecImpl;

verus! {

/// A point on the globe.
///
/// Each coordinate is carried as the IEEE 754 binary64 bit pattern of its
/// value in degrees, so that positions compare exactly, bit for bit.
#[derive(Debug, Copy)]
pub struct Position {
    pub lat: Option<u64>,
    pub lon: Option<u64>,
}

impl View for Position {
    type V = Position;

    open spec fn view(&self) -> Position {
        *self
    }
}

impl DeepView for Position {
    type V = Position;

    open spec fn deep_view(&self) -> Position {
        *self
    }
}

impl Item for Position {
    fn same(&self, other: &Self) -> (b: bool) {
        self.lat.same(&other.lat) && self.lon.same(&other.lon)
    }

    fn copy(&self) -> (c: Self) {
        Position { lat: self.lat, lon: self.lon }
    }
}

impl Clone for Position {
    fn clone(&self) -> (c: Self)
        ensures
            c@ == self@,
    {
        self.copy()
    }
}

impl PartialEq for Position {
    fn eq(&self, other: &Self) -> (b: bool) {
        self.same(other)
    }
}

impl PartialEqSpecImpl for Position {
    open spec fn obeys_eq_spec() -> bool {
        true
    }

    open spec fn eq_spec(&self, other: &Self) -> bool {
        self@ == other@
    }
}

/// The path that a trip draws on the map. The order of the points matters.
#[derive(Debug)]
pub struct Shape {
    pub shape_id: Option<String>,
    pub points: Vec<Position>,
}

/// The mathematical model of a [`Shape`].
#[verifier::ext_equal]
pub struct ShapeView {
    pub shape_id: Option<Seq<char>>,
    pub points: Seq<Position>,
}

impl View for Shape {
    type V = ShapeView;

    open spec fn view(&self) -> ShapeView {
        ShapeView {
            shape_id: self.shape_id.deep_view(),
            points: self.points.deep_view(),
        }
    }
}

impl DeepView for Shape {
    type V = ShapeView;

    open spec fn deep_view(&self) -> ShapeView {
        self@
    }
}

impl Item for Shape {
    fn same(&self, other: &Self) -> (b: bool) {
        self.shape_id.same(&other.shape_id)
            && self.points.same(&other.points)
    }

    fn copy(&self) -> (c: Self) {
        Shape {
            shape_id: self.shape_id.copy(),
            points: self.points.copy(),
        }
    }
}

impl Clone for Shape {
    fn clone(&self) -> (c: Self)
        ensures
            c@ == self@,
    {
        self.copy()
    }
}

impl PartialEq for Shape {
    fn eq(&self, other: &Self) -> (b: bool) {
        self.same(other)
    }
}

impl PartialEqSpecImpl for Shape {
    open spec fn obeys_eq_spec() -> bool {
        true
    }

    open spec fn eq_spec(&self, other: &Self) -> bool {
        self@ == other@
    }
}

/// A walk from one stop to another, with the least time it takes in seconds.
#[derive(Debug)]
pub struct Transfer {
    pub from_stop_id: Option<String>,
    pub to_stop_id: Option<String>,
    pub min_transfer_time: Option<u32>,
}

/// The mathematical model of a [`Transfer`].
#[verifier::ext_equal]
pub struct TransferView {
    pub from_stop_id: Option<Seq<char>>,
    pub to_stop_id: Option<Seq<char>>,
    pub min_transfer_time: Option<u32>,
}

impl View for Transfer {
    type V = TransferView;

    open spec fn view(&self) -> TransferView {
        TransferView {
            from_stop_id: self.from_stop_id.deep_view(),
            to_stop_id: self.to_stop_id.deep_view(),
            min_transfer_time: self.min_transfer_time.deep_view(),
        }
    }
}

impl DeepView for Transfer {
    type V = TransferView;

    open spec fn deep_view(&self) -> TransferView {
        self@
    }
}

impl Item for Transfer {
    fn same(&self, other: &Self) -> (b: bool) {
        self.from_stop_id.same(&other.from_stop_id)
            && self.to_stop_id.same(&other.to_stop_id)
            && self.min_transfer_time.same(&other.min_transfer_time)
    }

    fn copy(&self) -> (c: Self) {
        Transfer {
            from_stop_id: self.from_stop_id.copy(),
            to_stop_id: self.to_stop_id.copy(),
            min_transfer_time: self.min_transfer_time.copy(),
        }
    }
}

impl Clone for Transfer {
    fn clone(&self) -> (c: Self)
        ensures
            c@ == self@,
    {
        self.copy()
    }
}

impl PartialEq for Transfer {
    fn eq(&self, other: &Self) -> (b: bool) {
        self.same(other)
    }
}

impl PartialEqSpecImpl for Transfer {
    open spec fn obeys_eq_spec() -> bool {
        true
    }

    open spec fn eq_spec(&self, other: &Self) -> bool {
        self@ == other@
    }
}

/// A place where vehicles call.
#[derive(Debug)]
pub struct Stop {
    pub stop_id: Option<String>,
    pub stop_name: Option<String>,
    pub parent_stop_id: Option<String>,
    pub transfers_from: Vec<Transfer>,
    pub position: Option<Position>,
    pub route_ids: Vec<String>,
}

/// The mathematical model of a [`Stop`].
#[verifier::ext_equal]
pub struct StopView {
    pub stop_id: Option<Seq<char>>,
    pub stop_name: Option<Seq<char>>,
    pub parent_stop_id: Option<Seq<char>>,
    pub transfers_from: Seq<TransferView>,
    pub position: Option<Position>,
    pub route_ids: Seq<Seq<char>>,
}

impl View for Stop {
    type V = StopView;

    open spec fn view(&self) -> StopView {
        StopView {
            stop_id: self.stop_id.deep_view(),
            stop_name: self.stop_name.deep_view(),
            parent_stop_id: self.parent_stop_id.deep_view(),
            transfers_from: self.transfers_from.deep_view(),
            position: self.position.deep_view(),
            route_ids: self.route_ids.deep_view(),
        }
    }
}

impl DeepView for Stop {
    type V = StopView;

    open spec fn deep_view(&self) -> StopView {
        self@
    }
}

impl Item for Stop {
    fn same(&self, other: &Self) -> (b: bool) {
        self.stop_id.same(&other.stop_id)
            && self.stop_name.same(&other.stop_name)
            && self.parent_stop_id.same(&other.parent_stop_id)
            && self.transfers_from.same(&other.transfers_from)
            && self.position.same(&other.position)
            && self.route_ids.same(&other.route_ids)
    }

    fn copy(&self) -> (c: Self) {
        Stop {
            stop_id: self.stop_id.copy(),
            stop_name: self.stop_name.copy(),
            parent_stop_id: self.parent_stop_id.copy(),
            transfers_from: self.transfers_from.copy(),
            position: self.position.copy(),
            route_ids: self.route_ids.copy(),
        }
    }
}

impl Clone for Stop {
    fn clone(&self) -> (c: Self)
        ensures
            c@ == self@,
    {
        self.copy()
    }
}

impl PartialEq for Stop {
    fn eq(&self, other: &Self) -> (b: bool) {
        self.same(other)
    }
}

impl PartialEqSpecImpl for Stop {
    open spec fn obeys_eq_spec() -> bool {
        true
    }

    open spec fn eq_spec(&self, other: &Self) -> bool {
        self@ == other@
    }
}

/// One call of a trip at a stop. Times are whole seconds since midnight of the
/// trip's reference day.
#[derive(Debug)]
pub struct StopTime {
    pub stop_id: Option<String>,
    pub arrival_time: Option<u32>,
    pub departure_time: Option<u32>,
    pub stop_sequence: Option<u32>,
}

/// The mathematical model of a [`StopTime`].
#[verifier::ext_equal]
pub struct StopTimeView {
    pub stop_id: Option<Seq<char>>,
    pub arrival_time: Option<u32>,
    pub departure_time: Option<u32>,
    pub stop_sequence: Option<u32>,
}

impl View for StopTime {
    type V = StopTimeView;

    open spec fn view(&self) -> StopTimeView {
        StopTimeView {
            stop_id: self.stop_id.deep_view(),
            arrival_time: self.arrival_time.deep_view(),
            departure_time: self.departure_time.deep_view(),
            stop_sequence: self.stop_sequence.deep_view(),
        }
    }
}

impl DeepView for StopTime {
    type V = StopTimeView;

    open spec fn deep_view(&self) -> StopTimeView {
        self@
    }
}

impl Item for StopTime {
    fn same(&self, other: &Self) -> (b: bool) {
        self.stop_id.same(&other.stop_id)
            && self.arrival_time.same(&other.arrival_time)
            && self.departure_time.same(&other.departure_time)
            && self.stop_sequence.same(&other.stop_sequence)
    }

    fn copy(&self) -> (c: Self) {
        StopTime {
            stop_id: self.stop_id.copy(),
            arrival_time: self.arrival_time.copy(),
            departure_time: self.departure_time.copy(),
            stop_sequence: self.stop_sequence.copy(),
        }
    }
}

impl Clone for StopTime {
    fn clone(&self) -> (c: Self)
        ensures
            c@ == self@,
    {
        self.copy()
    }
}

impl PartialEq for StopTime {
    fn eq(&self, other: &Self) -> (b: bool) {
        self.same(other)
    }
}

impl PartialEqSpecImpl for StopTime {
    open spec fn obeys_eq_spec() -> bool {
        true
    }

    open spec fn eq_spec(&self, other: &Self) -> bool {
        self@ == other@
    }
}

/// A trip as it is sent to clients, with its calls as a list.
#[derive(Debug)]
pub struct Trip {
    pub trip_id: Option<String>,
    pub stop_times: Vec<StopTime>,
    pub headsign: Option<String>,
    pub shape_id: Option<String>,
    pub direction: Option<u32>,
    pub mask_start_date: Option<String>,
    pub date_mask: Option<u32>,
}

/// The mathematical model of a [`Trip`].
#[verifier::ext_equal]
pub struct TripView {
    pub trip_id: Option<Seq<char>>,
    pub stop_times: Seq<StopTimeView>,
    pub headsign: Option<Seq<char>>,
    pub shape_id: Option<Seq<char>>,
    pub direction: Option<u32>,
    pub mask_start_date: Option<Seq<char>>,
    pub date_mask: Option<u32>,
}

impl View for Trip {
    type V = TripView;

    open spec fn view(&self) -> TripView {
        TripView {
            trip_id: self.trip_id.deep_view(),
            stop_times: self.stop_times.deep_view(),
            headsign: self.headsign.deep_view(),
            shape_id: self.shape_id.deep_view(),
            direction: self.direction.deep_view(),
            mask_start_date: self.mask_start_date.deep_view(),
            date_mask: self.date_mask.deep_view(),
        }
    }
}

impl DeepView for Trip {
    type V = TripView;

    open spec fn deep_view(&self) -> TripView {
        self@
    }
}

impl Item for Trip {
    fn same(&self, other: &Self) -> (b: bool) {
        self.trip_id.same(&other.trip_id)
            && self.stop_times.same(&other.stop_times)
            && self.headsign.same(&other.headsign)
            && self.shape_id.same(&other.shape_id)
            && self.direction.same(&other.direction)
            && self.mask_start_date.same(&other.mask_start_date)
            && self.date_mask.same(&other.date_mask)
    }

    fn copy(&self) -> (c: Self) {
        Trip {
            trip_id: self.trip_id.copy(),
            stop_times: self.stop_times.copy(),
            headsign: self.headsign.copy(),
            shape_id: self.shape_id.copy(),
            direction: self.direction.copy(),
            mask_start_date: self.mask_start_date.copy(),
            date_mask: self.date_mask.copy(),
        }
    }
}

impl Clone for Trip {
    fn clone(&self) -> (c: Self)
        ensures
            c@ == self@,
    {
        self.copy()
    }
}

impl PartialEq for Trip {
    fn eq(&self, other: &Self) -> (b: bool) {
        self.same(other)
    }
}

impl PartialEqSpecImpl for Trip {
    open spec fn obeys_eq_spec() -> bool {
        true
    }

    open spec fn eq_spec(&self, other: &Self) -> bool {
        self@ == other@
    }
}

/// A route as it is sent to clients, with its trips as a list.
#[derive(Debug)]
pub struct Route {
    pub route_id: Option<String>,
    pub trips: Vec<Trip>,
}

/// The mathematical model of a [`Route`].
#[verifier::ext_equal]
pub struct RouteView {
    pub route_id: Option<Seq<char>>,
    pub trips: Seq<TripView>,
}

impl View for Route {
    type V = RouteView;

    open spec fn view(&self) -> RouteView {
        RouteView {
            route_id: self.route_id.deep_view(),
            trips: self.trips.deep_view(),
        }
    }
}

impl DeepView for Route {
    type V = RouteView;

    open spec fn deep_view(&self) -> RouteView {
        self@
    }
}

impl Item for Route {
    fn same(&self, other: &Self) -> (b: bool) {
        self.route_id.same(&other.route_id)
            && self.trips.same(&other.trips)
    }

    fn copy(&self) -> (c: Self) {
        Route {
            route_id: self.route_id.copy(),
            trips: self.trips.copy(),
        }
    }
}

impl Clone for Route {
    fn clone(&self) -> (c: Self)
        ensures
            c@ == self@,
    {
        self.copy()
    }
}

impl PartialEq for Route {
    fn eq(&self, other: &Self) -> (b: bool) {
        self.same(other)
    }
}

impl PartialEqSpecImpl for Route {
    open spec fn obeys_eq_spec() -> bool {
        true
    }

    open spec fn eq_spec(&self, other: &Self) -> bool {
        self@ == other@
    }
}

/// A whole snapshot in the shape in which clients download it.
#[derive(Debug)]
pub struct FullSchedule {
    pub routes: Vec<Route>,
    pub shapes: Vec<Shape>,
    pub stops: Vec<Stop>,
}

/// The mathematical model of a [`FullSchedule`].
#[verifier::ext_equal]
pub struct FullScheduleView {
    pub routes: Seq<RouteView>,
    pub shapes: Seq<ShapeView>,
    pub stops: Seq<StopView>,
}

impl View for FullSchedule {
    type V = FullScheduleView;

    open spec fn view(&self) -> FullScheduleView {
        FullScheduleView {
            routes: self.routes.deep_view(),
            shapes: self.shapes.deep_view(),
            stops: self.stops.deep_view(),
        }
    }
}

impl DeepView for FullSchedule {
    type V = FullScheduleView;

    open spec fn deep_view(&self) -> FullScheduleView {
        self@
    }
}

impl Item for FullSchedule {
    fn same(&self, other: &Self) -> (b: bool) {
        self.routes.same(&other.routes)
            && self.shapes.same(&other.shapes)
            && self.stops.same(&other.stops)
    }

    fn copy(&self) -> (c: Self) {
        FullSchedule {
            routes: self.routes.copy(),
            shapes: self.shapes.copy(),
            stops: self.stops.copy(),
        }
    }
}

impl Clone for FullSchedule {
    fn clone(&self) -> (c: Self)
        ensures
            c@ == self@,
    {
        self.copy()
    }
}

impl PartialEq for FullSchedule {
    fn eq(&self, other: &Self) -> (b: bool) {
        self.same(other)
    }
}

impl PartialEqSpecImpl for FullSchedule {
    open spec fn obeys_eq_spec() -> bool {
        true
    }

    open spec fn eq_spec(&self, other: &Self) -> bool {
        self@ == other@
    }
}

/// A trip together with the route it runs on.
#[derive(Debug)]
pub struct TripExt {
    pub trip: Option<Trip>,
    pub route_id: Option<String>,
}

/// The mathematical model of a [`TripExt`].
#[verifier::ext_equal]
pub struct TripExtView {
    pub trip: Option<TripView>,
    pub route_id: Option<Seq<char>>,
}

impl View for TripExt {
    type V = TripExtView;

    open spec fn view(&self) -> TripExtView {
        TripExtView {
            trip: self.trip.deep_view(),
            route_id: self.route_id.deep_view(),
        }
    }
}

impl DeepView for TripExt {
    type V = TripExtView;

    open spec fn deep_view(&self) -> TripExtView {
        self@
    }
}

impl Item for TripExt {
    fn same(&self, other: &Self) -> (b: bool) {
        self.trip.same(&other.trip)
            && self.route_id.same(&other.route_id)
    }

    fn copy(&self) -> (c: Self) {
        TripExt {
            trip: self.trip.copy(),
            route_id: self.route_id.copy(),
        }
    }
}

impl Clone for TripExt {
    fn clone(&self) -> (c: Self)
        ensures
            c@ == self@,
    {
        self.copy()
    }
}

impl PartialEq for TripExt {
    fn eq(&self, other: &Self) -> (b: bool) {
        self.same(other)
    }
}

impl PartialEqSpecImpl for TripExt {
    open spec fn obeys_eq_spec() -> bool {
        true
    }

    open spec fn eq_spec(&self, other: &Self) -> bool {
        self@ == other@
    }
}

/// The address of a trip: its route and its own id.
#[derive(Debug)]
pub struct TripIdTuple {
    pub route_id: Option<String>,
    pub trip_id: Option<String>,
}

/// The mathematical model of a [`TripIdTuple`].
#[verifier::ext_equal]
pub struct TripIdTupleView {
    pub route_id: Option<Seq<char>>,
    pub trip_id: Option<Seq<char>>,
}

impl View for TripIdTuple {
    type V = TripIdTupleView;

    open spec fn view(&self) -> TripIdTupleView {
        TripIdTupleView {
            route_id: self.route_id.deep_view(),
            trip_id: self.trip_id.deep_view(),
        }
    }
}

impl DeepView for TripIdTuple {
    type V = TripIdTupleView;

    open spec fn deep_view(&self) -> TripIdTupleView {
        self@
    }
}

impl Item for TripIdTuple {
    fn same(&self, other: &Self) -> (b: bool) {
        self.route_id.same(&other.route_id)
            && self.trip_id.same(&other.trip_id)
    }

    fn copy(&self) -> (c: Self) {
        TripIdTuple {
            route_id: self.route_id.copy(),
            trip_id: self.trip_id.copy(),
        }
    }
}

impl Clone for TripIdTuple {
    fn clone(&self) -> (c: Self)
        ensures
            c@ == self@,
    {
        self.copy()
    }
}

impl PartialEq for TripIdTuple {
    fn eq(&self, other: &Self) -> (b: bool) {
        self.same(other)
    }
}

impl PartialEqSpecImpl for TripIdTuple {
    open spec fn obeys_eq_spec() -> bool {
        true
    }

    open spec fn eq_spec(&self, other: &Self) -> bool {
        self@ == other@
    }
}

/// A delta between two snapshots in the shape in which clients receive it.
#[derive(Debug)]
pub struct ScheduleDiff {
    pub added_trips: Vec<TripExt>,
    pub removed_trip_ids: Vec<TripIdTuple>,
    pub added_shapes: Vec<Shape>,
    pub removed_shape_ids: Vec<String>,
    pub added_stops: Vec<Stop>,
    pub removed_stop_ids: Vec<String>,
}

/// The mathematical model of a [`ScheduleDiff`].
#[verifier::ext_equal]
pub struct ScheduleDiffView {
    pub added_trips: Seq<TripExtView>,
    pub removed_trip_ids: Seq<TripIdTupleView>,
    pub added_shapes: Seq<ShapeView>,
    pub removed_shape_ids: Seq<Seq<char>>,
    pub added_stops: Seq<StopView>,
    pub removed_stop_ids: Seq<Seq<char>>,
}

impl View for ScheduleDiff {
    type V = ScheduleDiffView;

    open spec fn view(&self) -> ScheduleDiffView {
        ScheduleDiffView {
            added_trips: self.added_trips.deep_view(),
            removed_trip_ids: self.removed_trip_ids.deep_view(),
            added_shapes: self.added_shapes.deep_view(),
            removed_shape_ids: self.removed_shape_ids.deep_view(),
            added_stops: self.added_stops.deep_view(),
            removed_stop_ids: self.removed_stop_ids.deep_view(),
        }
    }
}

impl DeepView for ScheduleDiff {
    type V = ScheduleDiffView;

    open spec fn deep_view(&self) -> ScheduleDiffView {
        self@
    }
}

impl Item for ScheduleDiff {
    fn same(&self, other: &Self) -> (b: bool) {
        self.added_trips.same(&other.added_trips)
            && self.removed_trip_ids.same(&other.removed_trip_ids)
            && self.added_shapes.same(&other.added_shapes)
            && self.removed_shape_ids.same(&other.removed_shape_ids)
            && self.added_stops.same(&other.added_stops)
            && self.removed_stop_ids.same(&other.removed_stop_ids)
    }

    fn copy(&self) -> (c: Self) {
        ScheduleDiff {
            added_trips: self.added_trips.copy(),
            removed_trip_ids: self.removed_trip_ids.copy(),
            added_shapes: self.added_shapes.copy(),
            removed_shape_ids: self.removed_shape_ids.copy(),
            added_stops: self.added_stops.copy(),
            removed_stop_ids: self.removed_stop_ids.copy(),
        }
    }
}

impl Clone for ScheduleDiff {
    fn clone(&self) -> (c: Self)
        ensures
            c@ == self@,
    {
        self.copy()
    }
}

impl PartialEq for ScheduleDiff {
    fn eq(&self, other: &Self) -> (b: bool) {
        self.same(other)
    }
}

impl PartialEqSpecImpl for ScheduleDiff {
    open spec fn obeys_eq_spec() -> bool {
        true
    }

    open spec fn eq_spec(&self, other: &Self) -> bool {
        self@ == other@
    }
}

/// What a client asks with: the timestamp of the snapshot it holds, if any.
#[derive(Debug)]
pub struct ScheduleRequest {
    pub timestamp: Option<u32>,
}

/// The mathematical model of a [`ScheduleRequest`].
#[verifier::ext_equal]
pub struct ScheduleRequestView {
    pub timestamp: Option<u32>,
}

impl View for ScheduleRequest {
    type V = ScheduleRequestView;

    open spec fn view(&self) -> ScheduleRequestView {
        ScheduleRequestView {
            timestamp: self.timestamp.deep_view(),
        }
    }
}

impl DeepView for ScheduleRequest {
    type V = ScheduleRequestView;

    open spec fn deep_view(&self) -> ScheduleRequestView {
        self@
    }
}

impl Item for ScheduleRequest {
    fn same(&self, other: &Self) -> (b: bool) {
        self.timestamp.same(&other.timestamp)
    }

    fn copy(&self) -> (c: Self) {
        ScheduleRequest {
            timestamp: self.timestamp.copy(),
        }
    }
}

impl Clone for ScheduleRequest {
    fn clone(&self) -> (c: Self)
        ensures
            c@ == self@,
    {
        self.copy()
    }
}

impl PartialEq for ScheduleRequest {
    fn eq(&self, other: &Self) -> (b: bool) {
        self.same(other)
    }
}

impl PartialEqSpecImpl for ScheduleRequest {
    open spec fn obeys_eq_spec() -> bool {
        true
    }

    open spec fn eq_spec(&self, other: &Self) -> bool {
        self@ == other@
    }
}

/// The answer to a schedule request: a full snapshot or a delta, never both,
/// and the timestamp of the newest snapshot.
#[derive(Debug)]
pub struct ScheduleResponse {
    pub full_schedule: Option<FullSchedule>,
    pub schedule_diff: Option<ScheduleDiff>,
    pub timestamp: Option<u32>,
}

/// The mathematical model of a [`ScheduleResponse`].
#[verifier::ext_equal]
pub struct ScheduleResponseView {
    pub full_schedule: Option<FullScheduleView>,
    pub schedule_diff: Option<ScheduleDiffView>,
    pub timestamp: Option<u32>,
}

impl View for ScheduleResponse {
    type V = ScheduleResponseView;

    open spec fn view(&self) -> ScheduleResponseView {
        ScheduleResponseView {
            full_schedule: self.full_schedule.deep_view(),
            schedule_diff: self.schedule_diff.deep_view(),
            timestamp: self.timestamp.deep_view(),
        }
    }
}

impl DeepView for ScheduleResponse {
    type V = ScheduleResponseView;

    open spec fn deep_view(&self) -> ScheduleResponseView {
        self@
    }
}

impl Item for ScheduleResponse {
    fn same(&self, other: &Self) -> (b: bool) {
        self.full_schedule.same(&other.full_schedule)
            && self.schedule_diff.same(&other.schedule_diff)
            && self.timestamp.same(&other.timestamp)
    }

    fn copy(&self) -> (c: Self) {
        ScheduleResponse {
            full_schedule: self.full_schedule.copy(),
            schedule_diff: self.schedule_diff.copy(),
            timestamp: self.timestamp.copy(),
        }
    }
}

impl Clone for ScheduleResponse {
    fn clone(&self) -> (c: Self)
        ensures
            c@ == self@,
    {
        self.copy()
    }
}

impl PartialEq for ScheduleResponse {
    fn eq(&self, other: &Self) -> (b: bool) {
        self.same(other)
    }
}

impl PartialEqSpecImpl for ScheduleResponse {
    open spec fn obeys_eq_spec() -> bool {
        true
    }

    open spec fn eq_spec(&self, other: &Self) -> bool {
        self@ == other@
    }
}

/// The timestamp of the newest snapshot, absent before the first commit.
#[derive(Debug)]
pub struct LastUpdateResponse {
    pub timestamp: Option<u32>,
}

/// The mathematical model of a [`LastUpdateResponse`].
#[verifier::ext_equal]
pub struct LastUpdateResponseView {
    pub timestamp: Option<u32>,
}

impl View for LastUpdateResponse {
    type V = LastUpdateResponseView;

    open spec fn view(&self) -> LastUpdateResponseView {
        LastUpdateResponseView {
            timestamp: self.timestamp.deep_view(),
        }
    }
}

impl DeepView for LastUpdateResponse {
    type V = LastUpdateResponseView;

    open spec fn deep_view(&self) -> LastUpdateResponseView {
        self@
    }
}

impl Item for LastUpdateResponse {
    fn same(&self, other: &Self) -> (b: bool) {
        self.timestamp.same(&other.timestamp)
    }

    fn copy(&self) -> (c: Self) {
        LastUpdateResponse {
            timestamp: self.timestamp.copy(),
        }
    }
}

impl Clone for LastUpdateResponse {
    fn clone(&self) -> (c: Self)
        ensures
            c@ == self@,
    {
        self.copy()
    }
}

impl PartialEq for LastUpdateResponse {
    fn eq(&self, other: &Self) -> (b: bool) {
        self.same(other)
    }
}

impl PartialEqSpecImpl for LastUpdateResponse {
    open spec fn obeys_eq_spec() -> bool {
        true
    }

    open spec fn eq_spec(&self, other: &Self) -> bool {
        self@ == other@
    }
}

/// The changes among the calls of one trip, in the shape in which clients
/// receive them.
#[derive(Debug)]
pub struct TripStopTimesDiff {
    pub trip_id: Option<String>,
    pub added_stop_times: Vec<StopTime>,
    pub removed_stop_seq: Vec<u32>,
}

/// The mathematical model of a [`TripStopTimesDiff`].
#[verifier::ext_equal]
pub struct TripStopTimesDiffView {
    pub trip_id: Option<Seq<char>>,
    pub added_stop_times: Seq<StopTimeView>,
    pub removed_stop_seq: Seq<u32>,
}

impl View for TripStopTimesDiff {
    type V = TripStopTimesDiffView;

    open spec fn view(&self) -> TripStopTimesDiffView {
        TripStopTimesDiffView {
            trip_id: self.trip_id.deep_view(),
            added_stop_times: self.added_stop_times.deep_view(),
            removed_stop_seq: self.removed_stop_seq.deep_view(),
        }
    }
}

impl DeepView for TripStopTimesDiff {
    type V = TripStopTimesDiffView;

    open spec fn deep_view(&self) -> TripStopTimesDiffView {
        self@
    }
}

impl Item for TripStopTimesDiff {
    fn same(&self, other: &Self) -> (b: bool) {
        self.trip_id.same(&other.trip_id)
            && self.added_stop_times.same(&other.added_stop_times)
            && self.removed_stop_seq.same(&other.removed_stop_seq)
    }

    fn copy(&self) -> (c: Self) {
        TripStopTimesDiff {
            trip_id: self.trip_id.copy(),
            added_stop_times: self.added_stop_times.copy(),
            removed_stop_seq: self.removed_stop_seq.copy(),
        }
    }
}

impl Clone for TripStopTimesDiff {
    fn clone(&self) -> (c: Self)
        ensures
            c@ == self@,
    {
        self.copy()
    }
}

impl PartialEq for TripStopTimesDiff {
    fn eq(&self, other: &Self) -> (b: bool) {
        self.same(other)
    }
}

impl PartialEqSpecImpl for TripStopTimesDiff {
    open spec fn obeys_eq_spec() -> bool {
        true
    }

    open spec fn eq_spec(&self, other: &Self) -> bool {
        self@ == other@
    }
}

/// The changes among the trips of one route, in the shape in which clients
/// receive them.
#[derive(Debug)]
pub struct RouteTripsDiff {
    pub route_id: Option<String>,
    pub added_trips: Vec<Trip>,
    pub removed_trip_ids: Vec<String>,
    pub trip_diffs: Vec<TripStopTimesDiff>,
}

/// The mathematical model of a [`RouteTripsDiff`].
#[verifier::ext_equal]
pub struct RouteTripsDiffView {
    pub route_id: Option<Seq<char>>,
    pub added_trips: Seq<TripView>,
    pub removed_trip_ids: Seq<Seq<char>>,
    pub trip_diffs: Seq<TripStopTimesDiffView>,
}

impl View for RouteTripsDiff {
    type V = RouteTripsDiffView;

    open spec fn view(&self) -> RouteTripsDiffView {
        RouteTripsDiffView {
            route_id: self.route_id.deep_view(),
            added_trips: self.added_trips.deep_view(),
            removed_trip_ids: self.removed_trip_ids.deep_view(),
            trip_diffs: self.trip_diffs.deep_view(),
        }
    }
}

impl DeepView for RouteTripsDiff {
    type V = RouteTripsDiffView;

    open spec fn deep_view(&self) -> RouteTripsDiffView {
        self@
    }
}

impl Item for RouteTripsDiff {
    fn same(&self, other: &Self) -> (b: bool) {
        self.route_id.same(&other.route_id)
            && self.added_trips.same(&other.added_trips)
            && self.removed_trip_ids.same(&other.removed_trip_ids)
            && self.trip_diffs.same(&other.trip_diffs)
    }

    fn copy(&self) -> (c: Self) {
        RouteTripsDiff {
            route_id: self.route_id.copy(),
            added_trips: self.added_trips.copy(),
            removed_trip_ids: self.removed_trip_ids.copy(),
            trip_diffs: self.trip_diffs.copy(),
        }
    }
}

impl Clone for RouteTripsDiff {
    fn clone(&self) -> (c: Self)
        ensures
            c@ == self@,
    {
        self.copy()
    }
}

impl PartialEq for RouteTripsDiff {
    fn eq(&self, other: &Self) -> (b: bool) {
        self.same(other)
    }
}

impl PartialEqSpecImpl for RouteTripsDiff {
    open spec fn obeys_eq_spec() -> bool {
        true
    }

    open spec fn eq_spec(&self, other: &Self) -> bool {
        self@ == other@
    }
}

} // verus!
