//! What holds of deltas between any snapshots.

use crate::delta::{
    added_entries, combined_added, combined_removed, entries_under, fits,
    lemma_chain_is_combinable, lemma_combined_is_sequential, lemma_diff_of_equal_is_empty,
    lemma_diff_then_apply, members_under, removed_keys,
};
use crate::diff::{
    empty_update, reaches, route_patched, schedule_diff, schedule_patched, trip_table,
    updates_combinable, updates_combined, ScheduleUpdate, ScheduleUpdateView,
};
use crate::ir::{ScheduleIR, ScheduleIRView};
use vstd::prelude::*;

verus! {

/// The delta from a snapshot to itself is empty.
pub proof fn law_identity_diff(a: ScheduleIR)
    ensures
        schedule_diff(a@, a@) == empty_update(),
{
    lemma_diff_of_equal_is_empty(trip_table(a@));
    lemma_diff_of_equal_is_empty(a@.shapes);
    lemma_diff_of_equal_is_empty(a@.stops);
}

/// The part of a delta between two snapshots that is addressed to one route
/// is the delta between the trips of that route.
pub proof fn lemma_diff_under_route(curr: ScheduleIRView, prev: ScheduleIRView, r: Seq<char>)
    requires
        curr.routes.contains_key(r),
        prev.routes.contains_key(r),
    ensures
        entries_under(schedule_diff(curr, prev).added_trips, r) == added_entries(
            curr.routes[r].trips,
            prev.routes[r].trips,
        ),
        members_under(schedule_diff(curr, prev).removed_trip_ids, r) == removed_keys(
            curr.routes[r].trips,
            prev.routes[r].trips,
        ),
{
    let update = schedule_diff(curr, prev);
    assert forall|t: Seq<char>|
        entries_under(update.added_trips, r).contains_key(t) <==> added_entries(
            curr.routes[r].trips,
            prev.routes[r].trips,
        ).contains_key(t) by {
        assert(trip_table(curr).contains_key((r, t)) <==> curr.routes[r].trips.contains_key(t));
        assert(trip_table(prev).contains_key((r, t)) <==> prev.routes[r].trips.contains_key(t));
    }
    assert(entries_under(update.added_trips, r) =~= added_entries(
        curr.routes[r].trips,
        prev.routes[r].trips,
    ));
    assert forall|t: Seq<char>|
        members_under(update.removed_trip_ids, r).contains(t) <==> removed_keys(
            curr.routes[r].trips,
            prev.routes[r].trips,
        ).contains(t) by {
        assert(trip_table(curr).contains_key((r, t)) <==> curr.routes[r].trips.contains_key(t));
        assert(trip_table(prev).contains_key((r, t)) <==> prev.routes[r].trips.contains_key(t));
    }
    assert(members_under(update.removed_trip_ids, r) =~= removed_keys(
        curr.routes[r].trips,
        prev.routes[r].trips,
    ));
}

/// Applying the delta from `b` to `a` to `b` gives `a`, for snapshots that
/// have the same routes, each filed under its own id.
pub proof fn law_round_trip(a: ScheduleIR, b: ScheduleIR)
    requires
        a@.routes.dom() == b@.routes.dom(),
        a@.routes_filed_by_id(),
        b@.routes_filed_by_id(),
    ensures
        reaches(schedule_diff(a@, b@), b@),
        schedule_patched(schedule_diff(a@, b@), b@) == a@,
{
    lemma_round_trip(a@, b@);
}

/// The round trip, stated of the models of two snapshots.
pub proof fn lemma_round_trip(a: ScheduleIRView, b: ScheduleIRView)
    requires
        a.routes.dom() == b.routes.dom(),
        a.routes_filed_by_id(),
        b.routes_filed_by_id(),
    ensures
        reaches(schedule_diff(a, b), b),
        schedule_patched(schedule_diff(a, b), b) == a,
{
    let update = schedule_diff(a, b);
    let after = schedule_patched(update, b);
    lemma_diff_then_apply(a.shapes, b.shapes);
    lemma_diff_then_apply(a.stops, b.stops);
    assert forall|r: Seq<char>| a.routes.contains_key(r) implies after.routes[r] == a.routes[r] by {
        assert(b.routes.dom().contains(r));
        lemma_diff_under_route(a, b, r);
        lemma_diff_then_apply(a.routes[r].trips, b.routes[r].trips);
    }
    assert forall|r: Seq<char>| after.routes.contains_key(r) <==> a.routes.contains_key(r) by {
        assert(b.routes.dom().contains(r) <==> a.routes.dom().contains(r));
    }
    assert(after.routes =~= a.routes);
    assert forall|k: (Seq<char>, Seq<char>)|
        update.removed_trip_ids.contains(k) || update.added_trips.contains_key(
            k,
        ) implies b.routes.contains_key(k.0) by {
        assert(b.routes.dom().contains(k.0) <==> a.routes.dom().contains(k.0));
    }
}

/// The part of a combined delta that is addressed to one route is the
/// combination of the parts of the two deltas that are addressed to it.
proof fn lemma_combined_under_route(
    first: ScheduleUpdateView,
    second: ScheduleUpdateView,
    r: Seq<char>,
)
    ensures
        entries_under(updates_combined(first, second).added_trips, r) == combined_added(
            entries_under(first.added_trips, r),
            members_under(first.removed_trip_ids, r),
            entries_under(second.added_trips, r),
            members_under(second.removed_trip_ids, r),
        ),
        members_under(updates_combined(first, second).removed_trip_ids, r) == combined_removed(
            entries_under(first.added_trips, r),
            members_under(first.removed_trip_ids, r),
            entries_under(second.added_trips, r),
            members_under(second.removed_trip_ids, r),
        ),
{
    assert(entries_under(updates_combined(first, second).added_trips, r) =~= combined_added(
        entries_under(first.added_trips, r),
        members_under(first.removed_trip_ids, r),
        entries_under(second.added_trips, r),
        members_under(second.removed_trip_ids, r),
    ));
    assert(members_under(updates_combined(first, second).removed_trip_ids, r) =~= combined_removed(
        entries_under(first.added_trips, r),
        members_under(first.removed_trip_ids, r),
        entries_under(second.added_trips, r),
        members_under(second.removed_trip_ids, r),
    ));
}

/// Whether the first of two deltas fits a snapshot: whatever it adds without
/// removing is not yet in the snapshot.
pub open spec fn update_fits(update: ScheduleUpdateView, base: ScheduleIRView) -> bool {
    &&& fits(base.shapes, update.added_shapes, update.removed_shape_ids)
    &&& fits(base.stops, update.added_stops, update.removed_stop_ids)
    &&& fits(trip_table(base), update.added_trips, update.removed_trip_ids)
}

/// Applying the combination of two deltas is applying the first and then the
/// second, on every snapshot that the first delta fits.
pub proof fn law_combined_is_sequential(
    first: ScheduleUpdate,
    second: ScheduleUpdate,
    base: ScheduleIR,
)
    requires
        updates_combinable(first@, second@),
        update_fits(first@, base@),
    ensures
        schedule_patched(updates_combined(first@, second@), base@) == schedule_patched(
            second@,
            schedule_patched(first@, base@),
        ),
{
    lemma_combined_is_sequential_on_models(first@, second@, base@);
}

/// The same, stated of the models.
pub proof fn lemma_combined_is_sequential_on_models(
    first: ScheduleUpdateView,
    second: ScheduleUpdateView,
    base: ScheduleIRView,
)
    requires
        updates_combinable(first, second),
        update_fits(first, base),
    ensures
        schedule_patched(updates_combined(first, second), base) == schedule_patched(
            second,
            schedule_patched(first, base),
        ),
{
    let combo = updates_combined(first, second);
    let left = schedule_patched(combo, base);
    let middle = schedule_patched(first, base);
    let right = schedule_patched(second, middle);
    lemma_combined_is_sequential(
        base.shapes,
        first.added_shapes,
        first.removed_shape_ids,
        second.added_shapes,
        second.removed_shape_ids,
    );
    lemma_combined_is_sequential(
        base.stops,
        first.added_stops,
        first.removed_stop_ids,
        second.added_stops,
        second.removed_stop_ids,
    );
    assert forall|r: Seq<char>| base.routes.contains_key(r) implies left.routes[r]
        == right.routes[r] by {
        lemma_combined_under_route(first, second, r);
        let a1 = entries_under(first.added_trips, r);
        let r1 = members_under(first.removed_trip_ids, r);
        let a2 = entries_under(second.added_trips, r);
        let r2 = members_under(second.removed_trip_ids, r);
        assert forall|t: Seq<char>| #[trigger]
            a1.contains_key(t) && !r1.contains(t) implies !base.routes[r].trips.contains_key(t) by {
            assert(first.added_trips.contains_key((r, t)));
            assert(!trip_table(base).contains_key((r, t)));
        }
        assert forall|t: Seq<char>|
            !crate::delta::contradictory(
                r1.contains(t),
                r2.contains(t),
                a1.contains_key(t),
                #[trigger] a2.contains_key(t),
            ) by {
            assert(second.added_trips.contains_key((r, t)) == a2.contains_key(t));
        }
        lemma_combined_is_sequential(base.routes[r].trips, a1, r1, a2, r2);
        assert(middle.routes[r] == route_patched(first, base.routes[r], r));
    }
    assert(left.routes =~= right.routes);
}

/// Combining the delta from `a` to `b` with the delta from `b` to `c` and
/// applying the result to `a` gives `c`, for snapshots that have the same
/// routes, each filed under its own id.
pub proof fn law_delta_composition(a: ScheduleIR, b: ScheduleIR, c: ScheduleIR)
    requires
        a@.routes.dom() == b@.routes.dom(),
        b@.routes.dom() == c@.routes.dom(),
        a@.routes_filed_by_id(),
        b@.routes_filed_by_id(),
        c@.routes_filed_by_id(),
    ensures
        updates_combinable(schedule_diff(b@, a@), schedule_diff(c@, b@)),
        reaches(updates_combined(schedule_diff(b@, a@), schedule_diff(c@, b@)), a@),
        schedule_patched(updates_combined(schedule_diff(b@, a@), schedule_diff(c@, b@)), a@)
            == c@,
{
    lemma_delta_composition(a@, b@, c@);
}

/// The composition, stated of the models of three snapshots.
pub proof fn lemma_delta_composition(a: ScheduleIRView, b: ScheduleIRView, c: ScheduleIRView)
    requires
        a.routes.dom() == b.routes.dom(),
        b.routes.dom() == c.routes.dom(),
        a.routes_filed_by_id(),
        b.routes_filed_by_id(),
        c.routes_filed_by_id(),
    ensures
        updates_combinable(schedule_diff(b, a), schedule_diff(c, b)),
        reaches(updates_combined(schedule_diff(b, a), schedule_diff(c, b)), a),
        schedule_patched(updates_combined(schedule_diff(b, a), schedule_diff(c, b)), a) == c,
{
    let first = schedule_diff(b, a);
    let second = schedule_diff(c, b);
    let combo = updates_combined(first, second);
    lemma_chain_is_combinable(a.shapes, b.shapes, c.shapes);
    lemma_chain_is_combinable(a.stops, b.stops, c.stops);
    lemma_chain_is_combinable(trip_table(a), trip_table(b), trip_table(c));
    lemma_combined_is_sequential_on_models(first, second, a);
    lemma_round_trip(b, a);
    lemma_round_trip(c, b);
    assert forall|k: (Seq<char>, Seq<char>)|
        combo.removed_trip_ids.contains(k) || combo.added_trips.contains_key(
            k,
        ) implies a.routes.contains_key(k.0) by {
        assert(a.routes.dom().contains(k.0) <==> b.routes.dom().contains(k.0));
        assert(b.routes.dom().contains(k.0) <==> c.routes.dom().contains(k.0));
    }
}

/// The delta that leads to a snapshot changes nothing when it is applied to
/// that snapshot itself.
pub proof fn lemma_diff_keeps_its_target(curr: ScheduleIRView, prev: ScheduleIRView)
    requires
        curr.routes.dom() == prev.routes.dom(),
    ensures
        reaches(schedule_diff(curr, prev), curr),
        schedule_patched(schedule_diff(curr, prev), curr) == curr,
{
    let update = schedule_diff(curr, prev);
    let after = schedule_patched(update, curr);
    assert(after.shapes =~= curr.shapes);
    assert(after.stops =~= curr.stops);
    assert forall|r: Seq<char>| curr.routes.contains_key(r) implies after.routes[r]
        == curr.routes[r] by {
        assert(prev.routes.dom().contains(r));
        lemma_diff_under_route(curr, prev, r);
        assert(after.routes[r].trips =~= curr.routes[r].trips);
    }
    assert(after.routes =~= curr.routes);
    assert forall|k: (Seq<char>, Seq<char>)|
        update.removed_trip_ids.contains(k) || update.added_trips.contains_key(
            k,
        ) implies curr.routes.contains_key(k.0) by {
        assert(prev.routes.dom().contains(k.0) <==> curr.routes.dom().contains(k.0));
    }
}

/// Combining the empty delta with another gives that other delta.
pub proof fn lemma_combine_after_nothing(second: ScheduleUpdateView)
    ensures
        updates_combinable(empty_update(), second),
        updates_combined(empty_update(), second) == second,
{
    let combo = updates_combined(empty_update(), second);
    assert(combo.added_trips =~= second.added_trips);
    assert(combo.removed_trip_ids =~= second.removed_trip_ids);
    assert(combo.added_shapes =~= second.added_shapes);
    assert(combo.removed_shape_ids =~= second.removed_shape_ids);
    assert(combo.added_stops =~= second.added_stops);
    assert(combo.removed_stop_ids =~= second.removed_stop_ids);
}

} // verus!
