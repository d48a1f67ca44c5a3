//! The store of recent snapshots that answers the schedule service.
//!
//! The store keeps up to ten snapshots in the order of their timestamps. For
//! each of them it keeps the delta that leads from it to the newest snapshot,
//! as a delta and as the message that carries it, and it keeps the newest
//! snapshot as a message. A commit changes all of this at once or not at all.

use crate::delta::lemma_diff_of_equal_is_empty;
use crate::diff::{
    names_route_mismatch, reaches, schedule_diff, schedule_patched, updates_combinable,
    updates_combined, ScheduleUpdate, ScheduleUpdateView,
};
use crate::error::ScheduleError;
use crate::ir::{ScheduleIR, ScheduleIRView};
use crate::item::Item;
use crate::keyed::KeyedMap;
use crate::laws::{
    lemma_combine_after_nothing, lemma_delta_composition, lemma_diff_keeps_its_target,
};
use crate::messages::{FullSchedule, FullScheduleView, ScheduleDiff, ScheduleDiffView};
use crate::wire::{schedule_to_wire, update_to_wire};
use vstd::prelude::*;

verus! {

/// How many snapshots the store keeps at most.
pub const MAX_HISTORY_LEN: usize = 10;

/// One snapshot of the store, with the time of its commit and the delta that
/// leads from it to the newest snapshot.
#[derive(Debug)]
struct HistoryEntry {
    timestamp: u32,
    schedule: ScheduleIR,
    update: ScheduleUpdate,
}

/// The store of recent snapshots.
#[derive(Debug)]
pub struct HistoryStore {
    history: Vec<HistoryEntry>,
    current_full: Option<FullSchedule>,
    deltas: KeyedMap<u32, ScheduleDiff>,
}

/// What a commit has to report besides its success.
#[derive(Debug)]
pub struct CommitReport {
    /// For how many snapshots the delta that was folded from two older deltas
    /// did not lead to the new snapshot. It is never used; the delta that is
    /// computed directly is.
    pub mismatches: usize,
}

/// Whether the delta that is folded from the delta that a snapshot had so
/// far and the delta of the newest commit leads from that snapshot to the new
/// one.
pub open spec fn folded_delta_leads(
    old_update: ScheduleUpdateView,
    prev_diff: ScheduleUpdateView,
    old_schedule: ScheduleIRView,
    schedule: ScheduleIRView,
) -> bool {
    updates_combinable(old_update, prev_diff) && reaches(
        updates_combined(old_update, prev_diff),
        old_schedule,
    ) && schedule_patched(updates_combined(old_update, prev_diff), old_schedule) == schedule
}

/// For how many of the snapshots the folded delta does not lead to `target`,
/// `previous` being the newest snapshot before `target`.
pub open spec fn astray(
    snapshots: Seq<ScheduleIR>,
    previous: ScheduleIRView,
    target: ScheduleIRView,
) -> nat
    decreases snapshots.len(),
{
    if snapshots.len() == 0 {
        0
    } else {
        astray(snapshots.drop_last(), previous, target) + if folded_delta_leads(
            schedule_diff(previous, snapshots.last()@),
            schedule_diff(target, previous),
            snapshots.last()@,
            target,
        ) {
            0nat
        } else {
            1nat
        }
    }
}

/// No folded delta goes astray among snapshots that have the same routes,
/// each filed under its own id.
pub proof fn lemma_none_astray(
    snapshots: Seq<ScheduleIR>,
    previous: ScheduleIRView,
    target: ScheduleIRView,
)
    requires
        previous.routes.dom() == target.routes.dom(),
        previous.routes_filed_by_id(),
        target.routes_filed_by_id(),
        forall|i: int|
            0 <= i < snapshots.len() ==> (#[trigger] snapshots[i])@.routes.dom()
                == previous.routes.dom() && snapshots[i]@.routes_filed_by_id(),
    ensures
        astray(snapshots, previous, target) == 0,
    decreases snapshots.len(),
{
    if snapshots.len() > 0 {
        lemma_none_astray(snapshots.drop_last(), previous, target);
        lemma_delta_composition(snapshots.last()@, previous, target);
    }
}

impl HistoryStore {
    /// The timestamps of the snapshots, oldest first.
    pub closed spec fn timestamps(&self) -> Seq<u32> {
        Seq::new(self.history@.len(), |i: int| self.history@[i].timestamp)
    }

    /// The snapshots, oldest first.
    pub closed spec fn snapshots(&self) -> Seq<ScheduleIR> {
        Seq::new(self.history@.len(), |i: int| self.history@[i].schedule)
    }

    /// For each snapshot the delta that leads from it to the newest one.
    pub closed spec fn updates(&self) -> Seq<ScheduleUpdate> {
        Seq::new(self.history@.len(), |i: int| self.history@[i].update)
    }

    /// The catalogue of deltas as messages, by the timestamp of the snapshot
    /// that each delta starts from.
    pub closed spec fn deltas(&self) -> Map<u32, ScheduleDiffView> {
        self.deltas@
    }

    /// The newest snapshot as a message.
    pub closed spec fn current_full(&self) -> Option<FullScheduleView> {
        self.current_full.deep_view()
    }

    /// The timestamp of the newest snapshot, if there is one.
    pub open spec fn newest(&self) -> Option<u32> {
        if self.timestamps().len() > 0 {
            Some(self.timestamps().last())
        } else {
            None
        }
    }

    /// The store holds at most ten snapshots, their timestamps grow strictly,
    /// and the catalogue has a delta for exactly these timestamps.
    pub open spec fn is_bounded(&self) -> bool {
        &&& self.timestamps().len() <= MAX_HISTORY_LEN
        &&& forall|i: int, j: int|
            0 <= i < j < self.timestamps().len() ==> self.timestamps()[i] < self.timestamps()[j]
        &&& self.deltas().dom() == self.timestamps().to_set()
    }

    /// What holds of the store between any two commits.
    #[verifier::type_invariant]
    pub closed spec fn wf(&self) -> bool {
        let n = self.history@.len();
        &&& n <= MAX_HISTORY_LEN
        &&& forall|i: int, j: int|
            0 <= i < j < n ==> self.history@[i].timestamp < self.history@[j].timestamp
        &&& self.deltas@.dom() =~= self.timestamps().to_set()
        &&& (self.current_full is Some <==> n > 0)
        &&& n > 0 ==> self.current_full->0@ == self.history@[n - 1].schedule.on_wire()
        &&& forall|i: int|
            0 <= i < n ==> (#[trigger] self.history@[i]).schedule@.routes.dom()
                == self.history@[n - 1].schedule@.routes.dom()
        &&& forall|i: int|
            0 <= i < n ==> (#[trigger] self.history@[i]).update@ == schedule_diff(
                self.history@[n - 1].schedule@,
                self.history@[i].schedule@,
            )
        &&& forall|i: int|
            0 <= i < n ==> self.deltas@[(#[trigger] self.history@[i]).timestamp]
                == self.history@[i].update.on_wire()
    }

    /// At all times the store is bounded, it holds the newest snapshot as a
    /// message, and the delta that it keeps for a snapshot leads from that
    /// snapshot to the newest one.
    pub proof fn lemma_bounded_history(&self)
        requires
            self.wf(),
        ensures
            self.is_bounded(),
            self.snapshots().len() == self.timestamps().len(),
            self.updates().len() == self.timestamps().len(),
            self.current_full() is Some <==> self.timestamps().len() > 0,
            self.timestamps().len() > 0 ==> self.current_full() == Some(
                self.snapshots().last().on_wire(),
            ),
            forall|i: int|
                0 <= i < self.timestamps().len() ==> (#[trigger] self.updates()[i])@
                    == schedule_diff(self.snapshots().last()@, self.snapshots()[i]@),
            forall|i: int|
                0 <= i < self.timestamps().len() ==> self.deltas()[#[trigger] self.timestamps()[i]]
                    == self.updates()[i].on_wire(),
            forall|i: int|
                0 <= i < self.timestamps().len() ==> (#[trigger] self.snapshots()[i])@.routes.dom()
                    == self.snapshots().last()@.routes.dom(),
    {
        let n = self.history@.len() as int;
        assert forall|i: int| 0 <= i < n implies (#[trigger] self.updates()[i])@ == schedule_diff(
            self.snapshots().last()@,
            self.snapshots()[i]@,
        ) by {
            assert(self.history@[i].update@ == schedule_diff(
                self.history@[n - 1].schedule@,
                self.history@[i].schedule@,
            ));
        }
        assert forall|i: int| 0 <= i < n implies self.deltas()[#[trigger] self.timestamps()[i]]
            == self.updates()[i].on_wire() by {
            assert(self.deltas@[self.history@[i].timestamp] == self.history@[i].update.on_wire());
        }
        assert forall|i: int| 0 <= i < n implies (#[trigger] self.snapshots()[i])@.routes.dom()
            == self.snapshots().last()@.routes.dom() by {
            assert(self.history@[i].schedule@.routes.dom()
                == self.history@[n - 1].schedule@.routes.dom());
        }
    }

    /// A store without snapshots.
    pub fn new() -> (store: Self)
        ensures
            store.is_bounded(),
            store.timestamps() == Seq::<u32>::empty(),
            store.snapshots() == Seq::<ScheduleIR>::empty(),
            store.updates() == Seq::<ScheduleUpdate>::empty(),
            store.deltas() == Map::<u32, ScheduleDiffView>::empty(),
            store.current_full() is None,
            store.newest() is None,
    {
        let store = HistoryStore {
            history: Vec::new(),
            current_full: None,
            deltas: KeyedMap::new(),
        };
        proof {
            assert(store.timestamps() =~= Seq::<u32>::empty());
            assert(store.snapshots() =~= Seq::<ScheduleIR>::empty());
            assert(store.updates() =~= Seq::<ScheduleUpdate>::empty());
            assert(store.timestamps().to_set() =~= Set::<u32>::empty());
        }
        store
    }

    /// How many snapshots the store holds.
    pub fn len(&self) -> (n: usize)
        ensures
            n == self.timestamps().len(),
            n <= MAX_HISTORY_LEN,
    {
        proof {
            use_type_invariant(self);
        }
        self.history.len()
    }

    /// The timestamp of the newest snapshot, absent before the first commit.
    pub fn get_last_update(&self) -> (timestamp: Option<u32>)
        ensures
            timestamp == self.newest(),
    {
        let n = self.history.len();
        if n == 0 {
            None
        } else {
            Some(self.history[n - 1].timestamp)
        }
    }

    /// The timestamp of the snapshot at a place, oldest first.
    pub fn timestamp_at(&self, i: usize) -> (timestamp: u32)
        requires
            i < self.timestamps().len(),
        ensures
            timestamp == self.timestamps()[i as int],
    {
        self.history[i].timestamp
    }

    /// The snapshot at a place, oldest first.
    pub fn snapshot_at(&self, i: usize) -> (snapshot: &ScheduleIR)
        requires
            i < self.timestamps().len(),
        ensures
            *snapshot == self.snapshots()[i as int],
    {
        &self.history[i].schedule
    }

    /// The delta that leads from the snapshot at a place to the newest one.
    pub fn update_at(&self, i: usize) -> (update: &ScheduleUpdate)
        requires
            i < self.timestamps().len(),
        ensures
            *update == self.updates()[i as int],
            update@ == schedule_diff(self.snapshots().last()@, self.snapshots()[i as int]@),
    {
        proof {
            use_type_invariant(self);
            self.lemma_bounded_history();
        }
        &self.history[i].update
    }

    /// The message with the delta that starts from the snapshot of a time.
    pub fn delta(&self, timestamp: u32) -> (delta: Option<&ScheduleDiff>)
        ensures
            delta is Some <==> self.timestamps().contains(timestamp),
            delta matches Some(d) ==> d@ == self.deltas()[timestamp],
    {
        proof {
            use_type_invariant(self);
        }
        self.deltas.get(&timestamp)
    }

    /// The newest snapshot as a message, absent before the first commit.
    pub fn full(&self) -> (full: Option<&FullSchedule>)
        ensures
            full is Some <==> self.timestamps().len() > 0,
            match full {
                Some(f) => self.current_full() == Some(f@),
                None => self.current_full() is None,
            },
    {
        proof {
            use_type_invariant(self);
        }
        match &self.current_full {
            Some(full) => Some(full),
            None => None,
        }
    }

    /// Whether the delta folded from the delta that a snapshot had so far and
    /// the delta of the newest commit leads from that snapshot to the new one.
    fn folded_delta_agrees(
        old_update: &ScheduleUpdate,
        prev_diff: &ScheduleUpdate,
        old_schedule: &ScheduleIR,
        schedule: &ScheduleIR,
    ) -> (agrees: bool)
        ensures
            agrees == folded_delta_leads(old_update@, prev_diff@, old_schedule@, schedule@),
    {
        match old_update.combine(prev_diff) {
            Ok(alt_update) => match alt_update.apply_to_schedule(old_schedule.copy()) {
                Ok(alt_schedule) => alt_schedule.same(schedule),
                Err(_) => false,
            },
            Err(_) => false,
        }
    }

    /// Commits a new snapshot under a timestamp.
    ///
    /// The oldest snapshot leaves when the store is full. Every snapshot that
    /// stays gets the delta that leads from it to the new one, and the
    /// catalogue is made anew from these deltas.
    ///
    /// Fails, and leaves the store as it was, when the timestamp is not later
    /// than the newest one or when the new snapshot does not have the routes
    /// of the newest one.
    pub fn commit(&mut self, schedule: ScheduleIR, timestamp: u32) -> (res: Result<
        CommitReport,
        ScheduleError,
    >)
        ensures
            res is Ok <==> (old(self).timestamps().len() > 0 ==> old(self).timestamps().last()
                < timestamp && schedule@.routes.dom() == old(
                self,
            ).snapshots().last()@.routes.dom()),
            res is Err ==> *final(self) == *old(self),
            res matches Err(e) ==> old(self).timestamps().len() > 0 && match e {
                ScheduleError::StaleTimestamp => timestamp <= old(self).timestamps().last(),
                _ => old(self).timestamps().last() < timestamp && names_route_mismatch(
                    e,
                    schedule.routes.keys(),
                    old(self).snapshots().last().routes.keys(),
                ),
            },
            res is Ok ==> final(self).timestamps() == old(self).timestamps().skip(
                if old(self).timestamps().len() == MAX_HISTORY_LEN {
                    1int
                } else {
                    0int
                },
            ).push(timestamp),
            res is Ok ==> final(self).snapshots() == old(self).snapshots().skip(
                if old(self).timestamps().len() == MAX_HISTORY_LEN {
                    1int
                } else {
                    0int
                },
            ).push(schedule),
            res is Ok ==> final(self).current_full() == Some(schedule.on_wire()),
            res is Ok ==> final(self).updates().len() == final(self).timestamps().len(),
            final(self).is_bounded(),
            res is Ok ==> forall|i: int|
                0 <= i < final(self).timestamps().len() ==> (#[trigger] final(self).updates()[i])@
                    == schedule_diff(schedule@, final(self).snapshots()[i]@),
            res is Ok ==> forall|i: int|
                0 <= i < final(self).timestamps().len() ==> final(self).deltas()[
                    #[trigger] final(self).timestamps()[i]
                ] == final(self).updates()[i].on_wire(),
            res matches Ok(report) ==> old(self).timestamps().len() > 0 ==> report.mismatches
                == astray(
                old(self).snapshots().skip(
                    if old(self).timestamps().len() == MAX_HISTORY_LEN {
                        1int
                    } else {
                        0int
                    },
                ),
                old(self).snapshots().last()@,
                schedule@,
            ),
            res matches Ok(report) ==> old(self).timestamps().len() == 0 ==> report.mismatches
                == 0,
    {
        proof {
            use_type_invariant(&*self);
            self.lemma_bounded_history();
        }
        let ghost before = *self;
        let count = self.history.len();
        let prev_diff = if count > 0 {
            let last = &self.history[count - 1];
            if timestamp <= last.timestamp {
                return Err(ScheduleError::StaleTimestamp);
            }
            match schedule.get_diff(&last.schedule) {
                Ok(update) => update,
                Err(e) => {
                    return Err(e);
                },
            }
        } else {
            ScheduleUpdate::default()
        };
        let ghost target = schedule@;
        let ghost previous = if count > 0 {
            self.history@[count - 1].schedule@
        } else {
            target
        };
        proof {
            if count == 0 {
                lemma_diff_of_equal_is_empty(crate::diff::trip_table(target));
                lemma_diff_of_equal_is_empty(target.shapes);
                lemma_diff_of_equal_is_empty(target.stops);
            }
            assert(prev_diff@ == schedule_diff(target, previous));
        }
        let mut taken = HistoryStore::new();
        std::mem::swap(self, &mut taken);
        let HistoryStore { history, current_full: _, deltas: _ } = taken;
        let mut entries = history;
        let ghost dropped: int = if count == MAX_HISTORY_LEN {
            1
        } else {
            0
        };
        if entries.len() == MAX_HISTORY_LEN {
            let _ = entries.remove(0);
        }
        let ghost kept = entries@;
        proof {
            assert(kept =~= before.history@.skip(dropped));
        }
        let n = entries.len();
        let mut deltas: KeyedMap<u32, ScheduleDiff> = KeyedMap::new();
        let mut mismatches: usize = 0;
        let mut i: usize = 0;
        let ghost held_snapshots = Seq::new(kept.len(), |k: int| kept[k].schedule);
        proof {
            assert(held_snapshots.take(0) =~= Seq::<ScheduleIR>::empty());
            assert(held_snapshots =~= before.snapshots().skip(dropped));
        }
        while i < n
            invariant
                i <= n,
                n == kept.len(),
                n < MAX_HISTORY_LEN,
                entries@.len() == n,
                target == schedule@,
                prev_diff@ == schedule_diff(target, previous),
                n > 0 ==> previous == kept[n - 1].schedule@,
                previous.routes.dom() == target.routes.dom(),
                forall|a: int, b: int| 0 <= a < b < n ==> kept[a].timestamp < kept[b].timestamp,
                forall|a: int| 0 <= a < n ==> (#[trigger] kept[a]).timestamp < timestamp,
                forall|a: int|
                    0 <= a < n ==> (#[trigger] kept[a]).schedule@.routes.dom()
                        == previous.routes.dom(),
                forall|a: int|
                    0 <= a < n ==> (#[trigger] kept[a]).update@ == schedule_diff(
                        previous,
                        kept[a].schedule@,
                    ),
                forall|a: int|
                    0 <= a < n ==> (#[trigger] entries@[a]).timestamp == kept[a].timestamp
                        && entries@[a].schedule == kept[a].schedule,
                forall|a: int| i <= a < n ==> (#[trigger] entries@[a]).update == kept[a].update,
                forall|a: int|
                    0 <= a < i ==> (#[trigger] entries@[a]).update@ == schedule_diff(
                        target,
                        kept[a].schedule@,
                    ),
                forall|t: u32|
                    #![trigger deltas@.contains_key(t)]
                    deltas@.contains_key(t) <==> exists|a: int|
                        0 <= a < i && (#[trigger] kept[a]).timestamp == t,
                forall|a: int|
                    0 <= a < i ==> deltas@[(#[trigger] kept[a]).timestamp]
                        == entries@[a].update.on_wire(),
                held_snapshots == Seq::new(kept.len(), |k: int| kept[k].schedule),
                mismatches == astray(held_snapshots.take(i as int), previous, target),
                mismatches <= i,
            decreases n - i,
        {
            let mut slot = HistoryEntry {
                timestamp: 0,
                schedule: ScheduleIR {
                    routes: KeyedMap::new(),
                    shapes: KeyedMap::new(),
                    stops: KeyedMap::new(),
                },
                update: ScheduleUpdate::default(),
            };
            let ghost held = entries@;
            entries.set_and_swap(i, &mut slot);
            assert(slot == held[i as int]);
            assert(slot.timestamp == kept[i as int].timestamp);
            assert(slot.schedule == kept[i as int].schedule);
            assert(slot.update == kept[i as int].update);
            let update = match schedule.get_diff(&slot.schedule) {
                Ok(update) => update,
                Err(e) => {
                    assert(false);
                    return Err(e);
                },
            };
            proof {
                let now = held_snapshots.take(i + 1);
                assert(now.drop_last() =~= held_snapshots.take(i as int));
                assert(now.last() == kept[i as int].schedule);
            }
            if !Self::folded_delta_agrees(&slot.update, &prev_diff, &slot.schedule, &schedule) {
                mismatches = mismatches + 1;
            }
            let ghost catalogue = deltas@;
            let message = update_to_wire(&update);
            deltas.insert(slot.timestamp, message);
            entries.set(
                i,
                HistoryEntry { timestamp: slot.timestamp, schedule: slot.schedule, update },
            );
            proof {
                assert forall|a: int| 0 <= a < i + 1 implies deltas@[(#[trigger] kept[a]).timestamp]
                    == entries@[a].update.on_wire() by {
                    if a < i {
                        assert(kept[a].timestamp != kept[i as int].timestamp);
                        assert(entries@[a] == held[a]);
                    }
                }
                assert forall|t: u32| deltas@.contains_key(t) <==> exists|a: int|
                    0 <= a < i + 1 && (#[trigger] kept[a]).timestamp == t by {
                    if catalogue.contains_key(t) {
                        let a = choose|a: int| 0 <= a < i && (#[trigger] kept[a]).timestamp == t;
                        assert(0 <= a < i + 1 && kept[a].timestamp == t);
                    }
                    if t == kept[i as int].timestamp {
                        assert(0 <= i < i + 1 && kept[i as int].timestamp == t);
                    }
                }
            }
            i += 1;
        }
        let latest = match schedule.get_diff(&schedule) {
            Ok(update) => update,
            Err(e) => {
                assert(false);
                return Err(e);
            },
        };
        proof {
            lemma_combine_after_nothing(prev_diff@);
            lemma_diff_keeps_its_target(target, previous);
        }
        let nothing = ScheduleUpdate::default();
        if !Self::folded_delta_agrees(&nothing, &prev_diff, &schedule, &schedule) {
            mismatches = mismatches + 1;
        }
        let full = schedule_to_wire(&schedule);
        let ghost catalogue = deltas@;
        deltas.insert(timestamp, update_to_wire(&latest));
        entries.push(HistoryEntry { timestamp, schedule, update: latest });
        proof {
            let all = entries@;
            assert(all.len() == n + 1);
            assert forall|a: int| 0 <= a < n + 1 implies deltas@[(#[trigger] all[a]).timestamp]
                == all[a].update.on_wire() by {
                if a < n {
                    assert(all[a].timestamp == kept[a].timestamp);
                    assert(kept[a].timestamp != timestamp);
                }
            }
            let stamps = Seq::new(all.len(), |k: int| all[k].timestamp);
            assert forall|t: u32| deltas@.dom().contains(t) <==> stamps.to_set().contains(t) by {
                if catalogue.contains_key(t) {
                    let a = choose|a: int| 0 <= a < n && (#[trigger] kept[a]).timestamp == t;
                    assert(stamps[a] == t);
                }
                if t == timestamp {
                    assert(stamps[n as int] == t);
                }
                if stamps.to_set().contains(t) {
                    let a = choose|a: int| 0 <= a < stamps.len() && stamps[a] == t;
                    if a < n {
                        assert(kept[a].timestamp == t);
                    }
                }
            }
            assert(deltas@.dom() =~= stamps.to_set());
            assert forall|a: int, b: int| 0 <= a < b < n + 1 implies all[a].timestamp
                < all[b].timestamp by {
                if b < n {
                    assert(kept[a].timestamp < kept[b].timestamp);
                } else {
                    assert(kept[a].timestamp < timestamp);
                }
            }
            assert forall|a: int| 0 <= a < n + 1 implies (#[trigger] all[a]).update@
                == schedule_diff(all[n as int].schedule@, all[a].schedule@) by {
                if a < n {
                    assert(all[a].schedule == kept[a].schedule);
                }
            }
            assert forall|a: int| 0 <= a < n + 1 implies (#[trigger] all[a]).schedule@.routes.dom()
                == all[n as int].schedule@.routes.dom() by {
                if a < n {
                    assert(all[a].schedule == kept[a].schedule);
                    assert(kept[a].schedule@.routes.dom() == previous.routes.dom());
                }
            }
        }
        proof {
            assert(held_snapshots.take(n as int) =~= held_snapshots);
        }
        *self = HistoryStore { history: entries, current_full: Some(full), deltas };
        proof {
            assert(self.timestamps() =~= before.timestamps().skip(dropped).push(timestamp));
            assert(self.snapshots() =~= before.snapshots().skip(dropped).push(schedule));
            self.lemma_bounded_history();
        }
        Ok(CommitReport { mismatches })
    }

    /// Checks what every commit leaves behind: the catalogue has as many
    /// deltas as the store has snapshots, one for each timestamp. The check
    /// never fails.
    pub fn verify_global_state(&self) -> (sound: bool)
        ensures
            sound == (self.deltas().len() == self.timestamps().len() && forall|i: int|
                0 <= i < self.timestamps().len() ==> self.deltas().contains_key(
                    #[trigger] self.timestamps()[i],
                )),
            sound,
    {
        proof {
            use_type_invariant(self);
            self.timestamps().unique_seq_to_set();
        }
        if self.history.len() != self.deltas.len() {
            return false;
        }
        let mut i: usize = 0;
        while i < self.history.len()
            invariant
                i <= self.history@.len(),
                self.wf(),
            decreases self.history@.len() - i,
        {
            proof {
                assert(self.timestamps()[i as int] == self.history@[i as int].timestamp);
            }
            if !self.deltas.contains_key(&self.history[i].timestamp) {
                return false;
            }
            i += 1;
        }
        true
    }
}

} // verus!
