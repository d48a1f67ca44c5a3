//! The decisions of the updater: when the next fetch is due, whether a bundle
//! that was fetched is new, and whether the snapshot built from it is.
//!
//! Fetching, parsing and sleeping are not done here. Whoever runs the updater
//! hands in what was fetched and built, and acts on what comes back.

use crate::calendar::LocalTime;
use crate::ir::{ScheduleIR, ScheduleIRView};
use crate::item::Item;
use vstd::prelude::*;

verus! {

/// The minutes between two fetches. It divides sixty.
pub const INTERVAL_M: u32 = 1;

/// The number of the last interval of an hour, counted from zero.
pub const LAST_VALID: u32 = 60 / INTERVAL_M - 1;

/// The BLAKE3 digest of a run of bytes, as the blake3 crate computes it.
pub uninterp spec fn blake3_digest(input: Seq<u8>) -> Seq<u8>;

/// Asks blake3 for the digest of a bundle.
///
/// The call is `blake3::hash`, whose 32 bytes are copied out. The contract
/// names the result and states its length.
#[verifier::external_body]
fn bundle_digest(bytes: &[u8]) -> (digest: Vec<u8>)
    ensures
        digest@ == blake3_digest(bytes@),
        digest@.len() == 32,
{
    blake3::hash(bytes).as_bytes().to_vec()
}

/// When the next fetch is due, seen from some time of day.
#[derive(Debug, Copy)]
pub struct NextUpdate {
    /// Whether the fetch is due on the day after.
    pub next_day: bool,
    /// The hour at which the fetch is due.
    pub hour: u32,
    /// The minute at which the fetch is due. The second is zero.
    pub minute: u32,
    /// How many seconds lie between the time of day and the fetch.
    pub delay: u32,
}

impl Clone for NextUpdate {
    fn clone(&self) -> (c: Self)
        ensures
            c == *self,
    {
        *self
    }
}

/// The next time of day, strictly after `hour:minute:second`, at which the
/// minute is a multiple of the interval and the second is zero.
///
/// After the last interval of an hour the next hour begins, and after the
/// last interval of the day the next day.
pub open spec fn next_update(hour: u32, minute: u32, second: u32) -> NextUpdate {
    let interval = minute / INTERVAL_M;
    let delay = ((interval + 1) * INTERVAL_M * 60 - (minute * 60 + second)) as u32;
    if interval == LAST_VALID {
        if hour == 23 {
            NextUpdate { next_day: true, hour: 0, minute: 0, delay }
        } else {
            NextUpdate { next_day: false, hour: (hour + 1) as u32, minute: 0, delay }
        }
    } else {
        NextUpdate { next_day: false, hour, minute: ((interval + 1) * INTERVAL_M) as u32, delay }
    }
}

/// Whether hour, minute and second are those of a time of day.
pub open spec fn is_time_of_day(hour: u32, minute: u32, second: u32) -> bool {
    hour < 24 && minute < 60 && second < 60
}

/// The delay of the next fetch is what lies between the two times of day,
/// it is more than nothing and at most one interval, and the fetch falls on
/// a multiple of the interval.
pub proof fn lemma_next_update(hour: u32, minute: u32, second: u32)
    requires
        is_time_of_day(hour, minute, second),
    ensures
        ({
            let next = next_update(hour, minute, second);
            &&& 0 < next.delay <= INTERVAL_M * 60
            &&& is_time_of_day(next.hour, next.minute, 0)
            &&& next.minute % INTERVAL_M == 0
            &&& (hour * 3600 + minute * 60 + second) + next.delay == (if next.next_day {
                86400int
            } else {
                0int
            }) + next.hour * 3600 + next.minute * 60
        }),
{
}

/// Finds when the next fetch is due, seen from the moment `now`. Absent when
/// `now` does not hold a time of day.
pub fn get_next_update(now: &LocalTime) -> (next: Option<NextUpdate>)
    ensures
        next == if is_time_of_day(now.hour, now.minute, now.second) {
            Some(next_update(now.hour, now.minute, now.second))
        } else {
            None
        },
{
    if now.hour >= 24 || now.minute >= 60 || now.second >= 60 {
        return None;
    }
    let interval = now.minute / INTERVAL_M;
    let delay = (interval + 1) * INTERVAL_M * 60 - (now.minute * 60 + now.second);
    if interval == LAST_VALID {
        if now.hour == 23 {
            Some(NextUpdate { next_day: true, hour: 0, minute: 0, delay })
        } else {
            Some(NextUpdate { next_day: false, hour: now.hour + 1, minute: 0, delay })
        }
    } else {
        Some(
            NextUpdate {
                next_day: false,
                hour: now.hour,
                minute: (interval + 1) * INTERVAL_M,
                delay,
            },
        )
    }
}

/// What the updater remembers from one cycle to the next.
#[derive(Debug)]
pub struct Updater {
    curr_schedule: Option<ScheduleIR>,
    curr_hash: Option<Vec<u8>>,
    next_update: Option<i64>,
}

impl Updater {
    /// The snapshot that was built last.
    pub closed spec fn schedule(&self) -> Option<ScheduleIRView> {
        self.curr_schedule.deep_view()
    }

    /// The digest of the bundle that was fetched last.
    pub closed spec fn hash(&self) -> Option<Seq<u8>> {
        match self.curr_hash {
            Some(digest) => Some(digest@),
            None => None,
        }
    }

    /// The moment at which the next fetch is due, in seconds since the start
    /// of 1970. Absent until the first fetch was planned.
    pub closed spec fn due_at(&self) -> Option<i64> {
        self.next_update
    }

    /// An updater that has fetched nothing yet.
    pub fn new() -> (updater: Self)
        ensures
            updater.schedule() is None,
            updater.hash() is None,
            updater.due_at() is None,
    {
        Updater { curr_schedule: None, curr_hash: None, next_update: None }
    }

    /// Whether a fetch is due at the moment `now`. The first fetch is due at
    /// once.
    pub fn is_due(&self, now: i64) -> (due: bool)
        ensures
            due == match self.due_at() {
                Some(at) => now >= at,
                None => true,
            },
    {
        match self.next_update {
            Some(at) => now >= at,
            None => true,
        }
    }

    /// Whether a digest differs from the digest of the bundle that was
    /// fetched last.
    pub fn digest_is_new(&self, digest: &Vec<u8>) -> (fresh: bool)
        ensures
            fresh == (self.hash() != Some(digest@)),
    {
        match &self.curr_hash {
            Some(known) => {
                proof {
                    assert(known.deep_view() =~= known@);
                    assert(digest.deep_view() =~= digest@);
                }
                !known.same(digest)
            },
            None => true,
        }
    }

    /// Takes the digest of a bundle that was fetched and hands it back when
    /// the bundle differs from the one that was fetched last. A bundle with
    /// the digest of the last one changes nothing.
    pub fn bundle_is_new(&self, bytes: &[u8]) -> (digest: Option<Vec<u8>>)
        ensures
            match digest {
                Some(d) => d@ == blake3_digest(bytes@) && self.hash() != Some(d@),
                None => self.hash() == Some(blake3_digest(bytes@)),
            },
    {
        let digest = bundle_digest(bytes);
        if self.digest_is_new(&digest) {
            Some(digest)
        } else {
            None
        }
    }

    /// Remembers the digest of a new bundle and the snapshot that was built
    /// from it. Hands the snapshot back when it differs from the one that was
    /// built last, and only then is there anything to commit.
    pub fn record(&mut self, schedule: ScheduleIR, digest: Vec<u8>) -> (fresh: Option<ScheduleIR>)
        ensures
            final(self).hash() == Some(digest@),
            final(self).schedule() == Some(schedule@),
            final(self).due_at() == old(self).due_at(),
            match fresh {
                Some(s) => s@ == schedule@ && old(self).schedule() != Some(schedule@),
                None => old(self).schedule() == Some(schedule@),
            },
    {
        self.curr_hash = Some(digest);
        let known = match &self.curr_schedule {
            Some(last) => last.same(&schedule),
            None => false,
        };
        if known {
            None
        } else {
            self.curr_schedule = Some(schedule.copy());
            Some(schedule)
        }
    }

    /// Plans the next fetch, seen from the moment `now`. Without a time of
    /// day to go by the next fetch is due at once.
    pub fn plan_next(&mut self, now: &LocalTime)
        ensures
            final(self).hash() == old(self).hash(),
            final(self).schedule() == old(self).schedule(),
            final(self).due_at() == if is_time_of_day(now.hour, now.minute, now.second)
                && now.timestamp + next_update(now.hour, now.minute, now.second).delay
                <= i64::MAX {
                Some((now.timestamp + next_update(now.hour, now.minute, now.second).delay) as i64)
            } else {
                None
            },
    {
        self.next_update = match get_next_update(now) {
            Some(next) => now.timestamp.checked_add(next.delay as i64),
            None => None,
        };
    }
}

} // verus!
