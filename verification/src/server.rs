//! The schedule service: what it answers to its two requests.

use crate::error::ScheduleError;
use crate::history::HistoryStore;
use crate::item::Item;
use crate::messages::{LastUpdateResponse, ScheduleRequest, ScheduleResponse};
use vstd::prelude::*;

verus! {

/// The timestamp that a request stands for: its own, or zero when it has
/// none.
pub open spec fn client_timestamp(timestamp: Option<u32>) -> u32 {
    match timestamp {
        Some(t) => t,
        None => 0,
    }
}

/// The service that answers clients from the store of snapshots.
#[derive(Debug, Default)]
pub struct ScheduleService {}

impl ScheduleService {
    /// Answers a client that holds the snapshot of a time, or none.
    ///
    /// A client whose snapshot is still in the store gets the delta that
    /// leads from it to the newest snapshot. Any other client gets the newest
    /// snapshot whole. A client without a timestamp counts as one with the
    /// timestamp zero. Either answer carries the time of the newest snapshot.
    /// Before the first commit there is nothing to answer with.
    pub fn get_schedule(&self, store: &HistoryStore, request: ScheduleRequest) -> (res: Result<
        ScheduleResponse,
        ScheduleError,
    >)
        ensures
            res is Ok <==> store.timestamps().len() > 0,
            res matches Err(e) ==> e is NotReady,
            res matches Ok(response) ==> response@.timestamp == store.newest() && (
            if store.timestamps().contains(client_timestamp(request@.timestamp)) {
                response@.full_schedule is None && response@.schedule_diff == Some(
                    store.deltas()[client_timestamp(request@.timestamp)],
                )
            } else {
                response@.schedule_diff is None && response@.full_schedule == store.current_full()
            }),
    {
        let timestamp = match request.timestamp {
            Some(timestamp) => timestamp,
            None => 0,
        };
        let newest = store.get_last_update();
        match store.delta(timestamp) {
            Some(delta) => Ok(
                ScheduleResponse {
                    full_schedule: None,
                    schedule_diff: Some(delta.copy()),
                    timestamp: newest,
                },
            ),
            None => match store.full() {
                Some(full) => Ok(
                    ScheduleResponse {
                        full_schedule: Some(full.copy()),
                        schedule_diff: None,
                        timestamp: newest,
                    },
                ),
                None => Err(ScheduleError::NotReady),
            },
        }
    }

    /// Answers a request for the time of the newest snapshot. The timestamp
    /// is absent before the first commit.
    pub fn get_last_update(&self, store: &HistoryStore) -> (response: LastUpdateResponse)
        ensures
            response@.timestamp == store.newest(),
    {
        LastUpdateResponse { timestamp: store.get_last_update() }
    }
}

} // verus!
