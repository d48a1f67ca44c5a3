//! What can go wrong inside the schedule service.

use vstd::prelude::*;
use vstd::string::StringExecFns;

verus! {

/// A failure of one of the library's operations.
#[derive(Debug)]
pub enum ScheduleError {
    /// The newer of two snapshots has a route that the older one lacks.
    NewRoute(String),
    /// The older of two snapshots has a route that the newer one lacks.
    RemovedRoute(String),
    /// A trip is addressed to a route that the snapshot does not have.
    UnknownRoute(String),
    /// Two deltas were combined that cannot follow one another.
    UnexpectedDiffState,
    /// A date window is not between 1 and 32 days long, or runs past the
    /// end of the calendar.
    InvalidWindow,
    /// A snapshot was committed under a timestamp that is not later than the
    /// newest one in the history.
    StaleTimestamp,
    /// A schedule was asked for before the first snapshot was committed.
    NotReady,
    /// A request was made to a path that the cacher does not forward.
    UnsupportedEndpoint(String),
    /// Any other failure, described in words.
    RawError(String),
}

impl ScheduleError {
    /// The words that introduce the detail of an error.
    pub open spec fn label(&self) -> Seq<char> {
        match self {
            ScheduleError::NewRoute(_) => "Unexpected new route: "@,
            ScheduleError::RemovedRoute(_) => "Unexpected removed route: "@,
            ScheduleError::UnknownRoute(_) => "Unable to find route in schedule: "@,
            ScheduleError::UnexpectedDiffState => "Unexpected situation with diffs"@,
            ScheduleError::InvalidWindow => "Unable to walk the date window"@,
            ScheduleError::StaleTimestamp => "Snapshot is not newer than the history"@,
            ScheduleError::NotReady => "Unable to find data"@,
            ScheduleError::UnsupportedEndpoint(_) => "Endpoint not supported: "@,
            ScheduleError::RawError(_) => Seq::<char>::empty(),
        }
    }

    /// The detail that an error carries, empty where it carries none.
    pub open spec fn detail(&self) -> Seq<char> {
        match self {
            ScheduleError::NewRoute(id) => id@,
            ScheduleError::RemovedRoute(id) => id@,
            ScheduleError::UnknownRoute(id) => id@,
            ScheduleError::UnsupportedEndpoint(path) => path@,
            ScheduleError::RawError(text) => text@,
            _ => Seq::<char>::empty(),
        }
    }

    /// The error in words: its label followed by its detail.
    pub fn message(&self) -> (text: String)
        ensures
            text@ == self.label() + self.detail(),
    {
        match self {
            ScheduleError::NewRoute(id) => String::from_str("Unexpected new route: ").concat(
                id.as_str(),
            ),
            ScheduleError::RemovedRoute(id) => String::from_str(
                "Unexpected removed route: ",
            ).concat(id.as_str()),
            ScheduleError::UnknownRoute(id) => String::from_str(
                "Unable to find route in schedule: ",
            ).concat(id.as_str()),
            ScheduleError::UnexpectedDiffState => {
                let text = String::from_str("Unexpected situation with diffs");
                assert(text@ + Seq::<char>::empty() =~= text@);
                text
            },
            ScheduleError::InvalidWindow => {
                let text = String::from_str("Unable to walk the date window");
                assert(text@ + Seq::<char>::empty() =~= text@);
                text
            },
            ScheduleError::StaleTimestamp => {
                let text = String::from_str("Snapshot is not newer than the history");
                assert(text@ + Seq::<char>::empty() =~= text@);
                text
            },
            ScheduleError::NotReady => {
                let text = String::from_str("Unable to find data");
                assert(text@ + Seq::<char>::empty() =~= text@);
                text
            },
            ScheduleError::UnsupportedEndpoint(path) => String::from_str(
                "Endpoint not supported: ",
            ).concat(path.as_str()),
            ScheduleError::RawError(text) => {
                assert(Seq::<char>::empty() + text@ =~= text@);
                text.clone()
            },
        }
    }
}

} // verus!
