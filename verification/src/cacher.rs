//! The edge cache in front of the schedule service.
//!
//! The cache remembers answers by the exact bytes of the request that they
//! answer. It holds at most twenty answers and never puts one out to make
//! room: while it is full, new answers are not remembered. Whenever the
//! origin reports another time of its newest snapshot, or cannot be asked,
//! everything that the cache remembers is dropped.

use crate::error::ScheduleError;
use crate::item::Item;
use crate::keyed::KeyedMap;
use vstd::prelude::*;
use vstd::std_specs::cmp::PartialEqSpecImpl;
use vstd::string::StringExecFns;

verus! {

/// How many answers the cache holds at most.
pub const MAX_CACHE_ENTRIES: usize = 20;

/// An answer of the origin: its body, and its headers and trailers as names
/// with their values.
#[derive(Debug)]
pub struct CachedResponse {
    pub body: Vec<u8>,
    pub headers: Vec<(String, Vec<u8>)>,
    pub trailers: Vec<(String, Vec<u8>)>,
}

/// The mathematical model of a [`CachedResponse`].
#[verifier::ext_equal]
pub struct CachedResponseView {
    pub body: Seq<u8>,
    pub headers: Seq<(Seq<char>, Seq<u8>)>,
    pub trailers: Seq<(Seq<char>, Seq<u8>)>,
}

impl View for CachedResponse {
    type V = CachedResponseView;

    open spec fn view(&self) -> CachedResponseView {
        CachedResponseView {
            body: self.body.deep_view(),
            headers: self.headers.deep_view(),
            trailers: self.trailers.deep_view(),
        }
    }
}

impl DeepView for CachedResponse {
    type V = CachedResponseView;

    open spec fn deep_view(&self) -> CachedResponseView {
        self@
    }
}

impl Item for CachedResponse {
    fn same(&self, other: &Self) -> (b: bool) {
        self.body.same(&other.body)
            && self.headers.same(&other.headers)
            && self.trailers.same(&other.trailers)
    }

    fn copy(&self) -> (c: Self) {
        CachedResponse {
            body: self.body.copy(),
            headers: self.headers.copy(),
            trailers: self.trailers.copy(),
        }
    }
}

impl Clone for CachedResponse {
    fn clone(&self) -> (c: Self)
        ensures
            c@ == self@,
    {
        self.copy()
    }
}

impl PartialEq for CachedResponse {
    fn eq(&self, other: &Self) -> (b: bool) {
        self.same(other)
    }
}

impl PartialEqSpecImpl for CachedResponse {
    open spec fn obeys_eq_spec() -> bool {
        true
    }

    open spec fn eq_spec(&self, other: &Self) -> bool {
        self@ == other@
    }
}

/// What came of asking the origin for the time of its newest snapshot.
#[derive(Debug)]
pub enum OriginReport {
    /// There is no connection to the origin to ask over.
    NotConnected,
    /// The origin was asked and the call failed.
    Failed,
    /// The origin answered without a timestamp.
    NoTimestamp,
    /// The origin answered with the time of its newest snapshot.
    Timestamp(u32),
}

/// The one path that the cacher forwards.
pub open spec fn served_path() -> Seq<char> {
    "/db_transit.Schedule/GetSchedule"@
}

/// Decides whether a request goes to the one path that the cacher forwards.
pub fn is_served_path(path: &str) -> (served: bool)
    ensures
        served == (path@ == served_path()),
{
    let expected = String::from_str("/db_transit.Schedule/GetSchedule");
    let given = String::from_str(path);
    given == expected
}

/// The cache with the time of the origin's newest snapshot that it was filled
/// under.
#[derive(Debug)]
pub struct Cacher {
    last_update: u32,
    cache: KeyedMap<Vec<u8>, CachedResponse>,
}

impl Cacher {
    /// The time of the origin's newest snapshot as the cacher last learned it;
    /// zero when it could not learn it.
    pub closed spec fn last_update(&self) -> u32 {
        self.last_update
    }

    /// The answers that the cache remembers, by the bytes of their requests.
    pub closed spec fn entries(&self) -> Map<Seq<u8>, CachedResponseView> {
        self.cache@
    }

    /// The cache never holds more than twenty answers.
    #[verifier::type_invariant]
    pub closed spec fn wf(&self) -> bool {
        self.cache@.len() <= MAX_CACHE_ENTRIES
    }

    /// A cacher that remembers nothing.
    pub fn new() -> (cacher: Self)
        ensures
            cacher.last_update() == 0,
            cacher.entries() == Map::<Seq<u8>, CachedResponseView>::empty(),
    {
        Cacher { last_update: 0, cache: KeyedMap::new() }
    }

    /// How many answers the cache remembers.
    pub fn len(&self) -> (n: usize)
        ensures
            n == self.entries().len(),
            n <= MAX_CACHE_ENTRIES,
    {
        proof {
            use_type_invariant(self);
        }
        self.cache.len()
    }

    /// The time of the origin's newest snapshot as the cacher last learned it.
    pub fn last_update_time(&self) -> (timestamp: u32)
        ensures
            timestamp == self.last_update(),
    {
        self.last_update
    }

    /// The state of the cache after the origin was asked for the time of its
    /// newest snapshot: as before when the origin reports the time that the
    /// cache was filled under, and empty otherwise, under the reported time
    /// or under zero when none was reported.
    pub open spec fn after_report(
        entries: Map<Seq<u8>, CachedResponseView>,
        last_update: u32,
        report: OriginReport,
    ) -> (Map<Seq<u8>, CachedResponseView>, u32) {
        match report {
            OriginReport::Timestamp(time) => if time == last_update {
                (entries, last_update)
            } else {
                (Map::empty(), time)
            },
            _ => (Map::empty(), 0),
        }
    }

    /// Takes in what came of asking the origin for the time of its newest
    /// snapshot, and says whether the cache was dropped.
    pub fn check_cache_validity(&mut self, report: OriginReport) -> (cleared: bool)
        ensures
            (final(self).entries(), final(self).last_update()) == Self::after_report(
                old(self).entries(),
                old(self).last_update(),
                report,
            ),
            cleared == !(report matches OriginReport::Timestamp(time) && time == old(
                self,
            ).last_update()),
    {
        proof {
            use_type_invariant(&*self);
        }
        let mut clearing = false;
        match report {
            OriginReport::Timestamp(time) => {
                if self.last_update != time {
                    clearing = true;
                    self.last_update = time;
                }
            },
            _ => {
                clearing = true;
                self.last_update = 0;
            },
        }
        if clearing {
            self.cache = KeyedMap::new();
        }
        clearing
    }

    /// Looks up the answer that is remembered for the bytes of a request.
    pub fn get(&self, key: &Vec<u8>) -> (hit: Option<&CachedResponse>)
        ensures
            match hit {
                Some(answer) => self.entries().contains_key(key@) && answer@
                    == self.entries()[key@],
                None => !self.entries().contains_key(key@),
            },
    {
        proof {
            assert(key.deep_view() =~= key@);
        }
        self.cache.get(key)
    }

    /// Remembers an answer for the bytes of a request, unless the cache is
    /// full. Says whether the answer was remembered.
    pub fn add_cached_value(&mut self, key: Vec<u8>, answer: CachedResponse) -> (stored: bool)
        ensures
            stored == (old(self).entries().len() < MAX_CACHE_ENTRIES),
            final(self).last_update() == old(self).last_update(),
            final(self).entries() == if stored {
                old(self).entries().insert(key@, answer@)
            } else {
                old(self).entries()
            },
    {
        proof {
            use_type_invariant(&*self);
            use_type_invariant(&self.cache);
            self.cache.lemma_entries();
            assert(key.deep_view() =~= key@);
        }
        if self.cache.len() >= MAX_CACHE_ENTRIES {
            return false;
        }
        let mut cache: KeyedMap<Vec<u8>, CachedResponse> = KeyedMap::new();
        std::mem::swap(&mut cache, &mut self.cache);
        let ghost before = cache@;
        cache.insert(key, answer);
        proof {
            use_type_invariant(&cache);
            cache.lemma_entries();
            if before.contains_key(key@) {
                assert(before.insert(key@, answer@).dom() =~= before.dom());
            } else {
                assert(before.insert(key@, answer@).dom() =~= before.dom().insert(key@));
            }
        }
        self.cache = cache;
        true
    }
}

/// How far the serving of one request has come.
#[derive(Debug)]
pub enum Stage {
    /// Nothing is known of the request yet.
    Start,
    /// The origin is being asked for the time of its newest snapshot.
    AwaitingOrigin,
    /// The body of the request is being read.
    AwaitingBody,
    /// The request, whose bytes are kept here, is with the origin.
    AwaitingUpstream(Vec<u8>),
    /// The request was answered or rejected.
    Done,
}

/// What happened while a request was served.
#[derive(Debug)]
pub enum Event {
    /// A request came in for this path.
    Request(String),
    /// The origin was asked for the time of its newest snapshot.
    Origin(OriginReport),
    /// The body of the request was read.
    Body(Vec<u8>),
    /// The origin answered the request.
    Upstream(CachedResponse),
}

/// What is to be done next for a request.
#[derive(Debug)]
pub enum Action {
    /// Turn the request down with this error.
    Reject(ScheduleError),
    /// Ask the origin for the time of its newest snapshot.
    AskOrigin,
    /// Read the body of the request. `cleared` says whether the cache was
    /// dropped on what the origin reported.
    ReadBody { cleared: bool },
    /// Answer the request with this, which the cache remembered.
    Respond(CachedResponse),
    /// Answer the request with this, which the origin gave. `remembered` says
    /// whether the cache had room to remember it.
    Deliver { answer: CachedResponse, remembered: bool },
    /// Send the request with these bytes on to the origin.
    Forward(Vec<u8>),
}

impl Cacher {
    /// Takes the serving of one request one step further.
    ///
    /// A request to another path than the one that is served is rejected.
    /// Else the origin is asked for the time of its newest snapshot, and what
    /// comes of that may drop the cache. Then the body is read. A body that
    /// the cache has an answer for is answered from the cache; any other is
    /// sent on, and its answer is delivered, and remembered if the cache has
    /// room. An event
    /// that does not fit the stage ends the serving with an error and leaves
    /// the cache as it is.
    pub fn step(&mut self, stage: Stage, event: Event) -> (next: (Stage, Action))
        ensures
            match (stage, event) {
                (Stage::Start, Event::Request(path)) => {
                    &&& final(self).entries() == old(self).entries()
                    &&& final(self).last_update() == old(self).last_update()
                    &&& if path@ == served_path() {
                        next.0 is AwaitingOrigin && next.1 is AskOrigin
                    } else {
                        next.0 is Done && (next.1 matches Action::Reject(
                            ScheduleError::UnsupportedEndpoint(p),
                        ) && p@ == path@)
                    }
                },
                (Stage::AwaitingOrigin, Event::Origin(report)) => {
                    &&& (final(self).entries(), final(self).last_update()) == Self::after_report(
                        old(self).entries(),
                        old(self).last_update(),
                        report,
                    )
                    &&& next.0 is AwaitingBody
                    &&& (next.1 matches Action::ReadBody { cleared } && cleared == !(
                    report matches OriginReport::Timestamp(time) && time == old(
                        self,
                    ).last_update()))
                },
                (Stage::AwaitingBody, Event::Body(body)) => {
                    &&& final(self).entries() == old(self).entries()
                    &&& final(self).last_update() == old(self).last_update()
                    &&& if old(self).entries().contains_key(body@) {
                        next.0 is Done && (next.1 matches Action::Respond(answer) && answer@
                            == old(self).entries()[body@])
                    } else {
                        (next.0 matches Stage::AwaitingUpstream(key) && key@ == body@) && (
                        next.1 matches Action::Forward(bytes) && bytes@ == body@)
                    }
                },
                (Stage::AwaitingUpstream(key), Event::Upstream(answer)) => {
                    &&& final(self).last_update() == old(self).last_update()
                    &&& final(self).entries() == if old(self).entries().len()
                        < MAX_CACHE_ENTRIES {
                        old(self).entries().insert(key@, answer@)
                    } else {
                        old(self).entries()
                    }
                    &&& next.0 is Done
                    &&& (next.1 matches Action::Deliver { answer: given, remembered } && given@
                        == answer@ && remembered == (old(self).entries().len()
                        < MAX_CACHE_ENTRIES))
                },
                _ => {
                    &&& final(self).entries() == old(self).entries()
                    &&& final(self).last_update() == old(self).last_update()
                    &&& next.0 is Done
                    &&& (next.1 matches Action::Reject(ScheduleError::RawError(text)) && text@
                        == "Unexpected event while serving"@)
                },
            },
    {
        match (stage, event) {
            (Stage::Start, Event::Request(path)) => {
                if is_served_path(path.as_str()) {
                    (Stage::AwaitingOrigin, Action::AskOrigin)
                } else {
                    (Stage::Done, Action::Reject(ScheduleError::UnsupportedEndpoint(path)))
                }
            },
            (Stage::AwaitingOrigin, Event::Origin(report)) => {
                let cleared = self.check_cache_validity(report);
                (Stage::AwaitingBody, Action::ReadBody { cleared })
            },
            (Stage::AwaitingBody, Event::Body(body)) => {
                match self.get(&body) {
                    Some(answer) => (Stage::Done, Action::Respond(answer.copy())),
                    None => {
                        let bytes = body.copy();
                        proof {
                            assert(bytes.deep_view() =~= bytes@);
                            assert(body.deep_view() =~= body@);
                        }
                        (Stage::AwaitingUpstream(body), Action::Forward(bytes))
                    },
                }
            },
            (Stage::AwaitingUpstream(key), Event::Upstream(answer)) => {
                let given = answer.copy();
                let remembered = self.add_cached_value(key, answer);
                (Stage::Done, Action::Deliver { answer: given, remembered })
            },
            _ => (
                Stage::Done,
                Action::Reject(
                    ScheduleError::RawError(String::from_str("Unexpected event while serving")),
                ),
            ),
        }
    }
}

} // verus!
