use vstd::prelude::*;

verus! {

/// What a cached artifact holds.
#[derive(Clone, Copy, Debug, PartialEq, Eq, Structural)]
pub enum Kind {
    /// A dictionary entry.
    Entry,
    /// An audio clip of the word spoken.
    Audio,
}

impl Kind {
    pub open spec fn spec_extension(self) -> Seq<char> {
        match self {
            Kind::Entry => "json"@,
            Kind::Audio => "mp3"@,
        }
    }
}

/// The name of the cache file of `(word, kind)`: the word, a dot, and the
/// extension of the kind.
pub open spec fn cache_name(word: Seq<char>, kind: Kind) -> Seq<char> {
    word + "."@ + kind.spec_extension()
}

/// The file name under the cache root that holds the artifact of `(word, kind)`.
pub fn cache_file_name(word: &str, kind: Kind) -> (r: String)
    ensures
        r@ == cache_name(word@, kind),
{
    let name = String::from_str(word);
    let name = name.concat(".");
    match kind {
        Kind::Entry => name.concat("json"),
        Kind::Audio => name.concat("mp3"),
    }
}

/// Why an acquisition ended without an artifact.
#[derive(Clone, Copy, Debug, PartialEq, Eq, Structural)]
pub enum AcquireError {
    /// The artifact was not in the cache when it was read back.
    CacheMiss,
    /// The remote source could not be reached or answered badly.
    RemoteFetchFailure,
    /// The word's language has no remote source.
    UnsupportedLanguage,
    /// The fetched artifact could not be written to the cache.
    StoreFailure,
    /// An event arrived that the current phase does not expect.
    UnexpectedEvent,
}

/// Where an acquisition stands.
#[derive(Clone, Copy, Debug, PartialEq, Eq, Structural)]
pub enum Phase {
    /// Nothing done yet.
    Start,
    /// Waiting for the first cache lookup.
    Lookup,
    /// Waiting for the remote fetch.
    Fetch,
    /// Waiting for the fetched artifact to be published in the cache.
    Publish,
    /// Waiting for the published artifact to be read back.
    Reread,
    /// An artifact was delivered.
    Done,
    /// The acquisition failed.
    Failed,
}

/// What the caller reports back after performing an action.
#[derive(Clone, Copy, Debug, PartialEq, Eq, Structural)]
pub enum Event {
    /// Start the acquisition.
    Begin,
    /// The cache holds the artifact; the caller keeps what it read.
    Hit,
    /// The cache does not hold the artifact.
    Miss,
    /// The remote source answered; the caller keeps the artifact to publish.
    Fetched,
    /// The remote source failed.
    FetchFailed,
    /// The artifact was written in full and made visible in one step.
    Published,
    /// The artifact could not be written.
    PublishFailed,
}

/// What the caller must do next.
#[derive(Clone, Copy, Debug, PartialEq, Eq, Structural)]
pub enum Action {
    /// Read the artifact from the cache.
    Lookup,
    /// Fetch the artifact from the remote source.
    Fetch,
    /// Write the fetched artifact to a staging file and rename it into place.
    Publish,
    /// Hand the artifact last read from the cache to the user.
    Deliver,
    /// Report the error.
    Fail(AcquireError),
    /// Nothing: the acquisition is over.
    Idle,
}

impl Action {
    pub open spec fn is_final(self) -> bool {
        self is Deliver || self is Fail || self is Idle
    }
}

/// The decisions of the acquisition chain: the cache first, then the remote
/// source, whose result is published and read back from the cache.
#[derive(Clone, Copy, Debug, PartialEq, Eq, Structural)]
pub struct Acquisition {
    pub phase: Phase,
    /// Why the remote source cannot be used for this word, if it cannot.
    pub blocked: Option<AcquireError>,
}

/// The next state and action after `e` arrives in state `s`.
pub open spec fn next(s: Acquisition, e: Event) -> (Acquisition, Action) {
    let go = |p: Phase| Acquisition { phase: p, blocked: s.blocked };
    match (s.phase, e) {
        (Phase::Start, Event::Begin) => (go(Phase::Lookup), Action::Lookup),
        (Phase::Lookup, Event::Hit) => (go(Phase::Done), Action::Deliver),
        (Phase::Lookup, Event::Miss) => match s.blocked {
            Some(err) => (go(Phase::Failed), Action::Fail(err)),
            None => (go(Phase::Fetch), Action::Fetch),
        },
        (Phase::Fetch, Event::Fetched) => (go(Phase::Publish), Action::Publish),
        (Phase::Fetch, Event::FetchFailed) => (
            go(Phase::Failed),
            Action::Fail(AcquireError::RemoteFetchFailure),
        ),
        (Phase::Publish, Event::Published) => (go(Phase::Reread), Action::Lookup),
        (Phase::Publish, Event::PublishFailed) => (
            go(Phase::Failed),
            Action::Fail(AcquireError::StoreFailure),
        ),
        (Phase::Reread, Event::Hit) => (go(Phase::Done), Action::Deliver),
        (Phase::Reread, Event::Miss) => (go(Phase::Failed), Action::Fail(AcquireError::CacheMiss)),
        (Phase::Done, _) => (s, Action::Idle),
        (Phase::Failed, _) => (s, Action::Idle),
        _ => (go(Phase::Failed), Action::Fail(AcquireError::UnexpectedEvent)),
    }
}

impl Acquisition {
    /// A fresh acquisition; `blocked` says why the remote source cannot be
    /// used, if it cannot.
    pub fn new(blocked: Option<AcquireError>) -> (r: Acquisition)
        ensures
            r.phase == Phase::Start,
            r.blocked == blocked,
    {
        Acquisition { phase: Phase::Start, blocked }
    }

    /// Takes the caller's report of the last action and says what to do next.
    pub fn advance(&mut self, e: Event) -> (r: Action)
        ensures
            (*final(self), r) == next(*old(self), e),
    {
        let blocked = self.blocked;
        match (self.phase, e) {
            (Phase::Start, Event::Begin) => {
                self.phase = Phase::Lookup;
                Action::Lookup
            },
            (Phase::Lookup, Event::Hit) => {
                self.phase = Phase::Done;
                Action::Deliver
            },
            (Phase::Lookup, Event::Miss) => match blocked {
                Some(err) => {
                    self.phase = Phase::Failed;
                    Action::Fail(err)
                },
                None => {
                    self.phase = Phase::Fetch;
                    Action::Fetch
                },
            },
            (Phase::Fetch, Event::Fetched) => {
                self.phase = Phase::Publish;
                Action::Publish
            },
            (Phase::Fetch, Event::FetchFailed) => {
                self.phase = Phase::Failed;
                Action::Fail(AcquireError::RemoteFetchFailure)
            },
            (Phase::Publish, Event::Published) => {
                self.phase = Phase::Reread;
                Action::Lookup
            },
            (Phase::Publish, Event::PublishFailed) => {
                self.phase = Phase::Failed;
                Action::Fail(AcquireError::StoreFailure)
            },
            (Phase::Reread, Event::Hit) => {
                self.phase = Phase::Done;
                Action::Deliver
            },
            (Phase::Reread, Event::Miss) => {
                self.phase = Phase::Failed;
                Action::Fail(AcquireError::CacheMiss)
            },
            (Phase::Done, _) => Action::Idle,
            (Phase::Failed, _) => Action::Idle,
            _ => {
                self.phase = Phase::Failed;
                Action::Fail(AcquireError::UnexpectedEvent)
            },
        }
    }
}

/// A model of what the caller acts on: the cache's files by name, what the
/// remote source answers, the artifact last read or fetched, and how many
/// fetches were made.
pub struct World {
    pub store: Map<Seq<char>, Seq<u8>>,
    pub remote: Option<Seq<u8>>,
    pub held: Seq<u8>,
    pub fetches: nat,
}

/// The event that performing `a` for the file `key` brings, and the world after it.
pub open spec fn react(w: World, key: Seq<char>, a: Action) -> (Event, World) {
    match a {
        Action::Lookup => if w.store.contains_key(key) {
            (Event::Hit, World { held: w.store[key], ..w })
        } else {
            (Event::Miss, w)
        },
        Action::Fetch => match w.remote {
            Some(d) => (Event::Fetched, World { held: d, fetches: w.fetches + 1, ..w }),
            None => (Event::FetchFailed, World { fetches: w.fetches + 1, ..w }),
        },
        Action::Publish => (Event::Published, World { store: w.store.insert(key, w.held), ..w }),
        _ => (Event::Begin, w),
    }
}

/// Runs the machine against the world, from event `e`, for at most `fuel` steps.
pub open spec fn drive(s: Acquisition, w: World, key: Seq<char>, e: Event, fuel: nat) -> (Acquisition, World, Action)
    decreases fuel,
{
    let (s2, a) = next(s, e);
    if fuel == 0 || a.is_final() {
        (s2, w, a)
    } else {
        let (e2, w2) = react(w, key, a);
        drive(s2, w2, key, e2, (fuel - 1) as nat)
    }
}

/// A whole acquisition of the file `key` in world `w`.
pub open spec fn acquire(w: World, key: Seq<char>, blocked: Option<AcquireError>) -> (Acquisition, World, Action) {
    drive(Acquisition { phase: Phase::Start, blocked }, w, key, Event::Begin, 6)
}

/// A cached artifact is delivered as it is, with no fetch and the cache
/// unchanged, whether or not the remote source could be used.
pub proof fn lemma_cache_hit_never_fetches(w: World, key: Seq<char>, blocked: Option<AcquireError>)
    requires
        w.store.contains_key(key),
    ensures
        ({
            let (s, w2, a) = acquire(w, key, blocked);
            &&& a == Action::Deliver
            &&& w2.held == w.store[key]
            &&& w2.fetches == w.fetches
            &&& w2.store == w.store
        }),
{
    reveal_with_fuel(drive, 3);
}

/// A word missing from the cache is fetched exactly once, published, and read
/// back; a second acquisition is then a pure cache hit that returns the same
/// artifact.
pub proof fn lemma_miss_fetches_once_then_hits(w: World, key: Seq<char>, d: Seq<u8>)
    requires
        !w.store.contains_key(key),
        w.remote == Some(d),
    ensures
        ({
            let (s, w2, a) = acquire(w, key, None);
            let (s3, w3, a3) = acquire(w2, key, None);
            &&& a == Action::Deliver
            &&& w2.held == d
            &&& w2.fetches == w.fetches + 1
            &&& w2.store == w.store.insert(key, d)
            &&& a3 == Action::Deliver
            &&& w3.held == w2.held
            &&& w3.fetches == w2.fetches
        }),
{
    reveal_with_fuel(drive, 6);
    let (s, w2, a) = acquire(w, key, None);
    assert(w2.store.contains_key(key));
    lemma_cache_hit_never_fetches(w2, key, None);
}

/// Where the remote source is blocked, a miss fails with that reason and no
/// fetch is made.
pub proof fn lemma_blocked_fails_before_fetch(w: World, key: Seq<char>, err: AcquireError)
    requires
        !w.store.contains_key(key),
    ensures
        ({
            let (s, w2, a) = acquire(w, key, Some(err));
            &&& a == Action::Fail(err)
            &&& w2.fetches == w.fetches
            &&& w2.store == w.store
        }),
{
    reveal_with_fuel(drive, 3);
}

/// A failed fetch is surfaced as a fetch failure, not as an empty artifact,
/// and the cache is left as it was.
pub proof fn lemma_fetch_failure_is_fatal(w: World, key: Seq<char>)
    requires
        !w.store.contains_key(key),
        w.remote is None,
    ensures
        ({
            let (s, w2, a) = acquire(w, key, None);
            &&& a == Action::Fail(AcquireError::RemoteFetchFailure)
            &&& w2.fetches == w.fetches + 1
            &&& w2.store == w.store
        }),
{
    reveal_with_fuel(drive, 4);
}

/// Publishing is one step that writes the whole fetched artifact: after any
/// acquisition, every file of the cache is as it was, or is the file of this
/// word holding exactly what the remote source answered.
pub proof fn lemma_publish_is_whole(w: World, key: Seq<char>, blocked: Option<AcquireError>)
    ensures
        ({
            let (s, w2, a) = acquire(w, key, blocked);
            forall|k: Seq<char>| #[trigger] w2.store.contains_key(k) ==> (w.store.contains_key(k)
                && w2.store[k] == w.store[k]) || (k == key && w.remote == Some(w2.store[k]))
        }),
{
    reveal_with_fuel(drive, 6);
}

} // verus!
