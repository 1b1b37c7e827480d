//! Streaming sessions: live partial text over the network.
//!
//! A session uses one channel per direction: audio goes up in chunks of PCM, and
//! events come down. Its life is `open`, then `audio` and `events`, then
//! `finalize` or `cancel`.
//!
//! A session holds the engine from beginning to end, so it excludes batch
//! requests and other sessions. An abandoned session would block the server for
//! good; therefore one without traffic is cancelled after a while.

use vstd::hash_map::StringHashMap;
use vstd::prelude::*;

use crate::pcm::{pcm_samples, samples_of};
use crate::random::{is_random_name, new_session_id};
use crate::server::auth::{ApiError, Failure};
use crate::text::{
    joined, law_blank_text_is_white_space, optional_text, trim, trimmed, white_space,
};

verus! {

/// How long a session may be without traffic, in milliseconds.
pub const SESSION_IDLE_TIMEOUT_MS: u64 = 120_000;

/// How often a session is checked for traffic, in milliseconds.
pub const WATCHDOG_TICK_MS: u64 = SESSION_IDLE_TIMEOUT_MS / 8;

/// How many events are kept for a client that reads them slowly.
pub const BUS_CAPACITY: usize = 64;

/// What a client is told while it streams.
#[derive(Clone, Debug)]
pub enum StreamEvent {
    /// The text so far. What is `committed` stays; what is `tentative` may still
    /// be rewritten.
    Text { committed: String, tentative: String },
    /// The engine has moved on to finalizing or post-processing.
    Phase { phase: String, kind: Option<String> },
    /// The end: the transcript.
    Final { text: String },
    /// The end: the session failed or was cancelled.
    Error { message: String },
}

impl StreamEvent {
    /// Whether nothing comes after this event.
    pub open spec fn terminal(&self) -> bool {
        self is Final || self is Error
    }

    /// Decides [`Self::terminal`].
    pub fn is_terminal(&self) -> (r: bool)
        ensures
            r == self.terminal(),
    {
        match self {
            StreamEvent::Final { .. } => true,
            StreamEvent::Error { .. } => true,
            _ => false,
        }
    }
}

/// What the event channel of a session hands out.
pub enum Received {
    Event(StreamEvent),
    /// The client was too slow, and events were dropped.
    Lagged,
    /// The server is shutting down.
    Closed,
}

/// What is done for the client that listens to a session.
pub enum FeedStep {
    /// It is sent an event; nothing follows if this is the `last`.
    Send { event: StreamEvent, last: bool },
    /// Nothing. Every event tells the whole text, so a dropped one is no loss.
    Skip,
    /// Its connection is closed.
    End,
}

/// The events of a session on their way to the client.
pub struct EventFeed {
    open: bool,
}

impl EventFeed {
    /// Whether more is to come.
    pub closed spec fn is_open(&self) -> bool {
        self.open
    }

    /// A feed from which nothing has been sent.
    pub fn new() -> (feed: EventFeed)
        ensures
            feed.is_open(),
    {
        EventFeed { open: true }
    }

    /// Whether more is to come.
    pub fn more(&self) -> (r: bool)
        ensures
            r == self.is_open(),
    {
        self.open
    }

    /// Passes on what the channel has handed out. A terminal event is sent, and
    /// then the feed is closed; from a closed feed nothing is sent.
    pub fn advance(&mut self, received: Received) -> (step: FeedStep)
        ensures
            !old(self).is_open() ==> step is End && !final(self).is_open(),
            old(self).is_open() ==> match received {
                Received::Event(event) => {
                    &&& step == (FeedStep::Send { event, last: event.terminal() })
                    &&& final(self).is_open() == !event.terminal()
                },
                Received::Lagged => step is Skip && final(self).is_open(),
                Received::Closed => step is End && !final(self).is_open(),
            },
    {
        if !self.open {
            return FeedStep::End;
        }
        match received {
            Received::Event(event) => {
                let last = event.is_terminal();
                self.open = !last;
                FeedStep::Send { event, last }
            },
            Received::Lagged => FeedStep::Skip,
            Received::Closed => {
                self.open = false;
                FeedStep::End
            },
        }
    }
}

/// A session that is under way.
#[derive(Clone, Copy, Debug, PartialEq, Eq, Structural)]
pub struct Session {
    /// Whether a client listens to the events, or has done so.
    pub events_taken: bool,
    /// When the last request for this session came, in milliseconds.
    pub last_seen: u64,
}

/// Who has the engine.
#[derive(Clone, Copy, Debug, PartialEq, Eq, Structural)]
pub enum EngineUse {
    /// Nobody.
    Idle,
    /// A request that runs from beginning to end: a batch transcription, the
    /// opening of a session, or its finalization.
    Request,
    /// The session that is under way.
    Session,
}

/// What there is to know of a [`StreamRegistry`].
#[verifier::ext_equal]
pub struct Registry {
    pub engine: EngineUse,
    pub sessions: Map<Seq<char>, Session>,
}

impl Registry {
    /// What holds at all times: there is a session exactly while a session has
    /// the engine, and there is only that one.
    pub open spec fn well_formed(self) -> bool {
        match self.engine {
            EngineUse::Session => exists|id: Seq<char>|
                self.sessions.dom() =~= #[trigger] set![id],
            _ => self.sessions.dom() =~= Set::empty(),
        }
    }

    /// The engine taken by a request, if nobody has it.
    pub open spec fn acquired(self) -> Registry {
        match self.engine {
            EngineUse::Idle => Registry { engine: EngineUse::Request, ..self },
            _ => self,
        }
    }

    /// The engine given back by the request that has it.
    pub open spec fn released(self) -> Registry {
        match self.engine {
            EngineUse::Request => Registry { engine: EngineUse::Idle, ..self },
            _ => self,
        }
    }

    /// The engine handed on from the request to a new session.
    pub open spec fn opened(self, id: Seq<char>, now: u64) -> Registry {
        Registry {
            engine: EngineUse::Session,
            sessions: self.sessions.insert(id, Session { events_taken: false, last_seen: now }),
        }
    }

    /// A request for a session noted.
    pub open spec fn touched(self, id: Seq<char>, now: u64) -> Registry {
        Registry {
            sessions: self.sessions.insert(id, Session { last_seen: now, ..self.sessions[id] }),
            ..self
        }
    }

    /// The events of a session given out.
    pub open spec fn listened(self, id: Seq<char>, now: u64) -> Registry {
        Registry {
            sessions: self.sessions.insert(id, Session { events_taken: true, last_seen: now }),
            ..self
        }
    }

    /// A session gone, and its engine passed to the request that ends it, or to
    /// nobody.
    pub open spec fn closed(self, id: Seq<char>, engine: EngineUse) -> Registry {
        Registry { engine, sessions: self.sessions.remove(id) }
    }

    /// How long a session has been without traffic.
    pub open spec fn idle_for(self, id: Seq<char>, now: u64) -> int {
        if now >= self.sessions[id].last_seen {
            now - self.sessions[id].last_seen
        } else {
            0
        }
    }
}

/// What a request for a session is answered that does not exist.
pub open spec fn unknown_session() -> Failure {
    Failure::not_found("unknown or expired session"@)
}

/// What the watchdog of a session does.
pub enum Watchdog {
    /// The session is over: the watchdog goes.
    Finished,
    /// The session is alive: the watchdog waits.
    Waiting,
    /// The session is cancelled, and its client told so.
    Expired(StreamEvent),
}

/// The sessions that are under way, and the engine that they share with the batch
/// requests.
pub struct StreamRegistry {
    sessions: StringHashMap<Session>,
    engine: EngineUse,
}

impl View for StreamRegistry {
    type V = Registry;

    closed spec fn view(&self) -> Registry {
        Registry { engine: self.engine, sessions: self.sessions@ }
    }
}

impl StreamRegistry {
    /// No session, and the engine free.
    pub fn new() -> (r: StreamRegistry)
        ensures
            r@.well_formed(),
            r@ == (Registry { engine: EngineUse::Idle, sessions: Map::empty() }),
    {
        StreamRegistry { sessions: StringHashMap::new(), engine: EngineUse::Idle }
    }

    /// The session with the given name.
    pub fn get(&self, id: &str) -> (r: Option<Session>)
        ensures
            r == if self@.sessions.contains_key(id@) {
                Some(self@.sessions[id@])
            } else {
                None
            },
    {
        match self.sessions.get(id) {
            Some(session) => Some(*session),
            None => None,
        }
    }

    /// Takes the engine for a request, unless somebody has it.
    pub fn acquire(&mut self) -> (granted: bool)
        requires
            old(self)@.well_formed(),
        ensures
            final(self)@.well_formed(),
            granted == (old(self)@.engine == EngineUse::Idle),
            final(self)@ == old(self)@.acquired(),
            granted ==> final(self)@.engine == EngineUse::Request,
            !granted ==> final(self)@ == old(self)@,
    {
        match self.engine {
            EngineUse::Idle => {
                self.engine = EngineUse::Request;
                true
            },
            _ => false,
        }
    }

    /// Gives the engine back at the end of a request.
    pub fn release(&mut self)
        requires
            old(self)@.well_formed(),
        ensures
            final(self)@.well_formed(),
            final(self)@ == old(self)@.released(),
    {
        match self.engine {
            EngineUse::Request => {
                self.engine = EngineUse::Idle;
            },
            _ => {},
        }
    }

    /// Enters a session under the given name, for the request that has the
    /// engine.
    pub fn register(&mut self, id: &str, now: u64)
        requires
            old(self)@.well_formed(),
            old(self)@.engine == EngineUse::Request,
        ensures
            final(self)@.well_formed(),
            final(self)@ == old(self)@.opened(id@, now),
    {
        let name = id.to_owned();
        self.sessions.insert(name, Session { events_taken: false, last_seen: now });
        self.engine = EngineUse::Session;
        assert(self@.sessions.dom() =~= set![id@]);
    }

    /// Opens a session for the request that has the engine, and returns its name.
    pub fn open_session(&mut self, now: u64) -> (id: String)
        requires
            old(self)@.well_formed(),
            old(self)@.engine == EngineUse::Request,
        ensures
            final(self)@.well_formed(),
            is_random_name(id@, 16),
            final(self)@ == old(self)@.opened(id@, now),
    {
        let id = new_session_id();
        self.register(id.as_str(), now);
        id
    }

    /// Takes a chunk of audio for a session: 16-bit samples, little-endian.
    pub fn push_audio(&mut self, id: &str, body: &[u8], now: u64) -> (r: Result<
        Vec<i16>,
        ApiError,
    >)
        requires
            old(self)@.well_formed(),
        ensures
            final(self)@.well_formed(),
            !old(self)@.sessions.contains_key(id@) ==> final(self)@ == old(self)@ && (
            r matches Err(error) && error@ == unknown_session()),
            old(self)@.sessions.contains_key(id@) ==> {
                &&& final(self)@ == old(self)@.touched(id@, now)
                &&& if body@.len() % 2 == 0 {
                    r matches Ok(samples) && samples@ == samples_of(body@)
                } else {
                    r matches Err(error) && error@ == Failure::bad_request(
                        "PCM chunk length must be a multiple of 2 (16-bit samples)"@,
                    )
                }
            },
    {
        let session = match self.get(id) {
            Some(session) => session,
            None => {
                return Err(ApiError::not_found("unknown or expired session"));
            },
        };
        let ghost before = self@.sessions.dom();
        self.sessions.insert(id.to_owned(), Session { last_seen: now, ..session });
        assert(self@.sessions.dom() =~= before);
        match pcm_samples(body) {
            Some(samples) => Ok(samples),
            None => Err(
                ApiError::bad_request("PCM chunk length must be a multiple of 2 (16-bit samples)"),
            ),
        }
    }

    /// Gives out the events of a session. Only one client can listen to them.
    pub fn events(&mut self, id: &str, now: u64) -> (r: Result<EventFeed, ApiError>)
        requires
            old(self)@.well_formed(),
        ensures
            final(self)@.well_formed(),
            !old(self)@.sessions.contains_key(id@) ==> final(self)@ == old(self)@ && (
            r matches Err(error) && error@ == unknown_session()),
            old(self)@.sessions.contains_key(id@) ==> {
                &&& final(self)@ == old(self)@.listened(id@, now)
                &&& if old(self)@.sessions[id@].events_taken {
                    r matches Err(error) && error@ == Failure::bad_request(
                        "event stream already consumed for this session"@,
                    )
                } else {
                    r matches Ok(feed) && feed.is_open()
                }
            },
    {
        let session = match self.get(id) {
            Some(session) => session,
            None => {
                return Err(ApiError::not_found("unknown or expired session"));
            },
        };
        let ghost before = self@.sessions.dom();
        self.sessions.insert(id.to_owned(), Session { events_taken: true, last_seen: now });
        assert(self@.sessions.dom() =~= before);
        if session.events_taken {
            return Err(ApiError::bad_request("event stream already consumed for this session"));
        }
        Ok(EventFeed::new())
    }

    /// Takes a session out. Its engine goes to the request that finalizes it, or
    /// becomes free.
    fn close(&mut self, id: &str, engine: EngineUse) -> (r: Result<(), ApiError>)
        requires
            old(self)@.well_formed(),
            engine != EngineUse::Session,
        ensures
            final(self)@.well_formed(),
            !old(self)@.sessions.contains_key(id@) ==> final(self)@ == old(self)@ && (
            r matches Err(error) && error@ == unknown_session()),
            old(self)@.sessions.contains_key(id@) ==> r is Ok && final(self)@ == old(self)@.closed(
                id@,
                engine,
            ),
    {
        match self.get(id) {
            None => {
                return Err(ApiError::not_found("unknown or expired session"));
            },
            Some(_) => {},
        }
        self.sessions.remove(id);
        self.engine = engine;
        proof {
            let only = choose|only: Seq<char>|
                old(self)@.sessions.dom() =~= #[trigger] set![only];
            assert(old(self)@.sessions.dom().contains(id@));
            assert(only == id@);
            assert(self@.sessions.dom() =~= Set::empty());
        }
        Ok(())
    }

    /// Ends a session so that its transcript can be finalized. The engine stays
    /// with the request until [`Self::release`].
    pub fn finalize(&mut self, id: &str) -> (r: Result<(), ApiError>)
        requires
            old(self)@.well_formed(),
        ensures
            final(self)@.well_formed(),
            !old(self)@.sessions.contains_key(id@) ==> final(self)@ == old(self)@ && (
            r matches Err(error) && error@ == unknown_session()),
            old(self)@.sessions.contains_key(id@) ==> r is Ok && final(self)@ == old(self)@.closed(
                id@,
                EngineUse::Request,
            ),
    {
        self.close(id, EngineUse::Request)
    }

    /// Ends a session without a transcript, and returns what its client is told.
    pub fn cancel(&mut self, id: &str) -> (r: Result<StreamEvent, ApiError>)
        requires
            old(self)@.well_formed(),
        ensures
            final(self)@.well_formed(),
            !old(self)@.sessions.contains_key(id@) ==> final(self)@ == old(self)@ && (
            r matches Err(error) && error@ == unknown_session()),
            old(self)@.sessions.contains_key(id@) ==> {
                &&& final(self)@ == old(self)@.closed(id@, EngineUse::Idle)
                &&& r matches Ok(StreamEvent::Error { message })
                &&& message@ == "session cancelled"@
            },
    {
        match self.close(id, EngineUse::Idle) {
            Ok(()) => Ok(StreamEvent::Error { message: "session cancelled".to_owned() }),
            Err(error) => Err(error),
        }
    }

    /// Checks a session for traffic, and cancels it if it has been idle for too
    /// long.
    pub fn watchdog(&mut self, id: &str, now: u64) -> (r: Watchdog)
        requires
            old(self)@.well_formed(),
        ensures
            final(self)@.well_formed(),
            !old(self)@.sessions.contains_key(id@) ==> r is Finished && final(self)@ == old(self)@,
            old(self)@.sessions.contains_key(id@) ==> {
                &&& r is Waiting <==> now < old(self)@.sessions[id@].last_seen + 120_000
                &&& r is Expired <==> now >= old(self)@.sessions[id@].last_seen + 120_000
            },
            old(self)@.sessions.contains_key(id@) && old(self)@.idle_for(id@, now)
                < SESSION_IDLE_TIMEOUT_MS ==> r is Waiting && final(self)@ == old(self)@,
            old(self)@.sessions.contains_key(id@) && old(self)@.idle_for(id@, now)
                >= SESSION_IDLE_TIMEOUT_MS ==> {
                &&& final(self)@ == old(self)@.closed(id@, EngineUse::Idle)
                &&& r matches Watchdog::Expired(StreamEvent::Error { message })
                &&& message@ == "session timed out"@
            },
    {
        let session = match self.get(id) {
            Some(session) => session,
            None => {
                return Watchdog::Finished;
            },
        };
        let idle: u64 = now.saturating_sub(session.last_seen);
        if idle < SESSION_IDLE_TIMEOUT_MS {
            return Watchdog::Waiting;
        }
        match self.close(id, EngineUse::Idle) {
            Ok(()) => Watchdog::Expired(
                StreamEvent::Error { message: "session timed out".to_owned() },
            ),
            Err(_) => Watchdog::Finished,
        }
    }
}

/// What a client asks for when it opens a session.
#[derive(Debug)]
pub struct OpenSessionRequest {
    pub model: Option<String>,
    pub language: Option<String>,
}

impl Default for OpenSessionRequest {
    fn default() -> (r: OpenSessionRequest)
        ensures
            r.model is None,
            r.language is None,
    {
        OpenSessionRequest { model: None, language: None }
    }
}

/// What a request asks of the engine, over what is set on the serving machine.
#[derive(Debug)]
pub struct TranscribeOverrides {
    pub language: Option<String>,
    pub translate_to_english: Option<bool>,
    /// Whether the engine of this machine has to do the work even if the machine
    /// is itself a client of another one.
    pub force_local: bool,
}

/// A value, unless it is empty.
pub open spec fn unless_empty(value: Option<String>) -> Option<String> {
    match value {
        Some(text) if text@.len() > 0 => Some(text),
        _ => None,
    }
}

/// Passes a value on, unless it is empty.
pub fn non_empty(value: Option<String>) -> (r: Option<String>)
    ensures
        r == unless_empty(value),
{
    match value {
        Some(text) => {
            if text.as_str().is_empty() {
                None
            } else {
                Some(text)
            }
        },
        None => None,
    }
}

/// What a session asks of the engine: its language if it names one, no
/// translation, and that the work is done here.
pub fn session_overrides(language: Option<String>) -> (r: TranscribeOverrides)
    ensures
        r == (TranscribeOverrides {
            language: unless_empty(language),
            translate_to_english: None,
            force_local: true,
        }),
{
    TranscribeOverrides {
        language: non_empty(language),
        translate_to_english: None,
        force_local: true,
    }
}

/// How the wait for the engine came out.
#[derive(Clone, Copy, Debug, PartialEq, Eq, Structural)]
pub enum EngineWait {
    Granted,
    /// The server is shutting down.
    Closed,
    /// It took too long.
    TimedOut,
}

/// How long a request waits for the engine, in seconds.
pub const ENGINE_WAIT_SECS: u64 = 90;

/// What the wait for the engine is answered with.
pub open spec fn engine_refusal(wait: EngineWait) -> Option<Failure> {
    match wait {
        EngineWait::Granted => None,
        EngineWait::Closed => Some(Failure::unavailable("server is shutting down"@)),
        EngineWait::TimedOut => Some(
            Failure::unavailable("transcription engine busy; try again"@),
        ),
    }
}

/// Lets a request go on once it has the engine, or says why to try again later.
pub fn acquire_engine(wait: EngineWait) -> (r: Result<(), ApiError>)
    ensures
        match engine_refusal(wait) {
            None => r is Ok,
            Some(failure) => r matches Err(error) && error@ == failure,
        },
{
    match wait {
        EngineWait::Granted => Ok(()),
        EngineWait::Closed => Err(ApiError::unavailable("server is shutting down")),
        EngineWait::TimedOut => Err(ApiError::unavailable("transcription engine busy; try again")),
    }
}

/// How the finalization of a session came out.
pub enum FinalizeOutcome {
    /// It did not run to its end.
    TaskFailed { reason: String },
    /// The engine failed.
    Failed { reason: String },
    /// The engine has a transcript, or nothing.
    Finished { text: Option<String> },
}

/// The answer to a finalized session.
pub struct FinalizedStream {
    pub text: String,
    /// Whether the client should send the recording again, in one piece.
    pub fallback: bool,
}

/// What is done when a session has been finalized.
pub struct FinalizeReply {
    /// What the client is told on the event channel.
    pub event: Option<StreamEvent>,
    /// What the request is answered.
    pub reply: Result<FinalizedStream, ApiError>,
}

/// Whether a transcript says anything.
pub open spec fn says_something(text: Option<Seq<char>>) -> bool {
    text matches Some(text) && trimmed(text).len() > 0
}

/// The transcript that a client is told: nothing, if it says nothing.
pub open spec fn told_text(text: Option<Seq<char>>) -> Seq<char> {
    match text {
        Some(text) if trimmed(text).len() > 0 => text,
        _ => seq![],
    }
}

/// Answers a session that has been finalized: with the transcript, or, if there is
/// none, with the request to fall back to a batch transcription.
pub fn finalize_reply(outcome: FinalizeOutcome) -> (r: FinalizeReply)
    ensures
        match outcome {
            FinalizeOutcome::TaskFailed { reason } => {
                &&& r.event is None
                &&& r.reply matches Err(error)
                &&& error@ == Failure::internal("finalize task failed: "@ + reason@)
            },
            FinalizeOutcome::Failed { reason } => {
                &&& r.event matches Some(StreamEvent::Error { message })
                &&& message@ == "finalize failed: "@ + reason@
                &&& r.reply matches Err(error)
                &&& error@ == Failure::internal("finalize failed: "@ + reason@)
            },
            FinalizeOutcome::Finished { text } => {
                &&& r.event matches Some(StreamEvent::Final { text: told })
                &&& r.reply matches Ok(answer)
                &&& answer.fallback == !says_something(optional_text(text))
                &&& answer.text@ == told_text(optional_text(text))
                &&& told@ == answer.text@
            },
        },
{
    match outcome {
        FinalizeOutcome::TaskFailed { reason } => {
            let message = joined("finalize task failed: ", reason.as_str());
            FinalizeReply { event: None, reply: Err(ApiError::internal(message.as_str())) }
        },
        FinalizeOutcome::Failed { reason } => {
            let message = joined("finalize failed: ", reason.as_str());
            let error = ApiError::internal(message.as_str());
            FinalizeReply { event: Some(StreamEvent::Error { message }), reply: Err(error) }
        },
        FinalizeOutcome::Finished { text } => {
            if let Some(text) = text {
                if !trim(text.as_str()).is_empty() {
                    let told = text.clone();
                    return FinalizeReply {
                        event: Some(StreamEvent::Final { text: told }),
                        reply: Ok(FinalizedStream { text, fallback: false }),
                    };
                }
            }
            FinalizeReply {
                event: Some(StreamEvent::Final { text: String::new() }),
                reply: Ok(FinalizedStream { text: String::new(), fallback: true }),
            }
        },
    }
}

/// There is never more than one session.
pub proof fn law_one_session_at_a_time(registry: Registry, a: Seq<char>, b: Seq<char>)
    requires
        registry.well_formed(),
        registry.sessions.contains_key(a),
        registry.sessions.contains_key(b),
    ensures
        a == b,
{
    let only = choose|only: Seq<char>| registry.sessions.dom() =~= #[trigger] set![only];
    assert(registry.sessions.dom().contains(a));
    assert(registry.sessions.dom().contains(b));
}

/// While a session is under way, nobody else gets the engine: no batch request,
/// and no other session.
pub proof fn law_session_excludes_other_requests(registry: Registry, id: Seq<char>)
    requires
        registry.well_formed(),
        registry.sessions.contains_key(id),
    ensures
        registry.engine == EngineUse::Session,
        registry.acquired() == registry,
        registry.released() == registry,
{
    assert(registry.sessions.dom().contains(id));
}

/// While a request has the engine, no session is under way.
pub proof fn law_request_excludes_sessions(registry: Registry, id: Seq<char>)
    requires
        registry.well_formed(),
        registry.engine != EngineUse::Session,
    ensures
        !registry.sessions.contains_key(id),
{
    assert(!registry.sessions.dom().contains(id));
}

/// Once a session is over, it is unknown, and the engine can be had again: at once
/// if it was cancelled, after the answer if it was finalized.
pub proof fn law_finished_session_frees_the_engine(registry: Registry, id: Seq<char>)
    requires
        registry.well_formed(),
        registry.sessions.contains_key(id),
    ensures
        !registry.closed(id, EngineUse::Idle).sessions.contains_key(id),
        registry.closed(id, EngineUse::Idle).engine == EngineUse::Idle,
        !registry.closed(id, EngineUse::Request).sessions.contains_key(id),
        registry.closed(id, EngineUse::Request).released() == registry.closed(id, EngineUse::Idle),
        registry.closed(id, EngineUse::Idle) == (Registry {
            engine: EngineUse::Idle,
            sessions: Map::empty(),
        }),
{
    let only = choose|only: Seq<char>| registry.sessions.dom() =~= #[trigger] set![only];
    assert(registry.sessions.dom().contains(id));
    assert(registry.closed(id, EngineUse::Idle).sessions.dom() =~= Set::empty());
    assert(registry.closed(id, EngineUse::Idle).sessions =~= Map::empty());
}

/// The events of a session are given out once: whoever asks again is refused,
/// however the session has gone on since. Once they are taken, no request for this or
/// any other session makes them available again.
pub proof fn law_events_are_given_out_once(
    registry: Registry,
    id: Seq<char>,
    other: Seq<char>,
    now: u64,
)
    ensures
        registry.listened(id, now).sessions[id].events_taken,
        registry.sessions[id].events_taken ==> {
            &&& registry.touched(other, now).sessions[id].events_taken
            &&& registry.listened(other, now).sessions[id].events_taken
        },
{
}

/// A session that is abandoned is reclaimed, whatever the last request for it was:
/// from the timeout on, it counts as idle for too long.
pub proof fn law_abandoned_session_is_reclaimed(
    registry: Registry,
    id: Seq<char>,
    seen: u64,
    now: u64,
)
    requires
        now >= seen + SESSION_IDLE_TIMEOUT_MS,
    ensures
        registry.opened(id, seen).idle_for(id, now) >= SESSION_IDLE_TIMEOUT_MS,
        registry.touched(id, seen).idle_for(id, now) >= SESSION_IDLE_TIMEOUT_MS,
        registry.listened(id, seen).idle_for(id, now) >= SESSION_IDLE_TIMEOUT_MS,
        registry.sessions[id].last_seen == seen ==> registry.idle_for(id, now)
            >= SESSION_IDLE_TIMEOUT_MS,
{
}

/// A session with traffic is not reclaimed before the timeout has passed once
/// more.
pub proof fn law_traffic_keeps_a_session_alive(
    registry: Registry,
    id: Seq<char>,
    seen: u64,
    now: u64,
)
    requires
        registry.sessions.contains_key(id),
        now < seen + SESSION_IDLE_TIMEOUT_MS,
    ensures
        registry.touched(id, seen).idle_for(id, now) < SESSION_IDLE_TIMEOUT_MS,
        registry.listened(id, seen).idle_for(id, now) < SESSION_IDLE_TIMEOUT_MS,
{
}

/// A dead session does not linger for more than one tick of the watchdog beyond
/// the timeout.
pub proof fn law_watchdog_is_prompt(registry: Registry, id: Seq<char>, previous: u64, next: u64)
    requires
        registry.idle_for(id, previous) < SESSION_IDLE_TIMEOUT_MS,
        previous <= next <= previous + WATCHDOG_TICK_MS,
        registry.sessions[id].last_seen <= previous,
    ensures
        registry.idle_for(id, next) < SESSION_IDLE_TIMEOUT_MS + WATCHDOG_TICK_MS,
{
}

/// A transcript or an error is the last event; texts and phases are not.
pub proof fn law_transcript_and_error_come_last(event: StreamEvent)
    ensures
        event is Final ==> event.terminal(),
        event is Error ==> event.terminal(),
        event is Text ==> !event.terminal(),
        event is Phase ==> !event.terminal(),
{
}

/// A request gets the engine exactly if nobody has it, and gives back what it has
/// taken. The sessions are not touched by either.
pub proof fn law_requests_take_turns(registry: Registry)
    ensures
        registry.engine == EngineUse::Idle ==> registry.acquired().engine == EngineUse::Request,
        registry.engine == EngineUse::Idle ==> registry.acquired().released() == registry,
        registry.engine != EngineUse::Idle ==> registry.acquired() == registry,
        registry.engine == EngineUse::Request ==> registry.released().engine == EngineUse::Idle,
        registry.engine != EngineUse::Request ==> registry.released() == registry,
        registry.acquired().sessions == registry.sessions,
        registry.released().sessions == registry.sessions,
{
}

/// A new session has the engine, has been seen just now, and has its events to give.
pub proof fn law_a_new_session_has_the_engine(
    registry: Registry,
    id: Seq<char>,
    other: Seq<char>,
    now: u64,
)
    ensures
        ({
            let opened = registry.opened(id, now);
            &&& opened.engine == EngineUse::Session
            &&& opened.sessions.contains_key(id)
            &&& opened.sessions[id].last_seen == now
            &&& !opened.sessions[id].events_taken
            &&& other != id ==> {
                &&& opened.sessions.contains_key(other) <==> registry.sessions.contains_key(other)
                &&& opened.sessions[other] == registry.sessions[other]
            }
        }),
{
}

/// A request for a session is noted in that session, and changes nothing else: neither
/// who has the engine, nor another session, nor, unless it asks for them, whether the
/// events are still to be had.
pub proof fn law_requests_are_noted_in_their_session(
    registry: Registry,
    id: Seq<char>,
    other: Seq<char>,
    now: u64,
)
    requires
        registry.sessions.contains_key(id),
    ensures
        ({
            let touched = registry.touched(id, now);
            &&& touched.engine == registry.engine
            &&& touched.sessions.dom() == registry.sessions.dom()
            &&& touched.sessions[id].last_seen == now
            &&& touched.sessions[id].events_taken == registry.sessions[id].events_taken
            &&& other != id ==> touched.sessions[other] == registry.sessions[other]
        }),
        ({
            let listened = registry.listened(id, now);
            &&& listened.engine == registry.engine
            &&& listened.sessions.dom() == registry.sessions.dom()
            &&& listened.sessions[id].last_seen == now
            &&& listened.sessions[id].events_taken
            &&& other != id ==> listened.sessions[other] == registry.sessions[other]
        }),
{
    assert(registry.touched(id, now).sessions.dom() =~= registry.sessions.dom());
    assert(registry.listened(id, now).sessions.dom() =~= registry.sessions.dom());
}

/// The end of a session takes out that session and no other, and passes the engine on.
pub proof fn law_the_end_concerns_one_session(
    registry: Registry,
    id: Seq<char>,
    other: Seq<char>,
    engine: EngineUse,
)
    ensures
        registry.closed(id, engine).engine == engine,
        !registry.closed(id, engine).sessions.contains_key(id),
        other != id ==> {
            &&& registry.closed(id, engine).sessions.contains_key(other)
                <==> registry.sessions.contains_key(other)
            &&& registry.closed(id, engine).sessions[other] == registry.sessions[other]
        },
{
}

/// A session is idle from the last request for it, of whatever kind, and too long so
/// from two minutes on. It is looked at every fifteen seconds.
pub proof fn law_idle_since_the_last_request(registry: Registry, id: Seq<char>, now: u64)
    ensures
        now >= registry.sessions[id].last_seen ==> registry.idle_for(id, now)
            == now - registry.sessions[id].last_seen,
        now < registry.sessions[id].last_seen ==> registry.idle_for(id, now) == 0,
        registry.idle_for(id, now) >= SESSION_IDLE_TIMEOUT_MS <==> now
            >= registry.sessions[id].last_seen + 120_000,
        WATCHDOG_TICK_MS == 15_000,
{
}

/// Whoever asks for a session that does not exist is told that it does not, and
/// whoever cannot have the engine within a minute and a half is told to try again.
pub proof fn law_refusals_of_the_registry(wait: EngineWait)
    ensures
        ENGINE_WAIT_SECS == 90,
        unknown_session().status == 404,
        unknown_session().kind == "not_found_error"@,
        unknown_session().message == "unknown or expired session"@,
        wait == EngineWait::Granted <==> engine_refusal(wait) is None,
        engine_refusal(wait) matches Some(failure) ==> failure.status == 503 && failure.kind
            == "server_error"@,
        wait == EngineWait::Closed ==> (engine_refusal(wait) matches Some(failure)
            && failure.message == "server is shutting down"@),
        wait == EngineWait::TimedOut ==> (engine_refusal(wait) matches Some(failure)
            && failure.message == "transcription engine busy; try again"@),
{
}

/// A language is passed on as it is, but for an empty one, which is none.
pub proof fn law_an_empty_language_is_none(value: Option<String>)
    ensures
        value is None ==> unless_empty(value) is None,
        value matches Some(text) && text@.len() == 0 ==> unless_empty(value) is None,
        value matches Some(text) && text@.len() > 0 ==> unless_empty(value) == value,
{
}

/// A transcript says something exactly if it has a character that is not white space.
/// Then it is told as it is; otherwise the client is told nothing, and asked for the
/// recording.
pub proof fn law_what_says_something_is_told(text: Seq<char>)
    ensures
        says_something(Some(text)) <==> exists|i: int|
            0 <= i < text.len() && !white_space(#[trigger] text[i]),
        says_something(Some(text)) ==> told_text(Some(text)) == text,
        !says_something(Some(text)) ==> told_text(Some(text)).len() == 0,
        !says_something(None),
        told_text(None).len() == 0,
{
    law_blank_text_is_white_space(text);
}

/// An open feed sends every event on, unchanged, and is closed by the first that ends the
/// session. What was dropped is skipped, and from a closed feed nothing is sent.
pub proof fn law_events_are_sent_up_to_the_last(
    feed: &mut EventFeed,
    received: Received,
    step: FeedStep,
)
    requires
        call_ensures(EventFeed::advance, (feed, received), step),
    ensures
        step is Send <==> old(feed).is_open() && received is Event,
        step is Skip <==> old(feed).is_open() && received is Lagged,
        step matches FeedStep::Send { event, last } ==> {
            &&& received == Received::Event(event)
            &&& last <==> event is Final || event is Error
            &&& final(feed).is_open() <==> !last
        },
        step is Skip ==> final(feed).is_open(),
        step is End ==> !final(feed).is_open(),
{
}

/// The engine is given to a request exactly if nobody has it, and no session is touched.
pub proof fn law_the_engine_is_given_to_one(registry: &mut StreamRegistry, granted: bool)
    requires
        old(registry)@.well_formed(),
        call_ensures(StreamRegistry::acquire, (registry,), granted),
    ensures
        granted <==> old(registry)@.engine == EngineUse::Idle,
        granted ==> final(registry)@.engine == EngineUse::Request,
        !granted ==> final(registry)@.engine == old(registry)@.engine,
        final(registry)@.sessions == old(registry)@.sessions,
{
}

/// What a request has, it gives back; what a session has, it does not.
pub proof fn law_requests_give_back_what_is_theirs(registry: &mut StreamRegistry)
    requires
        old(registry)@.well_formed(),
        call_ensures(StreamRegistry::release, (registry,), ()),
    ensures
        final(registry)@.sessions == old(registry)@.sessions,
        old(registry)@.engine == EngineUse::Request ==> final(registry)@.engine == EngineUse::Idle,
        old(registry)@.engine != EngineUse::Request ==> final(registry)@.engine == old(
            registry,
        )@.engine,
{
}

/// A session that is opened has a name of 32 digits, the engine, and its events to give.
pub proof fn law_opened_sessions_are_there(registry: &mut StreamRegistry, now: u64, id: String)
    requires
        old(registry)@.well_formed(),
        old(registry)@.engine == EngineUse::Request,
        call_ensures(StreamRegistry::open_session, (registry, now), id),
    ensures
        id@.len() == 32,
        final(registry)@.engine == EngineUse::Session,
        final(registry)@.sessions.contains_key(id@),
        final(registry)@.sessions[id@].last_seen == now,
        !final(registry)@.sessions[id@].events_taken,
{
}

/// Audio for a session that exists is taken, all of it, if it is made of whole samples;
/// the request keeps the session alive in any case. Audio for any other is refused.
pub proof fn law_audio_goes_to_its_session(
    registry: &mut StreamRegistry,
    id: &str,
    body: &[u8],
    now: u64,
    r: Result<Vec<i16>, ApiError>,
)
    requires
        old(registry)@.well_formed(),
        call_ensures(StreamRegistry::push_audio, (registry, id, body, now), r),
    ensures
        ({
            let known = old(registry)@.sessions.contains_key(id@);
            &&& r is Ok <==> known && body@.len() % 2 == 0
            &&& r matches Ok(samples) ==> samples@ == samples_of(body@) && samples@.len()
                == body@.len() / 2
            &&& known ==> final(registry)@.sessions[id@].last_seen == now
            &&& known ==> final(registry)@.sessions[id@].events_taken == old(
                registry,
            )@.sessions[id@].events_taken
            &&& known && r is Err ==> r->Err_0.status == 400 && r->Err_0.error.message@
                == "PCM chunk length must be a multiple of 2 (16-bit samples)"@
            &&& !known ==> final(registry)@ == old(registry)@ && r->Err_0.status == 404
            &&& final(registry)@.engine == old(registry)@.engine
            &&& final(registry)@.sessions.dom() == old(registry)@.sessions.dom()
        }),
{
    assert(final(registry)@.sessions.dom() =~= old(registry)@.sessions.dom());
}

/// The events of a session are given to the first who asks, and to nobody else.
pub proof fn law_the_first_listener_gets_the_events(
    registry: &mut StreamRegistry,
    id: &str,
    now: u64,
    r: Result<EventFeed, ApiError>,
)
    requires
        old(registry)@.well_formed(),
        call_ensures(StreamRegistry::events, (registry, id, now), r),
    ensures
        ({
            let known = old(registry)@.sessions.contains_key(id@);
            &&& r is Ok <==> known && !old(registry)@.sessions[id@].events_taken
            &&& r matches Ok(feed) ==> feed.is_open()
            &&& known ==> final(registry)@.sessions[id@].events_taken
            &&& known ==> final(registry)@.sessions[id@].last_seen == now
            &&& known && r is Err ==> r->Err_0.status == 400 && r->Err_0.error.message@
                == "event stream already consumed for this session"@
            &&& !known ==> final(registry)@ == old(registry)@ && r->Err_0.status == 404
            &&& final(registry)@.engine == old(registry)@.engine
        }),
{
}

/// A session that is finalized is gone, and its engine stays with the request.
pub proof fn law_finalized_sessions_are_gone(
    registry: &mut StreamRegistry,
    id: &str,
    r: Result<(), ApiError>,
)
    requires
        old(registry)@.well_formed(),
        call_ensures(StreamRegistry::finalize, (registry, id), r),
    ensures
        r is Ok <==> old(registry)@.sessions.contains_key(id@),
        !final(registry)@.sessions.contains_key(id@),
        r is Ok ==> final(registry)@.engine == EngineUse::Request,
        r matches Err(error) ==> final(registry)@ == old(registry)@ && error.status == 404
            && error.error.message@ == "unknown or expired session"@,
{
}

/// A session that is cancelled is gone, its engine is free, and its client is told.
pub proof fn law_cancelled_sessions_are_gone(
    registry: &mut StreamRegistry,
    id: &str,
    r: Result<StreamEvent, ApiError>,
)
    requires
        old(registry)@.well_formed(),
        call_ensures(StreamRegistry::cancel, (registry, id), r),
    ensures
        r is Ok <==> old(registry)@.sessions.contains_key(id@),
        !final(registry)@.sessions.contains_key(id@),
        r is Ok ==> final(registry)@.engine == EngineUse::Idle,
        r matches Ok(event) ==> (event matches StreamEvent::Error { message } && message@
            == "session cancelled"@),
        r matches Err(error) ==> final(registry)@ == old(registry)@ && error.status == 404
            && error.error.message@ == "unknown or expired session"@,
{
}

/// The watchdog ends a session from two minutes after the last request for it on, and
/// not before; then the engine is free, and the client is told.
pub proof fn law_the_watchdog_waits_two_minutes(
    registry: &mut StreamRegistry,
    id: &str,
    now: u64,
    r: Watchdog,
)
    requires
        old(registry)@.well_formed(),
        call_ensures(StreamRegistry::watchdog, (registry, id, now), r),
    ensures
        ({
            let known = old(registry)@.sessions.contains_key(id@);
            let seen = old(registry)@.sessions[id@].last_seen;
            &&& r is Finished <==> !known
            &&& r is Waiting <==> known && now < seen + 120_000
            &&& r is Expired <==> known && now >= seen + 120_000
            &&& !(r is Expired) ==> final(registry)@ == old(registry)@
            &&& r is Expired ==> final(registry)@.engine == EngineUse::Idle
            &&& r is Expired ==> !final(registry)@.sessions.contains_key(id@)
            &&& r matches Watchdog::Expired(event) ==> (event matches StreamEvent::Error { message }
                && message@ == "session timed out"@)
        }),
{
}

/// A session asks for its language, if it names one, for no translation, and for this
/// machine's own engine.
pub proof fn law_sessions_are_served_here(language: Option<String>, r: TranscribeOverrides)
    requires
        call_ensures(session_overrides, (language,), r),
    ensures
        r.force_local,
        r.translate_to_english is None,
        r.language is Some <==> (language matches Some(text) && text@.len() > 0),
        r.language is Some ==> r.language == language,
{
}

/// A request goes on exactly if it has the engine.
pub proof fn law_without_the_engine_nothing_goes_on(wait: EngineWait, r: Result<(), ApiError>)
    requires
        call_ensures(acquire_engine, (wait,), r),
    ensures
        r is Ok <==> wait == EngineWait::Granted,
        r matches Err(error) ==> error.status == 503,
        wait == EngineWait::Closed ==> r->Err_0.error.message@ == "server is shutting down"@,
        wait == EngineWait::TimedOut ==> r->Err_0.error.message@
            == "transcription engine busy; try again"@,
{
}

/// Whoever finalizes a session and whoever listens to it are told the same: the
/// transcript as it is, if it is more than white space, and nothing otherwise. Only then
/// is the recording asked for again.
pub proof fn law_both_channels_tell_the_same(outcome: FinalizeOutcome, r: FinalizeReply)
    requires
        call_ensures(finalize_reply, (outcome,), r),
    ensures
        r.reply is Ok <==> outcome is Finished,
        outcome matches FinalizeOutcome::Finished { text } ==> {
            let blank = match text {
                Some(text) => forall|i: int| 0 <= i < text@.len() ==> white_space(#[trigger] text@[i]),
                None => true,
            };
            &&& r.reply->Ok_0.fallback <==> blank
            &&& blank ==> r.reply->Ok_0.text@.len() == 0
            &&& !blank ==> r.reply->Ok_0.text@ == text->Some_0@
            &&& r.event matches Some(StreamEvent::Final { text: told })
            &&& told@ == r.reply->Ok_0.text@
        },
        outcome matches FinalizeOutcome::Failed { reason } ==> {
            &&& r.event matches Some(StreamEvent::Error { message })
            &&& message@ == "finalize failed: "@ + reason@
            &&& r.reply->Err_0.error.message@ == message@
            &&& r.reply->Err_0.status == 500
        },
        outcome matches FinalizeOutcome::TaskFailed { reason } ==> {
            &&& r.event is None
            &&& r.reply->Err_0.error.message@ == "finalize task failed: "@ + reason@
            &&& r.reply->Err_0.status == 500
        },
{
    if let FinalizeOutcome::Finished { text: Some(text) } = outcome {
        law_blank_text_is_white_space(text@);
    }
}

/// At first there is no session, and the engine is free. A session is found by its name.
pub proof fn law_sessions_are_found_by_name(
    empty: StreamRegistry,
    registry: StreamRegistry,
    id: &str,
    r: Option<Session>,
)
    requires
        call_ensures(StreamRegistry::new, (), empty),
        call_ensures(StreamRegistry::get, (&registry, id), r),
    ensures
        empty@.engine == EngineUse::Idle,
        !empty@.sessions.contains_key(id@),
        r is Some <==> registry@.sessions.contains_key(id@),
        r matches Some(session) ==> session == registry@.sessions[id@],
{
}

} // verus!
