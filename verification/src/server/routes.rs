//! The routes of the server: OpenAI's audio API, and Handy's own endpoints for
//! what that API has no room for.

use vstd::prelude::*;

use crate::server::auth::{authorized, header_value, require_token, ApiError, Failure};
use crate::server::openai::MAX_UPLOAD_BYTES;
use crate::text::{first_at, occurs_at};

verus! {

/// What a request is sent with.
#[derive(Clone, Copy, Debug, PartialEq, Eq, Structural)]
pub enum Method {
    Get,
    Post,
}

/// A pattern with `id` in the place of its first `{id}`, if it has one.
pub open spec fn with_id(pattern: Seq<char>, id: Seq<char>) -> Seq<char> {
    if exists|at: int| first_at(pattern, "{id}"@, at) {
        let at = choose|at: int| first_at(pattern, "{id}"@, at);
        pattern.take(at) + id + pattern.skip(at + "{id}"@.len())
    } else {
        pattern
    }
}

/// What `id` gives in a pattern whose only brace opens its `{id}`.
pub proof fn lemma_with_id(start: Seq<char>, end: Seq<char>, id: Seq<char>)
    requires
        forall|i: int| 0 <= i < start.len() ==> start[i] != '{',
    ensures
        with_id(start + "{id}"@ + end, id) == start + id + end,
{
    reveal_strlit("{id}");
    let mark = "{id}"@;
    let pattern = start + mark + end;
    let at = start.len() as int;
    assert(pattern.subrange(at, at + mark.len()) =~= mark);
    assert(occurs_at(pattern, mark, at));
    assert forall|other: int| other < at implies !#[trigger] occurs_at(pattern, mark, other) by {
        if occurs_at(pattern, mark, other) {
            assert(pattern.subrange(other, other + mark.len())[0] == pattern[other]);
            assert(pattern[other] == start[other]);
        }
    }
    assert(first_at(pattern, mark, at));
    let found = choose|found: int| first_at(pattern, mark, found);
    assert(first_at(pattern, mark, found));
    assert(occurs_at(pattern, mark, found));
    assert(found == at);
    assert(pattern.take(at) =~= start);
    assert(pattern.skip(at + mark.len()) =~= end);
}

/// What can be asked of the server.
#[derive(Clone, Copy, Debug, PartialEq, Eq, Structural)]
pub enum Route {
    Transcriptions,
    Translations,
    Models,
    Info,
    OpenStream,
    StreamAudio,
    StreamEvents,
    FinalizeStream,
    CancelStream,
    Health,
}

impl Route {
    /// The path, with `{id}` for the name of a session.
    pub open spec fn pattern(self) -> Seq<char> {
        match self {
            Route::Transcriptions => "/v1/audio/transcriptions"@,
            Route::Translations => "/v1/audio/translations"@,
            Route::Models => "/v1/models"@,
            Route::Info => "/handy/v1/info"@,
            Route::OpenStream => "/handy/v1/stream"@,
            Route::StreamAudio => "/handy/v1/stream/{id}/audio"@,
            Route::StreamEvents => "/handy/v1/stream/{id}/events"@,
            Route::FinalizeStream => "/handy/v1/stream/{id}/finalize"@,
            Route::CancelStream => "/handy/v1/stream/{id}/cancel"@,
            Route::Health => "/health"@,
        }
    }

    /// The path for the session with the given name.
    pub open spec fn path_for(self, id: Seq<char>) -> Seq<char> {
        with_id(self.pattern(), id)
    }

    /// The path, with `{id}` for the name of a session.
    pub fn path(self) -> (r: &'static str)
        ensures
            r@ == self.pattern(),
    {
        match self {
            Route::Transcriptions => "/v1/audio/transcriptions",
            Route::Translations => "/v1/audio/translations",
            Route::Models => "/v1/models",
            Route::Info => "/handy/v1/info",
            Route::OpenStream => "/handy/v1/stream",
            Route::StreamAudio => "/handy/v1/stream/{id}/audio",
            Route::StreamEvents => "/handy/v1/stream/{id}/events",
            Route::FinalizeStream => "/handy/v1/stream/{id}/finalize",
            Route::CancelStream => "/handy/v1/stream/{id}/cancel",
            Route::Health => "/health",
        }
    }

    /// What is only looked at is asked for with `GET`, the rest with `POST`.
    pub fn method(self) -> (r: Method)
        ensures
            r == match self {
                Route::Models | Route::Info | Route::StreamEvents | Route::Health => Method::Get,
                _ => Method::Post,
            },
    {
        match self {
            Route::Models | Route::Info | Route::StreamEvents | Route::Health => Method::Get,
            _ => Method::Post,
        }
    }

    /// Whether a request has to carry the token. Only the liveness probe does not,
    /// so that a client can tell a wrong token from a server that is not there.
    pub fn needs_token(self) -> (r: bool)
        ensures
            r == (self != Route::Health),
    {
        match self {
            Route::Health => false,
            _ => true,
        }
    }

    /// How large an upload may be, where this differs from what is usual.
    pub fn body_limit(self) -> (r: Option<usize>)
        ensures
            r == match self {
                Route::Transcriptions | Route::Translations => Some(MAX_UPLOAD_BYTES),
                _ => None,
            },
            r matches Some(limit) ==> limit == 1_073_741_824,
    {
        match self {
            Route::Transcriptions | Route::Translations => Some(MAX_UPLOAD_BYTES),
            _ => None,
        }
    }
}

/// What a request is refused with, given its route, if it has one, and its
/// `Authorization` header. Also what does not exist is told only to those who have
/// the token.
pub open spec fn refused_entry(
    route: Option<Route>,
    header: Option<Seq<char>>,
    token: Seq<char>,
) -> Option<Failure> {
    if route == Some(Route::Health) || authorized(header, token) {
        None
    } else {
        Some(Failure::unauthorized("Missing or invalid bearer token"@))
    }
}

/// Lets a request in, or refuses it.
pub fn let_in(route: Option<Route>, header: Option<&str>, token: &str) -> (r: Result<(), ApiError>)
    ensures
        match refused_entry(route, header_value(header), token@) {
            None => r is Ok,
            Some(failure) => r matches Err(error) && error@ == failure,
        },
{
    let open = match route {
        Some(route) => !route.needs_token(),
        None => false,
    };
    if open {
        return Ok(());
    }
    require_token(header, token)
}

/// Without the token nothing can be had but the liveness probe: every other request
/// is refused as unauthorized.
pub proof fn law_only_the_probe_is_open(
    route: Option<Route>,
    header: Option<Seq<char>>,
    token: Seq<char>,
)
    requires
        !authorized(header, token),
    ensures
        route == Some(Route::Health) <==> refused_entry(route, header, token) is None,
        refused_entry(route, header, token) matches Some(failure) ==> failure.status == 401,
{
}

/// Whoever has the token can have everything, and a refusal is always the same.
pub proof fn law_the_token_opens_everything(
    route: Option<Route>,
    header: Option<Seq<char>>,
    token: Seq<char>,
)
    ensures
        authorized(header, token) ==> refused_entry(route, header, token) is None,
        refused_entry(route, header, token) matches Some(failure) ==> failure.kind
            == "authentication_error"@ && failure.message == "Missing or invalid bearer token"@,
{
}

/// Where each request goes, whatever the session is called: the name stands where the
/// path has room for it, and nowhere else.
pub proof fn law_paths_name_the_session(id: Seq<char>)
    ensures
        Route::StreamAudio.path_for(id) == "/handy/v1/stream/"@ + id + "/audio"@,
        Route::StreamEvents.path_for(id) == "/handy/v1/stream/"@ + id + "/events"@,
        Route::FinalizeStream.path_for(id) == "/handy/v1/stream/"@ + id + "/finalize"@,
        Route::CancelStream.path_for(id) == "/handy/v1/stream/"@ + id + "/cancel"@,
        Route::OpenStream.path_for(id) == "/handy/v1/stream"@,
        Route::Transcriptions.path_for(id) == "/v1/audio/transcriptions"@,
        Route::Translations.path_for(id) == "/v1/audio/translations"@,
        Route::Models.path_for(id) == "/v1/models"@,
        Route::Info.path_for(id) == "/handy/v1/info"@,
        Route::Health.path_for(id) == "/health"@,
{
    reveal_strlit("{id}");
    reveal_strlit("/handy/v1/stream/");
    reveal_strlit("/audio");
    reveal_strlit("/events");
    reveal_strlit("/finalize");
    reveal_strlit("/cancel");
    reveal_strlit("/handy/v1/stream/{id}/audio");
    reveal_strlit("/handy/v1/stream/{id}/events");
    reveal_strlit("/handy/v1/stream/{id}/finalize");
    reveal_strlit("/handy/v1/stream/{id}/cancel");
    let start = "/handy/v1/stream/"@;
    assert("/handy/v1/stream/{id}/audio"@ =~= start + "{id}"@ + "/audio"@);
    assert("/handy/v1/stream/{id}/events"@ =~= start + "{id}"@ + "/events"@);
    assert("/handy/v1/stream/{id}/finalize"@ =~= start + "{id}"@ + "/finalize"@);
    assert("/handy/v1/stream/{id}/cancel"@ =~= start + "{id}"@ + "/cancel"@);
    lemma_with_id(start, "/audio"@, id);
    lemma_with_id(start, "/events"@, id);
    lemma_with_id(start, "/finalize"@, id);
    lemma_with_id(start, "/cancel"@, id);
    reveal_strlit("/handy/v1/stream");
    reveal_strlit("/v1/audio/transcriptions");
    reveal_strlit("/v1/audio/translations");
    reveal_strlit("/v1/models");
    reveal_strlit("/handy/v1/info");
    reveal_strlit("/health");
    lemma_without_id("/handy/v1/stream"@, id);
    lemma_without_id("/v1/audio/transcriptions"@, id);
    lemma_without_id("/v1/audio/translations"@, id);
    lemma_without_id("/v1/models"@, id);
    lemma_without_id("/handy/v1/info"@, id);
    lemma_without_id("/health"@, id);
}

proof fn lemma_without_id(pattern: Seq<char>, id: Seq<char>)
    requires
        forall|i: int| 0 <= i < pattern.len() ==> pattern[i] != '{',
    ensures
        with_id(pattern, id) == pattern,
{
    reveal_strlit("{id}");
    let mark = "{id}"@;
    assert forall|at: int| !#[trigger] first_at(pattern, mark, at) by {
        if first_at(pattern, mark, at) {
            assert(occurs_at(pattern, mark, at));
            assert(pattern.subrange(at, at + mark.len())[0] == pattern[at]);
        }
    }
}

/// What is only looked at is asked for with `GET`, and everything but the probe needs
/// the token. Only what uploads a recording may be large.
pub proof fn law_routes_are_as_open_as_they_need_to_be(
    route: Route,
    method: Method,
    needs_token: bool,
    limit: Option<usize>,
    path: &str,
)
    requires
        call_ensures(Route::method, (route,), method),
        call_ensures(Route::needs_token, (route,), needs_token),
        call_ensures(Route::body_limit, (route,), limit),
        call_ensures(Route::path, (route,), path),
    ensures
        method == Method::Get <==> route == Route::Models || route == Route::Info || route
            == Route::StreamEvents || route == Route::Health,
        !needs_token <==> route == Route::Health,
        limit is Some <==> route == Route::Transcriptions || route == Route::Translations,
        limit matches Some(bytes) ==> bytes == 1_073_741_824,
        path@ == route.pattern(),
{
}

/// A request is let in exactly if it is for the probe or presents the token.
pub proof fn law_requests_are_let_in_with_the_token(
    route: Option<Route>,
    header: Option<&str>,
    token: &str,
    r: Result<(), ApiError>,
)
    requires
        call_ensures(let_in, (route, header, token), r),
    ensures
        r is Ok <==> route == Some(Route::Health) || authorized(header_value(header), token@),
        r matches Err(error) ==> error.status == 401 && error.error.message@
            == "Missing or invalid bearer token"@,
{
}

} // verus!
