//! Bearer-token authentication, and the errors that requests are answered with.

use vstd::prelude::*;

use crate::numerals::{hex_text, law_hex_digits_only};
use crate::random::is_random_name;
use crate::text::{
    after_prefix, begins_with, lemma_bytes_tell_texts_apart, trim, trimmed, white_space,
};

verus! {

/// What an error says, in the envelope that OpenAI's clients look for it in.
#[derive(Debug)]
pub struct ApiErrorBody {
    pub message: String,
    pub kind: &'static str,
}

/// An error that a request is answered with.
#[derive(Debug)]
pub struct ApiError {
    /// The HTTP status code.
    pub status: u16,
    pub error: ApiErrorBody,
}

/// What there is to know of an [`ApiError`].
pub struct Failure {
    pub status: u16,
    pub kind: Seq<char>,
    pub message: Seq<char>,
}

impl View for ApiError {
    type V = Failure;

    open spec fn view(&self) -> Failure {
        Failure { status: self.status, kind: self.error.kind@, message: self.error.message@ }
    }
}

impl Failure {
    /// The request is at fault.
    pub open spec fn bad_request(message: Seq<char>) -> Failure {
        Failure { status: 400, kind: "invalid_request_error"@, message }
    }

    /// The request does not carry the token.
    pub open spec fn unauthorized(message: Seq<char>) -> Failure {
        Failure { status: 401, kind: "authentication_error"@, message }
    }

    /// What the request speaks of does not exist.
    pub open spec fn not_found(message: Seq<char>) -> Failure {
        Failure { status: 404, kind: "not_found_error"@, message }
    }

    /// The upload is of a kind that cannot be decoded.
    pub open spec fn unsupported_media(message: Seq<char>) -> Failure {
        Failure { status: 415, kind: "invalid_request_error"@, message }
    }

    /// The server cannot take the request now.
    pub open spec fn unavailable(message: Seq<char>) -> Failure {
        Failure { status: 503, kind: "server_error"@, message }
    }

    /// The server failed.
    pub open spec fn internal(message: Seq<char>) -> Failure {
        Failure { status: 500, kind: "server_error"@, message }
    }
}

impl ApiError {
    fn new(status: u16, kind: &'static str, message: &str) -> (r: ApiError)
        ensures
            r@ == (Failure { status, kind: kind@, message: message@ }),
    {
        ApiError { status, error: ApiErrorBody { message: message.to_owned(), kind } }
    }

    /// The request is at fault.
    pub fn bad_request(message: &str) -> (r: ApiError)
        ensures
            r@ == Failure::bad_request(message@),
    {
        Self::new(400, "invalid_request_error", message)
    }

    /// The request does not carry the token.
    pub fn unauthorized(message: &str) -> (r: ApiError)
        ensures
            r@ == Failure::unauthorized(message@),
    {
        Self::new(401, "authentication_error", message)
    }

    /// What the request speaks of does not exist.
    pub fn not_found(message: &str) -> (r: ApiError)
        ensures
            r@ == Failure::not_found(message@),
    {
        Self::new(404, "not_found_error", message)
    }

    /// The upload is of a kind that cannot be decoded.
    pub fn unsupported_media(message: &str) -> (r: ApiError)
        ensures
            r@ == Failure::unsupported_media(message@),
    {
        Self::new(415, "invalid_request_error", message)
    }

    /// The server cannot take the request now.
    pub fn unavailable(message: &str) -> (r: ApiError)
        ensures
            r@ == Failure::unavailable(message@),
    {
        Self::new(503, "server_error", message)
    }

    /// The server failed.
    pub fn internal(message: &str) -> (r: ApiError)
        ensures
            r@ == Failure::internal(message@),
    {
        Self::new(500, "server_error", message)
    }
}

/// Compares two byte strings without stopping at the first difference, and walks
/// the longer one to its end, so that the time taken tells neither where they
/// differ nor how long the secret one is.
pub fn constant_time_eq(a: &[u8], b: &[u8]) -> (same: bool)
    ensures
        same == (a@ == b@),
{
    let mut diff: usize = a.len() ^ b.len();
    let ghost lengths = diff;
    let ghost a_len: usize = a@.len() as usize;
    let ghost b_len: usize = b@.len() as usize;
    let length: usize = if a.len() > b.len() {
        a.len()
    } else {
        b.len()
    };
    assert(lengths == 0 <==> a_len == b_len) by (bit_vector)
        requires
            lengths == a_len ^ b_len,
    ;
    let mut i: usize = 0;
    while i < length
        invariant
            lengths == 0 <==> a@.len() == b@.len(),
            length >= a@.len(),
            length >= b@.len(),
            i <= length,
            diff == 0 <==> lengths == 0 && forall|j: int|
                0 <= j < i && j < a@.len() && j < b@.len() ==> a@[j] == b@[j],
        decreases length - i,
    {
        let x: u8 = if i < a.len() {
            a[i]
        } else {
            0
        };
        let y: u8 = if i < b.len() {
            b[i]
        } else {
            0
        };
        let step: usize = (x ^ y) as usize;
        let before: usize = diff;
        diff = before | step;
        assert((x ^ y) == 0 <==> x == y) by (bit_vector);
        assert(before | step == 0 <==> before == 0 && step == 0) by (bit_vector);
        i = i + 1;
    }
    assert(diff == 0 ==> a@ =~= b@);
    diff == 0
}

/// The token that an `Authorization` header presents; the empty one if there is
/// no such header, or if it is not a bearer token.
pub open spec fn presented(header: Option<Seq<char>>) -> Seq<char> {
    match header {
        Some(value) if begins_with(value, "Bearer "@) => trimmed(
            value.skip("Bearer "@.len() as int),
        ),
        _ => seq![],
    }
}

/// Whether a request with such a header carries the configured token.
pub open spec fn authorized(header: Option<Seq<char>>, token: Seq<char>) -> bool {
    presented(header) == token
}

/// A header's value, if there is one.
pub open spec fn header_value(header: Option<&str>) -> Option<Seq<char>> {
    match header {
        Some(value) => Some(value@),
        None => None,
    }
}

/// Rejects every request that does not carry the configured bearer token.
pub fn require_token(header: Option<&str>, token: &str) -> (r: Result<(), ApiError>)
    ensures
        r is Ok <==> authorized(header_value(header), token@),
        r matches Err(error) ==> error@ == Failure::unauthorized(
            "Missing or invalid bearer token"@,
        ),
{
    let bearer = match header {
        Some(value) => match after_prefix(value, "Bearer ") {
            Some(rest) => trim(rest),
            None => "",
        },
        None => "",
    };
    proof {
        reveal_strlit("");
        assert(""@ =~= seq![]);
        lemma_bytes_tell_texts_apart(bearer@, token@);
    }
    if !constant_time_eq(bearer.as_bytes(), token.as_bytes()) {
        return Err(ApiError::unauthorized("Missing or invalid bearer token"));
    }
    Ok(())
}

/// A request without a bearer token is never let in, as long as there is a token
/// to present.
pub proof fn law_no_entry_without_a_token(header: Option<Seq<char>>, token: Seq<char>)
    requires
        token.len() > 0,
        header matches Some(value) ==> !begins_with(value, "Bearer "@),
    ensures
        !authorized(header, token),
{
}

/// At most one token is let in: a header that is accepted for one token is
/// refused for any other.
pub proof fn law_one_token_per_header(header: Option<Seq<char>>, a: Seq<char>, b: Seq<char>)
    requires
        authorized(header, a),
        authorized(header, b),
    ensures
        a == b,
{
}

/// A client that sends the token as a bearer token is let in. A token with white
/// space around it cannot be sent that way.
pub proof fn law_the_token_is_accepted(token: Seq<char>)
    requires
        trimmed(token) == token,
    ensures
        authorized(Some("Bearer "@ + token), token),
{
    let value = "Bearer "@ + token;
    let prefix = "Bearer "@;
    assert(value.take(prefix.len() as int) =~= prefix);
    assert(value.skip(prefix.len() as int) =~= token);
}

proof fn lemma_no_white_space(text: Seq<char>)
    requires
        forall|i: int| 0 <= i < text.len() ==> !white_space(#[trigger] text[i]),
    ensures
        trimmed(text) == text,
{
    if text.len() > 0 {
        assert(!white_space(text[0]));
        assert(!white_space(text[text.len() - 1]));
    }
}

/// Every token that is generated can be presented: a client that sends it as a
/// bearer token is let in.
pub proof fn law_generated_tokens_are_accepted(token: Seq<char>, count: int)
    requires
        is_random_name(token, count),
    ensures
        authorized(Some("Bearer "@ + token), token),
{
    let bytes = choose|bytes: Seq<u8>| bytes.len() == count && token == #[trigger] hex_text(bytes);
    assert forall|i: int| 0 <= i < token.len() implies !white_space(#[trigger] token[i]) by {
        law_hex_digits_only(bytes, i);
    }
    lemma_no_white_space(token);
    law_the_token_is_accepted(token);
}

/// A request carries the token exactly if its header is `Bearer`, a space and the
/// token, with nothing but white space around it. Only an empty token is carried by a
/// request without such a header.
pub proof fn law_the_header_is_compared_with_the_token(
    header: Option<Seq<char>>,
    rest: Seq<char>,
    token: Seq<char>,
)
    ensures
        authorized(Some("Bearer "@ + rest), token) <==> trimmed(rest) == token,
        header is None ==> (authorized(header, token) <==> token.len() == 0),
        header matches Some(value) && !begins_with(value, "Bearer "@) ==> (authorized(header, token)
            <==> token.len() == 0),
{
    let prefix = "Bearer "@;
    assert((prefix + rest).take(prefix.len() as int) =~= prefix);
    assert((prefix + rest).skip(prefix.len() as int) =~= rest);
    assert(token.len() == 0 <==> Seq::<char>::empty() =~= token);
}

/// Each kind of error has its status and its kind, whatever it says.
pub proof fn law_errors_have_their_status(message: Seq<char>)
    ensures
        Failure::bad_request(message).status == 400,
        Failure::bad_request(message).kind == "invalid_request_error"@,
        Failure::bad_request(message).message == message,
        Failure::unauthorized(message).status == 401,
        Failure::unauthorized(message).kind == "authentication_error"@,
        Failure::unauthorized(message).message == message,
        Failure::not_found(message).status == 404,
        Failure::not_found(message).kind == "not_found_error"@,
        Failure::not_found(message).message == message,
        Failure::unsupported_media(message).status == 415,
        Failure::unsupported_media(message).kind == "invalid_request_error"@,
        Failure::unsupported_media(message).message == message,
        Failure::unavailable(message).status == 503,
        Failure::unavailable(message).kind == "server_error"@,
        Failure::unavailable(message).message == message,
        Failure::internal(message).status == 500,
        Failure::internal(message).kind == "server_error"@,
        Failure::internal(message).message == message,
{
}

/// An error is known by its status, its kind and its message, and a header by its value.
pub proof fn law_errors_are_known_by_what_they_say(error: ApiError, header: Option<&str>)
    ensures
        error@.status == error.status,
        error@.kind == error.error.kind@,
        error@.message == error.error.message@,
        header is None <==> header_value(header) is None,
        header matches Some(value) ==> header_value(header) == Some(value@),
{
}

/// A request is let through exactly if its header presents the token, and is refused as
/// unauthorized otherwise.
pub proof fn law_only_the_token_is_let_through(
    header: Option<&str>,
    rest: Seq<char>,
    token: &str,
    r: Result<(), ApiError>,
)
    requires
        call_ensures(require_token, (header, token), r),
    ensures
        header matches Some(value) && value@ == "Bearer "@ + rest ==> (r is Ok <==> trimmed(rest)
            == token@),
        header is None ==> (r is Ok <==> token@.len() == 0),
        header matches Some(value) && !begins_with(value@, "Bearer "@) ==> (r is Ok <==> token@.len()
            == 0),
        r matches Err(error) ==> error.status == 401 && error.error.kind@
            == "authentication_error"@ && error.error.message@ == "Missing or invalid bearer token"@,
{
    law_the_header_is_compared_with_the_token(header_value(header), rest, token@);
}

/// Two byte strings are the same exactly if they are equally long and no byte differs.
pub proof fn law_every_byte_is_compared(a: &[u8], b: &[u8], same: bool)
    requires
        call_ensures(constant_time_eq, (a, b), same),
    ensures
        same <==> a@.len() == b@.len() && forall|i: int| 0 <= i < a@.len() ==> a@[i] == b@[i],
{
    if a@.len() == b@.len() && forall|i: int| 0 <= i < a@.len() ==> a@[i] == b@[i] {
        assert(a@ =~= b@);
    }
}

/// Each error carries what it is told to say, with its status.
pub proof fn law_errors_carry_their_message(
    message: &str,
    bad: ApiError,
    unknown: ApiError,
    media: ApiError,
    busy: ApiError,
    broken: ApiError,
)
    requires
        call_ensures(ApiError::bad_request, (message,), bad),
        call_ensures(ApiError::not_found, (message,), unknown),
        call_ensures(ApiError::unsupported_media, (message,), media),
        call_ensures(ApiError::unavailable, (message,), busy),
        call_ensures(ApiError::internal, (message,), broken),
    ensures
        bad.status == 400 && bad.error.message@ == message@,
        unknown.status == 404 && unknown.error.message@ == message@,
        media.status == 415 && media.error.message@ == message@,
        busy.status == 503 && busy.error.message@ == message@,
        broken.status == 500 && broken.error.message@ == message@,
        bad.error.kind@ == "invalid_request_error"@,
        unknown.error.kind@ == "not_found_error"@,
        media.error.kind@ == "invalid_request_error"@,
        busy.error.kind@ == "server_error"@,
        broken.error.kind@ == "server_error"@,
{
}

} // verus!
