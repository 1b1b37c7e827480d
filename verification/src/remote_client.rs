//! The client: transcription on the server of another machine.
//!
//! There are two ways. In a batch, the whole recording is uploaded as one WAV
//! file, as OpenAI's audio API has it, so that this works with other servers too.
//! In a stream, audio is posted in chunks while live text arrives as events; only
//! Handy's own server has that, and the client falls back to a batch whenever a
//! stream gives no text.

use vstd::prelude::*;
use vstd::string::StrSliceExecFns;

use crate::pcm::{law_pcm_round_trip, pcm, pcm_bytes, samples_of};
use crate::server::routes::{lemma_with_id, Route};
use crate::server::streaming::{says_something, told_text, FinalizedStream};
use crate::settings::AppSettings;
use crate::text::{
    chars_of, find, joined, law_blank_text_is_white_space, occurs, occurs_at, optional_text,
    same_text, trim, trimmed, white_space,
};
use crate::wav::{
    encode_wav_bytes, fits_in_wav, law_files_hold_all_the_samples, wav_file, TARGET_SAMPLE_RATE,
};

verus! {

/// How much audio is collected before a chunk is posted, in samples: a quarter of
/// a second.
pub const CHUNK_SAMPLES: usize = 4_000;

/// How long a request may take that does no inference, in seconds.
pub const CONTROL_TIMEOUT_SECS: u64 = 15;

/// A text or a message, taken by what it says.
pub open spec fn text_result(r: Result<String, String>) -> Result<Seq<char>, Seq<char>> {
    match r {
        Ok(text) => Ok(text@),
        Err(message) => Err(message@),
    }
}

/// `text` without the slashes at its end.
pub open spec fn without_slashes(text: Seq<char>) -> Seq<char>
    decreases text.len(),
{
    if text.len() > 0 && text.last() == '/' {
        without_slashes(text.drop_last())
    } else {
        text
    }
}

/// Cuts the slashes off the end of `text`.
fn strip_slashes(text: &str) -> (r: &str)
    ensures
        r@ == without_slashes(text@),
{
    let chars = chars_of(text);
    let mut end: usize = chars.len();
    assert(text@.take(end as int) =~= text@);
    while end > 0 && chars[end - 1] == '/'
        invariant
            chars@ == text@,
            end <= text@.len(),
            without_slashes(text@.take(end as int)) == without_slashes(text@),
        decreases end,
    {
        assert(text@.take(end as int).drop_last() =~= text@.take(end - 1));
        end = end - 1;
    }
    let r = text.substring_char(0, end);
    assert(r@ =~= text@.take(end as int));
    r
}

/// What the user typed, without white space around it and slashes at its end.
pub open spec fn typed(raw: Seq<char>) -> Seq<char> {
    without_slashes(trimmed(raw))
}

/// The URL that is meant by what the user typed: plain HTTP, if no scheme was
/// given.
pub open spec fn with_scheme(raw: Seq<char>) -> Seq<char> {
    if occurs(typed(raw), "://"@) {
        typed(raw)
    } else {
        "http://"@ + typed(raw)
    }
}

/// The host of a URL, if the URL has one. There is no answer for a text that is
/// not a URL.
pub uninterp spec fn url_host(url: Seq<char>) -> Option<Option<Seq<char>>>;

/// A found host, taken by what it says.
pub open spec fn host_view(r: Option<Option<String>>) -> Option<Option<Seq<char>>> {
    match r {
        Some(host) => Some(optional_text(host)),
        None => None,
    }
}

/// Parses a URL with `reqwest`'s `Url::parse`, and takes its host with
/// `host_str`.
///
/// The contract names the result [`url_host`]: what counts as a URL, and what as
/// its host, is left to that parser.
#[verifier::external_body]
fn host_of(url: &str) -> (r: Option<Option<String>>)
    ensures
        host_view(r) == url_host(url@),
{
    let parsed = reqwest::Url::parse(url).ok()?;
    Some(parsed.host_str().map(str::to_owned))
}

/// The address of a server that the user typed, or what is wrong with it, given
/// the host of [`with_scheme`].
pub open spec fn address(raw: Seq<char>, host: Option<Option<Seq<char>>>) -> Result<
    Seq<char>,
    Seq<char>,
> {
    if typed(raw).len() == 0 {
        Err("No server address configured. Set it in Settings → Networked inference."@)
    } else {
        match host {
            None => Err("'"@ + raw + "' is not a valid server address"@),
            Some(None) => Err("'"@ + raw + "' has no host"@),
            Some(Some(_)) => Ok(without_slashes(with_scheme(raw))),
        }
    }
}

/// What the user typed, ready to be parsed as a URL.
fn complete(raw: &str) -> (r: String)
    ensures
        r@ == with_scheme(raw@),
{
    let typed = strip_slashes(trim(raw));
    match find(typed, "://") {
        Some(_) => typed.to_owned(),
        None => joined("http://", typed),
    }
}

/// Checks an address that the user typed, given the host of [`with_scheme`].
pub fn check_address(raw: &str, host: Option<Option<String>>) -> (r: Result<String, String>)
    ensures
        text_result(r) == address(raw@, host_view(host)),
{
    if strip_slashes(trim(raw)).is_empty() {
        return Err(
            "No server address configured. Set it in Settings → Networked inference.".to_owned(),
        );
    }
    match host {
        None => {
            let start = joined("'", raw);
            Err(joined(start.as_str(), "' is not a valid server address"))
        },
        Some(None) => {
            let start = joined("'", raw);
            Err(joined(start.as_str(), "' has no host"))
        },
        Some(Some(_)) => {
            let url = complete(raw);
            Ok(strip_slashes(url.as_str()).to_owned())
        },
    }
}

/// Checks an address that the user typed. A host alone is enough, or a host and a
/// port. The result has no slash at its end, so that a path can be put behind it.
pub fn normalize_base_url(raw: &str) -> (r: Result<String, String>)
    ensures
        text_result(r) == address(raw@, url_host(with_scheme(raw@))),
{
    let url = complete(raw);
    check_address(raw, host_of(url.as_str()))
}

/// Where the server is, and what it is asked for.
#[derive(Debug)]
pub struct RemoteTarget {
    pub base_url: String,
    pub token: String,
    /// Empty for whatever the server has loaded.
    pub model: String,
    /// How long a transcription may take, in seconds.
    pub timeout_secs: u64,
}

/// What there is to know of a [`RemoteTarget`].
pub struct Target {
    pub base_url: Seq<char>,
    pub token: Seq<char>,
    pub model: Seq<char>,
    pub timeout_secs: u64,
}

impl View for RemoteTarget {
    type V = Target;

    open spec fn view(&self) -> Target {
        Target {
            base_url: self.base_url@,
            token: self.token@,
            model: self.model@,
            timeout_secs: self.timeout_secs,
        }
    }
}

/// The target that the settings describe, at the given address. It is waited for
/// at least one second.
pub open spec fn target_of(settings: &AppSettings, base_url: Seq<char>) -> Target {
    Target {
        base_url,
        token: settings.client_token@,
        model: settings.client_model@,
        timeout_secs: if settings.client_timeout_secs == 0 {
            1
        } else {
            settings.client_timeout_secs
        },
    }
}

impl RemoteTarget {
    /// The target that the settings describe, or what is wrong with their address.
    pub fn from_settings(settings: &AppSettings) -> (r: Result<RemoteTarget, String>)
        ensures
            match address(
                settings.client_base_url@,
                url_host(with_scheme(settings.client_base_url@)),
            ) {
                Ok(base_url) => r matches Ok(target) && target@ == target_of(settings, base_url),
                Err(message) => r matches Err(said) && said@ == message,
            },
    {
        let base_url = match normalize_base_url(settings.client_base_url.as_str()) {
            Ok(base_url) => base_url,
            Err(message) => {
                return Err(message);
            },
        };
        let timeout_secs: u64 = if settings.client_timeout_secs == 0 {
            1
        } else {
            settings.client_timeout_secs
        };
        Ok(
            RemoteTarget {
                base_url,
                token: settings.client_token.expose().to_owned(),
                model: settings.client_model.clone(),
                timeout_secs,
            },
        )
    }

    /// The URL of a path on the server.
    pub fn url(&self, path: &str) -> (r: String)
        ensures
            r@ == self@.base_url + path@,
    {
        joined(self.base_url.as_str(), path)
    }
}

/// A request to the server, without what its body holds.
#[derive(Debug)]
pub struct RemoteRequest {
    pub url: String,
    /// What is presented as the bearer token.
    pub token: String,
    /// How long the answer may take, in seconds. There is no limit on an event
    /// channel, where a long silence is normal.
    pub timeout_secs: Option<u64>,
}

/// What there is to know of a [`RemoteRequest`].
pub struct Asked {
    pub url: Seq<char>,
    pub token: Seq<char>,
    pub timeout_secs: Option<u64>,
}

impl View for RemoteRequest {
    type V = Asked;

    open spec fn view(&self) -> Asked {
        Asked { url: self.url@, token: self.token@, timeout_secs: self.timeout_secs }
    }
}

impl Target {
    /// The request for a path on the server.
    pub open spec fn asked(self, path: Seq<char>, timeout_secs: Option<u64>) -> Asked {
        Asked { url: self.base_url + path, token: self.token, timeout_secs }
    }
}

impl RemoteTarget {
    /// Makes a request for a path on the server.
    fn request(&self, path: &str, timeout_secs: Option<u64>) -> (r: RemoteRequest)
        ensures
            r@ == self@.asked(path@, timeout_secs),
    {
        RemoteRequest { url: self.url(path), token: self.token.clone(), timeout_secs }
    }
}

/// What the server has answered.
#[derive(Debug)]
pub struct Reply {
    /// The HTTP status code.
    pub status: u16,
    /// The status as it is shown, e.g. `404 Not Found`.
    pub status_text: String,
    /// The body, if it could be read.
    pub body: Option<String>,
}

/// Whether a status means success.
pub open spec fn success(status: u16) -> bool {
    200 <= status < 300
}

/// Decides [`success`].
pub(crate) fn succeeded(status: u16) -> (r: bool)
    ensures
        r == success(status),
{
    200 <= status && status < 300
}

impl Reply {
    /// Decides whether the request was successful.
    pub fn is_success(&self) -> (r: bool)
        ensures
            r == success(self.status),
    {
        succeeded(self.status)
    }
}

/// The text that stands in a JSON document under `outer` and then `inner`. There
/// is none if the text is not JSON, or if there is no text there.
pub uninterp spec fn json_text(
    document: Seq<char>,
    outer: Seq<char>,
    inner: Seq<char>,
) -> Option<Seq<char>>;

/// Parses a JSON document with `serde_json`'s `from_str`, and takes the text
/// under two keys with `Value::get` and `Value::as_str`.
///
/// The contract names the result [`json_text`]: what counts as JSON is left to
/// that parser.
#[verifier::external_body]
fn json_text_at(document: &str, outer: &str, inner: &str) -> (r: Option<String>)
    ensures
        optional_text(r) == json_text(document@, outer@, inner@),
{
    let value: serde_json::Value = serde_json::from_str(document).ok()?;
    value.get(outer)?.get(inner)?.as_str().map(str::to_owned)
}

/// What is said of a request that the server has refused: the message that was
/// found in the body, or else the beginning of the body.
pub open spec fn failure_text(
    context: Seq<char>,
    status_text: Seq<char>,
    body: Seq<char>,
    found: Option<Seq<char>>,
) -> Seq<char> {
    let message = match found {
        Some(message) => message,
        None => if body.len() > 300 {
            body.take(300)
        } else {
            body
        },
    };
    if message.len() == 0 {
        context + ": server returned "@ + status_text
    } else {
        context + ": "@ + status_text + " — "@ + message
    }
}

/// Says why a request failed that the server has refused, given the message that
/// was found in the body.
pub fn describe_failure(
    context: &str,
    status_text: &str,
    body: &str,
    found: Option<String>,
) -> (r: String)
    ensures
        r@ == failure_text(context@, status_text@, body@, optional_text(found)),
{
    let message = match found {
        Some(message) => message,
        None => {
            if body.unicode_len() > 300 {
                let start = body.substring_char(0, 300);
                assert(start@ =~= body@.take(300));
                start.to_owned()
            } else {
                body.to_owned()
            }
        },
    };
    if message.as_str().is_empty() {
        let start = joined(context, ": server returned ");
        joined(start.as_str(), status_text)
    } else {
        let start = joined(context, ": ");
        let middle = joined(start.as_str(), status_text);
        let dash = joined(middle.as_str(), " — ");
        joined(dash.as_str(), message.as_str())
    }
}

/// What is said of a request that the server has refused. The message is looked
/// for where both Handy's server and OpenAI's put it: in the body, as the `message`
/// of the `error`. A body that cannot be read counts as empty.
pub open spec fn refusal(context: Seq<char>, reply: Reply) -> Seq<char> {
    let body = match reply.body {
        Some(body) => body@,
        None => seq![],
    };
    failure_text(context, reply.status_text@, body, json_text(body, "error"@, "message"@))
}

/// Says why a request failed that the server has refused.
pub fn error_for_status(context: &str, reply: &Reply) -> (r: String)
    ensures
        r@ == refusal(context@, *reply),
{
    let body = match &reply.body {
        Some(body) => body.as_str(),
        None => "",
    };
    proof {
        reveal_strlit("");
        assert(""@ =~= seq![]);
    }
    let found = json_text_at(body, "error", "message");
    describe_failure(context, reply.status_text.as_str(), body, found)
}

/// A recording to be transcribed in one piece.
#[derive(Debug)]
pub struct BatchRequest {
    pub request: RemoteRequest,
    /// The WAV file to upload.
    pub file: Vec<u8>,
    pub file_name: &'static str,
    pub media_type: &'static str,
    /// The model to ask for. A server that is not Handy's needs one; Handy's uses
    /// what it has loaded.
    pub model: Option<String>,
    /// The language of the recording, if it is not to be detected.
    pub language: Option<String>,
}

/// Where a recording is sent. There is no other way to ask for English.
pub open spec fn batch_path(translate: bool) -> Seq<char> {
    if translate {
        "/v1/audio/translations"@
    } else {
        "/v1/audio/transcriptions"@
    }
}

/// Whether `r` asks the target for the transcription of the given samples.
pub open spec fn asks_for(
    r: BatchRequest,
    target: Target,
    language: Seq<char>,
    translate: bool,
    samples: Seq<i16>,
) -> bool {
    &&& r.request@ == target.asked(batch_path(translate), Some(target.timeout_secs))
    &&& r.file@ == wav_file(TARGET_SAMPLE_RATE, samples)
    &&& r.file_name@ == "audio.wav"@
    &&& r.media_type@ == "audio/wav"@
    &&& optional_text(r.model) == if target.model.len() == 0 {
        None
    } else {
        Some(target.model)
    }
    &&& optional_text(r.language) == if language == "auto"@ {
        None
    } else {
        Some(language)
    }
}

/// Makes the request to transcribe a recording, or says what is wrong with the
/// settings.
pub fn transcribe(settings: &AppSettings, samples: &[i16]) -> (r: Result<BatchRequest, String>)
    requires
        fits_in_wav(samples@.len() as int),
    ensures
        match address(
            settings.client_base_url@,
            url_host(with_scheme(settings.client_base_url@)),
        ) {
            Ok(base_url) => r matches Ok(request) && asks_for(
                request,
                target_of(settings, base_url),
                settings.selected_language@,
                settings.translate_to_english,
                samples@,
            ),
            Err(message) => r matches Err(said) && said@ == message,
        },
        r matches Ok(request) ==> {
            &&& request.file@ == wav_file(16_000, samples@)
            &&& request.request.token@ == settings.client_token@
        },
{
    match RemoteTarget::from_settings(settings) {
        Ok(target) => batch_request(
            &target,
            settings.selected_language.as_str(),
            settings.translate_to_english,
            samples,
        ),
        Err(message) => Err(message),
    }
}

/// Makes the request to transcribe a recording on the target.
pub fn batch_request(
    target: &RemoteTarget,
    language: &str,
    translate: bool,
    samples: &[i16],
) -> (r: Result<BatchRequest, String>)
    requires
        fits_in_wav(samples@.len() as int),
    ensures
        r matches Ok(request) && asks_for(request, target@, language@, translate, samples@),
        r matches Ok(request) ==> {
            &&& request.file@ == wav_file(16_000, samples@)
            &&& request.request.token@ == target.token@
            &&& request.request.timeout_secs == Some(target.timeout_secs)
        },
{
    let file = match encode_wav_bytes(samples) {
        Ok(file) => file,
        Err(_) => {
            return Err("failed to encode audio for upload".to_owned());
        },
    };
    let path = if translate {
        "/v1/audio/translations"
    } else {
        "/v1/audio/transcriptions"
    };
    let model = if target.model.as_str().is_empty() {
        None
    } else {
        Some(target.model.clone())
    };
    let language = if same_text(language, "auto") {
        None
    } else {
        Some(language.to_owned())
    };
    Ok(
        BatchRequest {
            request: target.request(path, Some(target.timeout_secs)),
            file,
            file_name: "audio.wav",
            media_type: "audio/wav",
            model,
            language,
        },
    )
}

/// The transcript that a batch request was answered with, or why there is none.
/// `said` is what the body says if it is the JSON that OpenAI's API prescribes; a
/// body that is not is taken for the transcript itself.
pub open spec fn transcript(
    base_url: Seq<char>,
    reply: Option<Reply>,
    said: Option<Seq<char>>,
) -> Result<Seq<char>, Seq<char>> {
    match reply {
        None => Err("could not reach transcription server at "@ + base_url),
        Some(reply) => if !success(reply.status) {
            Err(refusal("remote transcription failed"@, reply))
        } else {
            match reply.body {
                None => Err("failed to read server response"@),
                Some(body) => match said {
                    Some(text) => Ok(text),
                    None => Ok(trimmed(body@)),
                },
            }
        },
    }
}

/// Takes the transcript out of the answer to a batch request. There is no answer
/// if the server could not be reached; `said` is the text in the body, if the body
/// is JSON with such a text.
pub fn transcript_of(base_url: &str, reply: Option<Reply>, said: Option<String>) -> (r: Result<
    String,
    String,
>)
    ensures
        text_result(r) == transcript(base_url@, reply, optional_text(said)),
{
    match reply {
        None => Err(joined("could not reach transcription server at ", base_url)),
        Some(reply) => {
            if !reply.is_success() {
                return Err(error_for_status("remote transcription failed", &reply));
            }
            match &reply.body {
                None => Err("failed to read server response".to_owned()),
                Some(body) => match said {
                    Some(text) => Ok(text),
                    None => Ok(trim(body.as_str()).to_owned()),
                },
            }
        },
    }
}

/// What a server says of itself.
#[derive(Debug)]
pub struct RemoteServerInfo {
    /// `handy` for Handy's own server.
    pub server: String,
    pub version: String,
    pub loaded_model: Option<String>,
    /// Whether there are streaming sessions. Only Handy's own server has them;
    /// with any other, a recording is transcribed in one piece.
    pub streaming: bool,
}

/// A model that a server can transcribe with.
#[derive(Debug)]
pub struct RemoteModel {
    pub id: String,
    /// What to show; the id, if there is no name.
    pub name: Option<String>,
}

/// A server whose address and token are tried out.
#[derive(Debug)]
pub struct Probe {
    pub base_url: String,
    pub token: String,
}

/// What a probe has found out.
pub enum ProbeStep {
    Finished(Result<RemoteServerInfo, String>),
    /// The server does not describe itself: its list of models is asked for, which
    /// every compatible server has.
    AskForModels,
}

/// Begins to try out an address and a token, or says what is wrong with the
/// address.
pub fn probe(base_url: &str, token: &str) -> (r: Result<Probe, String>)
    ensures
        match address(base_url@, url_host(with_scheme(base_url@))) {
            Ok(url) => r matches Ok(probe) && probe.base_url@ == url && probe.token@ == token@,
            Err(message) => r matches Err(said) && said@ == message,
        },
{
    match normalize_base_url(base_url) {
        Ok(url) => Ok(Probe { base_url: url, token: token.to_owned() }),
        Err(message) => Err(message),
    }
}

impl Probe {
    /// What a request for a path on the server is.
    pub open spec fn asked(&self, path: Seq<char>) -> Asked {
        Asked {
            url: self.base_url@ + path,
            token: self.token@,
            timeout_secs: Some(CONTROL_TIMEOUT_SECS),
        }
    }

    /// Asks the server to describe itself.
    pub fn info_request(&self) -> (r: RemoteRequest)
        ensures
            r@ == self.asked("/handy/v1/info"@),
    {
        RemoteRequest {
            url: joined(self.base_url.as_str(), "/handy/v1/info"),
            token: self.token.clone(),
            timeout_secs: Some(CONTROL_TIMEOUT_SECS),
        }
    }

    /// Asks the server for its models.
    pub fn models_request(&self) -> (r: RemoteRequest)
        ensures
            r@ == self.asked("/v1/models"@),
    {
        RemoteRequest {
            url: joined(self.base_url.as_str(), "/v1/models"),
            token: self.token.clone(),
            timeout_secs: Some(CONTROL_TIMEOUT_SECS),
        }
    }

    /// Goes on once the server has been asked to describe itself. `info` is what it
    /// says, if that could be read. A rejected token is for the user to put right,
    /// and no sign of another kind of server.
    pub fn info_reply(&self, reply: Option<Reply>, info: Option<RemoteServerInfo>) -> (r: ProbeStep)
        ensures
            match reply {
                None => r matches ProbeStep::Finished(Err(message)) && message@
                    == "could not reach "@ + self.base_url@,
                Some(reply) => if success(reply.status) {
                    match info {
                        None => r matches ProbeStep::Finished(Err(message)) && message@
                            == "server sent a malformed info response"@,
                        Some(info) => r == ProbeStep::Finished(
                            Ok(
                                RemoteServerInfo {
                                    streaming: info.streaming && info.server@ == "handy"@,
                                    ..info
                                },
                            ),
                        ),
                    }
                } else if reply.status == 401 {
                    r matches ProbeStep::Finished(Err(message)) && message@
                        == "server rejected the token"@
                } else {
                    r is AskForModels
                },
            },
    {
        let reply = match reply {
            Some(reply) => reply,
            None => {
                return ProbeStep::Finished(
                    Err(joined("could not reach ", self.base_url.as_str())),
                );
            },
        };
        if reply.is_success() {
            return match info {
                None => ProbeStep::Finished(
                    Err("server sent a malformed info response".to_owned()),
                ),
                Some(info) => {
                    let streaming = info.streaming && same_text(info.server.as_str(), "handy");
                    ProbeStep::Finished(
                        Ok(
                            RemoteServerInfo {
                                server: info.server,
                                version: info.version,
                                loaded_model: info.loaded_model,
                                streaming,
                            },
                        ),
                    )
                },
            };
        }
        if reply.status == 401 {
            return ProbeStep::Finished(Err("server rejected the token".to_owned()));
        }
        ProbeStep::AskForModels
    }

    /// Concludes once the server has been asked for its models: whoever has them
    /// can transcribe recordings in one piece.
    pub fn models_reply(&self, reply: Option<Reply>) -> (r: Result<RemoteServerInfo, String>)
        ensures
            match reply {
                None => r matches Err(message) && message@ == "could not reach "@ + self.base_url@,
                Some(reply) => if success(reply.status) {
                    &&& r matches Ok(info)
                    &&& info.server@ == "openai-compatible"@
                    &&& info.version@ == Seq::<char>::empty()
                    &&& info.loaded_model is None
                    &&& !info.streaming
                } else {
                    r matches Err(message) && message@ == refusal("server is not usable"@, reply)
                },
            },
    {
        match reply {
            None => Err(joined("could not reach ", self.base_url.as_str())),
            Some(reply) => {
                if !reply.is_success() {
                    return Err(error_for_status("server is not usable", &reply));
                }
                Ok(
                    RemoteServerInfo {
                        server: "openai-compatible".to_owned(),
                        version: String::new(),
                        loaded_model: None,
                        streaming: false,
                    },
                )
            },
        }
    }
}

/// Takes the models out of the answer to the request for them. `models` are
/// those in the body, if it could be read.
pub fn list_models(
    probe: &Probe,
    reply: Option<Reply>,
    models: Option<Vec<RemoteModel>>,
) -> (r: Result<Vec<RemoteModel>, String>)
    ensures
        match reply {
            None => r matches Err(message) && message@ == "could not reach "@ + probe.base_url@,
            Some(reply) => if success(reply.status) {
                match models {
                    None => r matches Err(message) && message@
                        == "server sent a malformed model list"@,
                    Some(models) => r == Ok::<Vec<RemoteModel>, String>(models),
                }
            } else {
                r matches Err(message) && message@ == refusal(
                    "could not list server models"@,
                    reply,
                )
            },
        },
{
    match reply {
        None => Err(joined("could not reach ", probe.base_url.as_str())),
        Some(reply) => {
            if !reply.is_success() {
                return Err(error_for_status("could not list server models", &reply));
            }
            match models {
                Some(models) => Ok(models),
                None => Err("server sent a malformed model list".to_owned()),
            }
        },
    }
}

/// What a server tells its client while it streams.
#[derive(Debug)]
pub enum RemoteStreamEvent {
    Text { committed: String, tentative: String },
    Phase {  },
    Final { text: String },
    Error { message: String },
}

impl RemoteStreamEvent {
    /// Whether nothing comes after this event.
    pub open spec fn terminal(&self) -> bool {
        self is Final || self is Error
    }

    /// Decides [`Self::terminal`].
    pub fn is_terminal(&self) -> (r: bool)
        ensures
            r == self.terminal(),
    {
        match self {
            RemoteStreamEvent::Final { .. } => true,
            RemoteStreamEvent::Error { .. } => true,
            _ => false,
        }
    }
}

/// The request to open a streaming session.
#[derive(Debug)]
pub struct OpenRequest {
    pub target: RemoteTarget,
    pub request: RemoteRequest,
    /// The model to ask for; empty for whatever the server has loaded.
    pub model: String,
    pub language: String,
}

/// Makes the request to open a streaming session, or says what is wrong with the
/// settings.
pub fn open_session(settings: &AppSettings) -> (r: Result<OpenRequest, String>)
    ensures
        match address(
            settings.client_base_url@,
            url_host(with_scheme(settings.client_base_url@)),
        ) {
            Ok(base_url) => {
                &&& r matches Ok(open)
                &&& open.target@ == target_of(settings, base_url)
                &&& open.request@ == open.target@.asked(
                    "/handy/v1/stream"@,
                    Some(CONTROL_TIMEOUT_SECS),
                )
                &&& open.model@ == settings.client_model@
                &&& open.language@ == settings.selected_language@
            },
            Err(message) => r matches Err(said) && said@ == message,
        },
{
    match RemoteTarget::from_settings(settings) {
        Ok(target) => {
            let request = target.request("/handy/v1/stream", Some(CONTROL_TIMEOUT_SECS));
            let model = target.model.clone();
            Ok(
                OpenRequest {
                    target,
                    request,
                    model,
                    language: settings.selected_language.clone(),
                },
            )
        },
        Err(message) => Err(message),
    }
}

/// A chunk of audio to be posted.
#[derive(Debug)]
pub struct ChunkPost {
    pub request: RemoteRequest,
    /// 16-bit samples, little-endian.
    pub body: Vec<u8>,
}

/// How the post of a chunk came out.
pub enum ChunkOutcome {
    Answered { status: u16, status_text: String },
    /// The server could not be reached.
    Lost { reason: String },
}

/// What is done to finalize a stream.
pub enum FinalizeStep {
    /// The last chunk is posted. When its outcome is known, the stream is finalized
    /// again.
    Post(ChunkPost),
    /// There is no transcript, since a chunk did not get through.
    Failed { reason: String },
    /// The server is asked for the transcript.
    Ask(RemoteRequest),
}

/// A streaming session on a server, as its client sees it.
pub struct StreamSession {
    target: RemoteTarget,
    id: String,
    /// What has not been posted yet.
    pending: Vec<i16>,
    /// Why a chunk did not get through. After that, nothing is posted any more.
    failed: Option<String>,
}

/// What there is to know of a [`StreamSession`].
#[verifier::ext_equal]
pub struct Stream {
    pub target: Target,
    pub id: Seq<char>,
    pub pending: Seq<i16>,
    pub failed: Option<Seq<char>>,
}

impl View for StreamSession {
    type V = Stream;

    closed spec fn view(&self) -> Stream {
        Stream {
            target: self.target@,
            id: self.id@,
            pending: self.pending@,
            failed: optional_text(self.failed),
        }
    }
}

impl Stream {
    /// The request for something that the session offers.
    pub open spec fn asked(self, what: Seq<char>, timeout_secs: Option<u64>) -> Asked {
        self.target.asked("/handy/v1/stream/"@ + self.id + what, timeout_secs)
    }

    /// The stream with what is pending posted, and the samples that are posted.
    /// Nothing is posted once a chunk has failed.
    pub open spec fn flushed(self) -> (Stream, Option<Seq<i16>>) {
        if self.pending.len() == 0 || self.failed is Some {
            (self, None)
        } else {
            (Stream { pending: seq![], ..self }, Some(self.pending))
        }
    }

    /// The stream with a frame taken in, and the samples that are posted, if there
    /// are enough for a chunk now.
    pub open spec fn pushed(self, frame: Seq<i16>) -> (Stream, Option<Seq<i16>>) {
        if self.failed is Some {
            (self, None)
        } else {
            let buffered = Stream { pending: self.pending + frame, ..self };
            if buffered.pending.len() >= CHUNK_SAMPLES {
                buffered.flushed()
            } else {
                (buffered, None)
            }
        }
    }

    /// The stream once the outcome of a chunk is known. The first failure counts.
    pub open spec fn sent(self, outcome: ChunkOutcome) -> Stream {
        if self.failed is Some {
            self
        } else {
            match outcome {
                ChunkOutcome::Answered { status, status_text } => if success(status) {
                    self
                } else {
                    Stream {
                        failed: Some("server rejected audio chunk ("@ + status_text@ + ")"@),
                        ..self
                    }
                },
                ChunkOutcome::Lost { reason } => Stream {
                    failed: Some("lost connection to server: "@ + reason@),
                    ..self
                },
            }
        }
    }

    /// Whether the given samples, if there are any, are what is posted.
    pub open spec fn posts(self, samples: Option<Seq<i16>>, r: Option<ChunkPost>) -> bool {
        match samples {
            Some(samples) => {
                &&& r matches Some(chunk)
                &&& chunk.request@ == self.asked("/audio"@, Some(self.target.timeout_secs))
                &&& chunk.body@ == pcm(samples)
            },
            None => r is None,
        }
    }
}

impl StreamSession {
    /// Enters a session that the server has been asked to open. There is no reply
    /// if the server could not be reached; `id` is the name of the session, if it
    /// could be read.
    pub fn open(target: RemoteTarget, reply: Option<Reply>, id: Option<String>) -> (r: Result<
        StreamSession,
        String,
    >)
        ensures
            match reply {
                None => r matches Err(message) && message@ == "could not open a stream on "@
                    + target@.base_url,
                Some(reply) => if success(reply.status) {
                    match id {
                        Some(id) => r matches Ok(session) && session@ == (Stream {
                            target: target@,
                            id: id@,
                            pending: seq![],
                            failed: None,
                        }),
                        None => r matches Err(message) && message@
                            == "server sent a malformed session response"@,
                    }
                } else {
                    r matches Err(message) && message@ == refusal(
                        "server refused the stream"@,
                        reply,
                    )
                },
            },
    {
        let reply = match reply {
            Some(reply) => reply,
            None => {
                return Err(joined("could not open a stream on ", target.base_url.as_str()));
            },
        };
        if !reply.is_success() {
            return Err(error_for_status("server refused the stream", &reply));
        }
        match id {
            Some(id) => {
                let pending: Vec<i16> = Vec::new();
                assert(pending@ =~= seq![]);
                Ok(StreamSession { target, id, pending, failed: None })
            },
            None => Err("server sent a malformed session response".to_owned()),
        }
    }

    /// Makes a request for something that the session offers.
    fn request(&self, what: &str, timeout_secs: Option<u64>) -> (r: RemoteRequest)
        ensures
            r@ == self@.asked(what@, timeout_secs),
    {
        let start = joined("/handy/v1/stream/", self.id.as_str());
        let path = joined(start.as_str(), what);
        self.target.request(path.as_str(), timeout_secs)
    }

    /// The request for the events of the session.
    pub fn events(&self) -> (r: RemoteRequest)
        ensures
            r@ == self@.asked("/events"@, None),
    {
        self.request("/events", None)
    }

    /// Takes in a frame, and posts a chunk once there is enough for one.
    pub fn push(&mut self, frame: &[i16]) -> (r: Option<ChunkPost>)
        ensures
            final(self)@ == old(self)@.pushed(frame@).0,
            old(self)@.posts(old(self)@.pushed(frame@).1, r),
    {
        if self.failed.is_some() {
            return None;
        }
        self.pending.extend_from_slice(frame);
        assert(self.pending@ =~= old(self)@.pending + frame@);
        if self.pending.len() >= CHUNK_SAMPLES {
            return self.flush();
        }
        None
    }

    /// Posts what is pending.
    pub fn flush(&mut self) -> (r: Option<ChunkPost>)
        ensures
            final(self)@ == old(self)@.flushed().0,
            old(self)@.posts(old(self)@.flushed().1, r),
    {
        if self.pending.len() == 0 || self.failed.is_some() {
            return None;
        }
        let body = pcm_bytes(self.pending.as_slice());
        let request = self.request("/audio", Some(self.target.timeout_secs));
        self.pending = Vec::new();
        assert(self.pending@ =~= seq![]);
        Some(ChunkPost { request, body })
    }

    /// Takes note of how the post of a chunk came out.
    pub fn chunk_sent(&mut self, outcome: ChunkOutcome)
        ensures
            final(self)@ == old(self)@.sent(outcome),
    {
        if self.failed.is_some() {
            return;
        }
        match outcome {
            ChunkOutcome::Answered { status, status_text } => {
                if !succeeded(status) {
                    let start = joined("server rejected audio chunk (", status_text.as_str());
                    self.failed = Some(joined(start.as_str(), ")"));
                }
            },
            ChunkOutcome::Lost { reason } => {
                self.failed = Some(joined("lost connection to server: ", reason.as_str()));
            },
        }
    }

    /// Finalizes the stream: posts the last chunk, and then asks for the
    /// transcript.
    pub fn finalize(&mut self) -> (r: FinalizeStep)
        ensures
            final(self)@ == old(self)@.flushed().0,
            match old(self)@.failed {
                Some(cause) => r matches FinalizeStep::Failed { reason } && reason@ == cause,
                None => if old(self)@.pending.len() > 0 {
                    r matches FinalizeStep::Post(chunk) && old(self)@.posts(
                        old(self)@.flushed().1,
                        Some(chunk),
                    )
                } else {
                    r matches FinalizeStep::Ask(request) && request@ == old(self)@.asked(
                        "/finalize"@,
                        Some(old(self)@.target.timeout_secs),
                    )
                },
            },
    {
        if let Some(reason) = &self.failed {
            return FinalizeStep::Failed { reason: reason.clone() };
        }
        match self.flush() {
            Some(chunk) => FinalizeStep::Post(chunk),
            None => FinalizeStep::Ask(self.request("/finalize", Some(self.target.timeout_secs))),
        }
    }

    /// The request to abandon the session, so that the server has its engine back
    /// at once.
    pub fn cancel(self) -> (r: RemoteRequest)
        ensures
            r@ == self@.asked("/cancel"@, Some(CONTROL_TIMEOUT_SECS)),
    {
        self.request("/cancel", Some(CONTROL_TIMEOUT_SECS))
    }
}

/// The transcript in the answer to a finalized stream. There is none if the server
/// says so, or if it is blank.
pub open spec fn usable_text(text: Seq<char>, fallback: bool) -> Option<Seq<char>> {
    if fallback || trimmed(text).len() == 0 {
        None
    } else {
        Some(text)
    }
}

/// Takes the transcript out of the answer to a finalized stream. There is no reply
/// if the server could not be reached; `answer` is what its body says, if it could
/// be read. Without a transcript, the recording is to be sent again in one piece.
pub fn finalized(reply: Option<Reply>, answer: Option<FinalizedStream>) -> (r: Result<
    Option<String>,
    String,
>)
    ensures
        match reply {
            None => r matches Err(message) && message@ == "could not finalize remote stream"@,
            Some(reply) => if success(reply.status) {
                match answer {
                    None => r matches Err(message) && message@
                        == "server sent a malformed finalize response"@,
                    Some(answer) => r matches Ok(text) && optional_text(text) == usable_text(
                        answer.text@,
                        answer.fallback,
                    ),
                }
            } else {
                r matches Err(message) && message@ == refusal("remote finalize failed"@, reply)
            },
        },
{
    let reply = match reply {
        Some(reply) => reply,
        None => {
            return Err("could not finalize remote stream".to_owned());
        },
    };
    if !reply.is_success() {
        return Err(error_for_status("remote finalize failed", &reply));
    }
    match answer {
        None => Err("server sent a malformed finalize response".to_owned()),
        Some(answer) => {
            if answer.fallback || trim(answer.text.as_str()).is_empty() {
                Ok(None)
            } else {
                Ok(Some(answer.text))
            }
        },
    }
}

proof fn lemma_no_slash_at_the_end(text: Seq<char>)
    ensures
        without_slashes(text).len() <= text.len(),
        without_slashes(text).len() > 0 ==> without_slashes(text).last() != '/',
    decreases text.len(),
{
    if text.len() > 0 && text.last() == '/' {
        lemma_no_slash_at_the_end(text.drop_last());
    }
}

/// An accepted address never ends with a slash, so that a path can be put behind
/// it; it names a scheme; and nothing was added to what the user typed but the
/// scheme.
pub proof fn law_address_takes_a_path(raw: Seq<char>, host: Option<Option<Seq<char>>>)
    ensures
        address(raw, host) matches Ok(url) ==> {
            &&& url.len() > 0
            &&& url.last() != '/'
            &&& occurs(url, "://"@)
            &&& url == typed(raw) || url == "http://"@ + typed(raw)
        },
{
    if let Ok(url) = address(raw, host) {
        lemma_no_slash_at_the_end(trimmed(raw));
        let full = with_scheme(raw);
        assert(full.last() == typed(raw).last());
        assert(url == full);
        if !occurs(typed(raw), "://"@) {
            reveal_strlit("://");
            reveal_strlit("http://");
            assert(full.subrange(4, 7) =~= "://"@);
            assert(occurs_at(full, "://"@, 4));
        }
    }
}

/// The stream after several frames, and the chunks posted on the way, as long as
/// every one of them gets through.
pub open spec fn all_pushed(stream: Stream, frames: Seq<Seq<i16>>) -> (Stream, Seq<Seq<i16>>)
    decreases frames.len(),
{
    if frames.len() == 0 {
        (stream, seq![])
    } else {
        let (before, chunks) = all_pushed(stream, frames.drop_last());
        let (after, posted) = before.pushed(frames.last());
        match posted {
            Some(chunk) => (after, chunks.push(chunk)),
            None => (after, chunks),
        }
    }
}

/// No sample is lost, sent twice or put out of order: what has been posted and what
/// is pending is what was pending and what was pushed since. Every chunk has at
/// least [`CHUNK_SAMPLES`] samples, however small the frames are, and less than
/// that is pending after each.
pub proof fn law_every_sample_is_posted_once(stream: Stream, frames: Seq<Seq<i16>>)
    requires
        stream.failed is None,
    ensures
        ({
            let (end, chunks) = all_pushed(stream, frames);
            &&& end == (Stream { pending: end.pending, ..stream })
            &&& chunks.flatten_alt() + end.pending == stream.pending + frames.flatten_alt()
            &&& forall|i: int|
                0 <= i < chunks.len() ==> (#[trigger] chunks[i]).len() >= CHUNK_SAMPLES
            &&& frames.len() > 0 ==> end.pending.len() < CHUNK_SAMPLES
        }),
    decreases frames.len(),
{
    let (end, chunks) = all_pushed(stream, frames);
    if frames.len() == 0 {
        assert(chunks.flatten_alt() + end.pending =~= stream.pending + frames.flatten_alt());
    } else {
        let (before, earlier) = all_pushed(stream, frames.drop_last());
        law_every_sample_is_posted_once(stream, frames.drop_last());
        let frame = frames.last();
        let start = earlier.flatten_alt();
        assert((start + before.pending) + frame =~= stream.pending + frames.flatten_alt());
        match before.pushed(frame).1 {
            Some(chunk) => {
                assert(chunks.drop_last() =~= earlier);
                assert(chunks.flatten_alt() =~= start + chunk);
                assert(end.pending =~= seq![]);
                assert(chunks.flatten_alt() + end.pending =~= (start + before.pending) + frame);
            },
            None => {
                assert(chunks.flatten_alt() + end.pending =~= (start + before.pending) + frame);
            },
        }
    }
}

/// Finalizing leaves nothing behind: with the last chunk, all that was pushed has
/// been posted, and only then is the transcript asked for.
pub proof fn law_finalizing_posts_the_rest(stream: Stream, frames: Seq<Seq<i16>>)
    requires
        stream.failed is None,
    ensures
        ({
            let (end, chunks) = all_pushed(stream, frames);
            let (last, rest) = end.flushed();
            &&& last.pending.len() == 0
            &&& match rest {
                Some(rest) => chunks.push(rest).flatten_alt() == stream.pending + frames.flatten_alt(),
                None => chunks.flatten_alt() == stream.pending + frames.flatten_alt(),
            }
        }),
{
    law_every_sample_is_posted_once(stream, frames);
    let (end, chunks) = all_pushed(stream, frames);
    match end.flushed().1 {
        Some(rest) => {
            assert(chunks.push(rest).drop_last() =~= chunks);
        },
        None => {
            assert(chunks.flatten_alt() + end.pending =~= chunks.flatten_alt());
        },
    }
}

/// What the server hears is what was pushed: it reads from the body of a chunk
/// those samples that the client has put there.
pub proof fn law_server_hears_what_was_posted(samples: Seq<i16>)
    ensures
        pcm(samples).len() % 2 == 0,
        samples_of(pcm(samples)) == samples,
{
    law_pcm_round_trip(samples);
}

/// A stream that has failed stays as it is: nothing more is posted, and the first
/// cause is the one that is reported.
pub proof fn law_failed_stream_is_silent(
    stream: Stream,
    frame: Seq<i16>,
    outcome: ChunkOutcome,
)
    requires
        stream.failed is Some,
    ensures
        stream.pushed(frame) == (stream, None::<Seq<i16>>),
        stream.flushed() == (stream, None::<Seq<i16>>),
        stream.sent(outcome) == stream,
{
}

/// What the client asks for is what the server offers: its paths are those of the
/// server's routes, with the name of the session for `{id}`.
pub proof fn law_client_and_server_share_their_paths(stream: Stream, translate: bool)
    ensures
        batch_path(translate) == if translate {
            Route::Translations.pattern()
        } else {
            Route::Transcriptions.pattern()
        },
        stream.asked("/audio"@, None).url == stream.target.base_url + Route::StreamAudio.path_for(
            stream.id,
        ),
        stream.asked("/events"@, None).url == stream.target.base_url
            + Route::StreamEvents.path_for(stream.id),
        stream.asked("/finalize"@, None).url == stream.target.base_url
            + Route::FinalizeStream.path_for(stream.id),
        stream.asked("/cancel"@, None).url == stream.target.base_url
            + Route::CancelStream.path_for(stream.id),
{
    reveal_strlit("/handy/v1/stream/");
    reveal_strlit("{id}");
    reveal_strlit("/audio");
    reveal_strlit("/events");
    reveal_strlit("/finalize");
    reveal_strlit("/cancel");
    reveal_strlit("/handy/v1/stream/{id}/audio");
    reveal_strlit("/handy/v1/stream/{id}/events");
    reveal_strlit("/handy/v1/stream/{id}/finalize");
    reveal_strlit("/handy/v1/stream/{id}/cancel");
    let start = "/handy/v1/stream/"@;
    let marked = start + "{id}"@;
    assert(marked + "/audio"@ =~= Route::StreamAudio.pattern());
    assert(marked + "/events"@ =~= Route::StreamEvents.pattern());
    assert(marked + "/finalize"@ =~= Route::FinalizeStream.pattern());
    assert(marked + "/cancel"@ =~= Route::CancelStream.pattern());
    lemma_with_id(start, "/audio"@, stream.id);
    lemma_with_id(start, "/events"@, stream.id);
    lemma_with_id(start, "/finalize"@, stream.id);
    lemma_with_id(start, "/cancel"@, stream.id);
}

/// Client and server agree on the outcome of a stream: the client has a transcript
/// exactly if the server has one that says something, and it is the same.
pub proof fn law_client_gets_what_the_server_has(text: Option<Seq<char>>)
    ensures
        usable_text(told_text(text), !says_something(text)) == if says_something(text) {
            text
        } else {
            None
        },
{
}

proof fn lemma_slashes_cut(text: Seq<char>) -> (cut: int)
    ensures
        0 <= cut <= text.len(),
        without_slashes(text) == text.take(cut),
        forall|i: int| cut <= i < text.len() ==> #[trigger] text[i] == '/',
        cut > 0 ==> text[cut - 1] != '/',
    decreases text.len(),
{
    if text.len() > 0 && text.last() == '/' {
        let shorter = text.drop_last();
        let cut = lemma_slashes_cut(shorter);
        assert(shorter.take(cut) =~= text.take(cut));
        assert forall|i: int| cut <= i < text.len() implies #[trigger] text[i] == '/' by {
            if i < shorter.len() {
                assert(shorter[i] == text[i]);
            }
        }
        cut
    } else {
        assert(text.take(text.len() as int) =~= text);
        text.len() as int
    }
}

/// Of what the user typed, the white space around it is left out and then the slashes at
/// its end: all of these, and nothing else.
pub proof fn law_typed_address_loses_slashes_only(raw: Seq<char>) -> (cut: int)
    ensures
        0 <= cut <= trimmed(raw).len(),
        typed(raw) == trimmed(raw).take(cut),
        forall|i: int| cut <= i < trimmed(raw).len() ==> #[trigger] trimmed(raw)[i] == '/',
        cut > 0 ==> trimmed(raw)[cut - 1] != '/',
{
    lemma_slashes_cut(trimmed(raw))
}

/// An address with a scheme is taken as it was typed, whatever the scheme is; without
/// one, plain HTTP is put before it, and nothing else. That is what is parsed, and what
/// comes out if there is a host in it. What is not accepted is named in the refusal.
pub proof fn law_scheme_is_kept_or_added(raw: Seq<char>, host: Option<Option<Seq<char>>>)
    ensures
        occurs(typed(raw), "://"@) ==> with_scheme(raw) == typed(raw),
        !occurs(typed(raw), "://"@) ==> with_scheme(raw) == "http://"@ + typed(raw),
        typed(raw).len() == 0 ==> address(raw, host) == Err::<Seq<char>, Seq<char>>(
            "No server address configured. Set it in Settings → Networked inference."@,
        ),
        typed(raw).len() > 0 ==> {
            &&& host is None ==> address(raw, host) == Err::<Seq<char>, Seq<char>>(
                "'"@ + raw + "' is not a valid server address"@,
            )
            &&& host == Some(None::<Seq<char>>) ==> address(raw, host) == Err::<
                Seq<char>,
                Seq<char>,
            >("'"@ + raw + "' has no host"@)
            &&& host matches Some(Some(_)) ==> address(raw, host) == Ok::<Seq<char>, Seq<char>>(
                with_scheme(raw),
            )
        },
{
    if typed(raw).len() > 0 {
        lemma_no_slash_at_the_end(trimmed(raw));
        assert(with_scheme(raw).last() == typed(raw).last());
    }
}

/// A target is made of the settings as they are, but for a timeout of zero, which
/// counts as one second.
pub proof fn law_target_is_what_was_set(settings: &AppSettings, base_url: Seq<char>)
    ensures
        target_of(settings, base_url).base_url == base_url,
        target_of(settings, base_url).token == settings.client_token@,
        target_of(settings, base_url).model == settings.client_model@,
        settings.client_timeout_secs > 0 ==> target_of(settings, base_url).timeout_secs
            == settings.client_timeout_secs,
        settings.client_timeout_secs == 0 ==> target_of(settings, base_url).timeout_secs == 1,
{
}

/// Every request goes to the server of its target, with the token of that target, and
/// has the time that was meant for it.
pub proof fn law_requests_go_to_their_target(
    target: Target,
    stream: Stream,
    probe: Probe,
    path: Seq<char>,
    timeout_secs: Option<u64>,
)
    ensures
        target.asked(path, timeout_secs).url == target.base_url + path,
        target.asked(path, timeout_secs).token == target.token,
        target.asked(path, timeout_secs).timeout_secs == timeout_secs,
        stream.asked(path, timeout_secs).url == stream.target.base_url + ("/handy/v1/stream/"@
            + stream.id + path),
        stream.asked(path, timeout_secs).token == stream.target.token,
        stream.asked(path, timeout_secs).timeout_secs == timeout_secs,
        probe.asked(path).url == probe.base_url@ + path,
        probe.asked(path).token == probe.token@,
        probe.asked(path).timeout_secs == Some(15u64),
{
}

/// A batch request uploads the whole recording, however long it is: the file is the WAV
/// file of all the samples. It goes to the endpoint for the language that is wanted,
/// names the model if one is set, and the language if it is known.
pub proof fn law_batch_uploads_the_whole_recording(
    r: BatchRequest,
    target: Target,
    language: Seq<char>,
    translate: bool,
    samples: Seq<i16>,
)
    requires
        asks_for(r, target, language, translate, samples),
    ensures
        r.file@ == wav_file(16_000, samples),
        r.request.url@ == target.base_url + if translate {
            "/v1/audio/translations"@
        } else {
            "/v1/audio/transcriptions"@
        },
        r.request.token@ == target.token,
        r.request.timeout_secs == Some(target.timeout_secs),
        r.file_name@ == "audio.wav"@,
        r.media_type@ == "audio/wav"@,
        target.model.len() == 0 ==> r.model is None,
        target.model.len() > 0 ==> (r.model matches Some(model) && model@ == target.model),
        language == "auto"@ ==> r.language is None,
        language != "auto"@ ==> (r.language matches Some(named) && named@ == language),
{
}

/// A request has succeeded exactly if its status is one of the two hundreds.
pub proof fn law_success_is_two_hundred(status: u16)
    ensures
        success(status) <==> status / 100 == 2,
{
}

/// A refusal says what was asked for and with which status it was answered. If the
/// server gave a message, it says that; otherwise the first three hundred characters of
/// the body, as far as there are any.
pub proof fn law_refusals_say_why(
    context: Seq<char>,
    status_text: Seq<char>,
    body: Seq<char>,
    found: Option<Seq<char>>,
)
    ensures
        found matches Some(message) && message.len() > 0 ==> failure_text(
            context,
            status_text,
            body,
            found,
        ) == context + ": "@ + status_text + " — "@ + found->Some_0,
        found is None && 0 < body.len() <= 300 ==> failure_text(context, status_text, body, found)
            == context + ": "@ + status_text + " — "@ + body,
        found is None && body.len() > 300 ==> failure_text(context, status_text, body, found)
            == context + ": "@ + status_text + " — "@ + body.subrange(0, 300),
        (found matches Some(message) && message.len() == 0) || (found is None && body.len() == 0)
            ==> failure_text(context, status_text, body, found) == context + ": server returned "@
            + status_text,
{
    if body.len() > 300 {
        assert(body.take(300) =~= body.subrange(0, 300));
    }
}

/// The message of a refusal is the `message` of the `error` in the body; a body that
/// could not be read counts as empty.
pub proof fn law_refusals_quote_the_server(context: Seq<char>, reply: Reply)
    ensures
        reply.body matches Some(body) ==> refusal(context, reply) == failure_text(
            context,
            reply.status_text@,
            body@,
            json_text(body@, "error"@, "message"@),
        ),
        reply.body is None ==> refusal(context, reply) == failure_text(
            context,
            reply.status_text@,
            Seq::<char>::empty(),
            json_text(Seq::<char>::empty(), "error"@, "message"@),
        ),
{
}

/// A successful answer always gives a transcript, if its body can be read: the text that
/// it states, or, for a server that sends bare text, the body without the white space
/// around it. Any other answer gives none, and says why.
pub proof fn law_successful_answers_give_a_transcript(
    base_url: Seq<char>,
    reply: Option<Reply>,
    said: Option<Seq<char>>,
)
    ensures
        reply is None ==> transcript(base_url, reply, said) == Err::<Seq<char>, Seq<char>>(
            "could not reach transcription server at "@ + base_url,
        ),
        reply matches Some(reply) ==> {
            let outcome = transcript(base_url, Some(reply), said);
            &&& reply.status < 200 || reply.status > 299 ==> outcome == Err::<
                Seq<char>,
                Seq<char>,
            >(refusal("remote transcription failed"@, reply))
            &&& 200 <= reply.status <= 299 ==> match (reply.body, said) {
                (None, _) => outcome == Err::<Seq<char>, Seq<char>>(
                    "failed to read server response"@,
                ),
                (Some(_), Some(text)) => outcome == Ok::<Seq<char>, Seq<char>>(text),
                (Some(body), None) => outcome == Ok::<Seq<char>, Seq<char>>(trimmed(body@)),
            }
        },
{
}

/// The events that end a session are the transcript and an error, whatever they say.
pub proof fn law_final_and_error_end_a_session(event: RemoteStreamEvent)
    ensures
        event is Final ==> event.terminal(),
        event is Error ==> event.terminal(),
        event is Text ==> !event.terminal(),
        event is Phase ==> !event.terminal(),
{
}

/// What is pending is posted as soon as there is a quarter of a second of it, all of it
/// at once, and not before. Only the audio changes: the session stays the same.
pub proof fn law_a_chunk_is_a_quarter_of_a_second(stream: Stream, frame: Seq<i16>)
    requires
        stream.failed is None,
    ensures
        stream.pending.len() + frame.len() >= 4_000 ==> {
            &&& stream.pushed(frame).1 == Some(stream.pending + frame)
            &&& stream.pushed(frame).0 == (Stream { pending: Seq::<i16>::empty(), ..stream })
        },
        stream.pending.len() + frame.len() < 4_000 ==> {
            &&& stream.pushed(frame).1 is None
            &&& stream.pushed(frame).0 == (Stream { pending: stream.pending + frame, ..stream })
        },
        stream.pending.len() > 0 ==> {
            &&& stream.flushed().1 == Some(stream.pending)
            &&& stream.flushed().0 == (Stream { pending: Seq::<i16>::empty(), ..stream })
        },
        stream.pending.len() == 0 ==> stream.flushed() == (stream, None::<Seq<i16>>),
{
}

/// A chunk carries all the samples that are posted and no others, to the session it
/// belongs to.
pub proof fn law_a_chunk_carries_its_samples(
    stream: Stream,
    samples: Option<Seq<i16>>,
    r: Option<ChunkPost>,
)
    requires
        stream.posts(samples, r),
    ensures
        samples is None <==> r is None,
        samples matches Some(samples) ==> (r matches Some(chunk) && {
            &&& chunk.body@.len() == 2 * samples.len()
            &&& samples_of(chunk.body@) == samples
            &&& chunk.body@ == pcm(samples)
            &&& chunk.request.url@ == stream.target.base_url + ("/handy/v1/stream/"@ + stream.id
                + "/audio"@)
            &&& chunk.request.token@ == stream.target.token
            &&& chunk.request.timeout_secs == Some(stream.target.timeout_secs)
        }),
{
    if let Some(samples) = samples {
        law_pcm_round_trip(samples);
    }
}

/// A chunk that gets through changes nothing. The first that does not is what the
/// session has failed for; what is pending stays as it is.
pub proof fn law_the_first_failure_is_kept(stream: Stream, outcome: ChunkOutcome)
    requires
        stream.failed is None,
    ensures
        match outcome {
            ChunkOutcome::Answered { status, status_text } => {
                &&& 200 <= status <= 299 ==> stream.sent(outcome) == stream
                &&& status < 200 || status > 299 ==> stream.sent(outcome) == (Stream {
                    failed: Some("server rejected audio chunk ("@ + status_text@ + ")"@),
                    ..stream
                })
            },
            ChunkOutcome::Lost { reason } => stream.sent(outcome) == (Stream {
                failed: Some("lost connection to server: "@ + reason@),
                ..stream
            }),
        },
{
}

/// A finalized stream has a transcript exactly if the server does not ask to fall back
/// and its text is more than white space; then it is that text, unchanged.
pub proof fn law_blank_transcripts_fall_back(text: Seq<char>, fallback: bool)
    ensures
        usable_text(text, fallback) is Some <==> !fallback && exists|i: int|
            0 <= i < text.len() && !white_space(#[trigger] text[i]),
        usable_text(text, fallback) matches Some(usable) ==> usable == text,
{
    law_blank_text_is_white_space(text);
}

/// What comes out is known by what it says, and what is asked for by what it holds.
pub proof fn law_requests_are_known_by_what_they_hold(
    outcome: Result<String, String>,
    host: Option<Option<String>>,
    target: RemoteTarget,
    request: RemoteRequest,
)
    ensures
        outcome matches Ok(text) ==> text_result(outcome) == Ok::<Seq<char>, Seq<char>>(text@),
        outcome matches Err(message) ==> text_result(outcome) == Err::<Seq<char>, Seq<char>>(
            message@,
        ),
        host is None <==> host_view(host) is None,
        host matches Some(found) ==> host_view(host) == Some(optional_text(found)),
        target@.base_url == target.base_url@,
        target@.token == target.token@,
        target@.model == target.model@,
        target@.timeout_secs == target.timeout_secs,
        request@.url == request.url@,
        request@.token == request.token@,
        request@.timeout_secs == request.timeout_secs,
{
}

/// The file that is uploaded is that of the whole recording, however long it is, and it
/// goes to the target with its token and its timeout.
pub proof fn law_the_whole_recording_is_uploaded(
    target: RemoteTarget,
    language: &str,
    translate: bool,
    samples: &[i16],
    r: Result<BatchRequest, String>,
)
    requires
        fits_in_wav(samples@.len() as int),
        call_ensures(batch_request, (&target, language, translate, samples), r),
    ensures
        r matches Ok(request) && {
            &&& request.file@ == wav_file(16_000, samples@)
            &&& request.file@.len() == 44 + 2 * samples@.len()
            &&& samples_of(request.file@.skip(44)) == samples@
            &&& request.request.url@ == target.base_url@ + if translate {
                "/v1/audio/translations"@
            } else {
                "/v1/audio/transcriptions"@
            }
            &&& request.request.token@ == target.token@
            &&& request.request.timeout_secs == Some(target.timeout_secs)
            &&& request.file_name@ == "audio.wav"@
            &&& request.media_type@ == "audio/wav"@
            &&& match request.model {
                Some(model) => model@ == target.model@ && target.model@.len() > 0,
                None => target.model@.len() == 0,
            }
            &&& match request.language {
                Some(named) => named@ == language@ && language@ != "auto"@,
                None => language@ == "auto"@,
            }
        },
{
    lemma_recordings_fill_their_file(samples@);
}

proof fn lemma_recordings_fill_their_file(samples: Seq<i16>)
    requires
        fits_in_wav(samples.len() as int),
    ensures
        wav_file(16_000, samples).len() == 44 + 2 * samples.len(),
        samples_of(wav_file(16_000, samples).skip(44)) == samples,
{
    law_files_hold_all_the_samples(16_000, samples);
}

/// A transcription uploads the whole recording, with what is set for the client, to the
/// server that the user typed.
pub proof fn law_transcriptions_use_the_settings(
    settings: &AppSettings,
    samples: &[i16],
    r: Result<BatchRequest, String>,
)
    requires
        fits_in_wav(samples@.len() as int),
        call_ensures(transcribe, (settings, samples), r),
    ensures
        r matches Ok(request) ==> {
            &&& request.file@ == wav_file(16_000, samples@)
            &&& settings.translate_to_english ==> request.request.url@ == with_scheme(
                settings.client_base_url@,
            ) + "/v1/audio/translations"@
            &&& !settings.translate_to_english ==> request.request.url@ == with_scheme(
                settings.client_base_url@,
            ) + "/v1/audio/transcriptions"@
            &&& request.request.token@ == settings.client_token@
            &&& request.request.timeout_secs == Some(
                if settings.client_timeout_secs == 0 {
                    1
                } else {
                    settings.client_timeout_secs
                },
            )
        },
        r is Ok <==> typed(settings.client_base_url@).len() > 0 && (url_host(
            with_scheme(settings.client_base_url@),
        ) matches Some(Some(_))),
{
    let raw = settings.client_base_url@;
    law_scheme_is_kept_or_added(raw, url_host(with_scheme(raw)));
}

/// Live text is only had from Handy's own server, and only if that offers it. What is
/// found out is what the server says of itself, and only a server that answers neither
/// with success nor by rejecting the token is asked for its models.
pub proof fn law_only_handys_server_streams(
    probe: Probe,
    reply: Option<Reply>,
    info: Option<RemoteServerInfo>,
    step: ProbeStep,
)
    requires
        call_ensures(Probe::info_reply, (&probe, reply, info), step),
    ensures
        step matches ProbeStep::Finished(Ok(found)) ==> (info matches Some(said) && {
            &&& found.streaming <==> said.streaming && said.server@ == "handy"@
            &&& found.server == said.server
            &&& found.version == said.version
            &&& found.loaded_model == said.loaded_model
        }),
        step matches ProbeStep::Finished(Ok(_)) <==> (reply matches Some(reply) && 200
            <= reply.status <= 299 && info is Some),
        step is AskForModels <==> (reply matches Some(reply) && !(200 <= reply.status <= 299)
            && reply.status != 401),
        step matches ProbeStep::Finished(Err(message)) ==> message@ == match reply {
            None => "could not reach "@ + probe.base_url@,
            Some(reply) => if reply.status == 401 {
                "server rejected the token"@
            } else {
                "server sent a malformed info response"@
            },
        },
{
}

/// A server that lists its models can be used, but not for live text; its models are
/// passed on as they are.
pub proof fn law_servers_with_models_can_be_used(
    probe: Probe,
    reply: Option<Reply>,
    models: Option<Vec<RemoteModel>>,
    info: Result<RemoteServerInfo, String>,
    listed: Result<Vec<RemoteModel>, String>,
)
    requires
        call_ensures(Probe::models_reply, (&probe, reply), info),
        call_ensures(list_models, (&probe, reply, models), listed),
    ensures
        info is Ok <==> (reply matches Some(reply) && 200 <= reply.status <= 299),
        info matches Ok(found) ==> found.server@ == "openai-compatible"@ && found.version@.len()
            == 0 && found.loaded_model is None && !found.streaming,
        listed is Ok <==> info is Ok && models is Some,
        listed matches Ok(list) ==> models == Some(list),
        reply is None ==> (info matches Err(message) && message@ == "could not reach "@
            + probe.base_url@),
        reply is None ==> (listed matches Err(message) && message@ == "could not reach "@
            + probe.base_url@),
        reply matches Some(got) && !(200 <= got.status <= 299) ==> {
            &&& info matches Err(message) && message@ == refusal(
                "server is not usable"@,
                reply->Some_0,
            )
            &&& listed matches Err(message) && message@ == refusal(
                "could not list server models"@,
                reply->Some_0,
            )
        },
{
}

/// A session is entered exactly if the server has opened it and named it. It begins with
/// nothing pending.
pub proof fn law_sessions_begin_empty(
    target: RemoteTarget,
    reply: Option<Reply>,
    id: Option<String>,
    r: Result<StreamSession, String>,
)
    requires
        call_ensures(StreamSession::open, (target, reply, id), r),
    ensures
        r is Ok <==> (reply matches Some(reply) && 200 <= reply.status <= 299 && id is Some),
        r matches Ok(session) ==> {
            &&& Some(session@.id) == optional_text(id)
            &&& session@.pending.len() == 0
            &&& session@.failed is None
            &&& session@.target.base_url == target.base_url@
            &&& session@.target.token == target.token@
            &&& session@.target.timeout_secs == target.timeout_secs
        },
{
}

/// A frame is pending until there is a quarter of a second, and then all of it is posted
/// at once, to the session and with its token. Once a chunk has failed, nothing is.
pub proof fn law_frames_are_posted_in_chunks(
    session: &mut StreamSession,
    frame: &[i16],
    posted: Option<ChunkPost>,
)
    requires
        call_ensures(StreamSession::push, (session, frame), posted),
    ensures
        ({
            let all = old(session)@.pending + frame@;
            let live = old(session)@.failed is None;
            &&& posted is Some <==> live && all.len() >= 4_000
            &&& posted matches Some(chunk) ==> {
                &&& samples_of(chunk.body@) == all
                &&& chunk.body@.len() == 2 * all.len()
                &&& chunk.request.url@ == old(session)@.target.base_url + ("/handy/v1/stream/"@
                    + old(session)@.id + "/audio"@)
                &&& chunk.request.token@ == old(session)@.target.token
                &&& final(session)@.pending.len() == 0
            }
            &&& live && posted is None ==> final(session)@.pending == all
            &&& !live ==> final(session)@ == old(session)@
            &&& final(session)@.target == old(session)@.target
            &&& final(session)@.id == old(session)@.id
            &&& final(session)@.failed == old(session)@.failed
        }),
{
    law_pcm_round_trip(old(session)@.pending + frame@);
}

/// A stream is finalized in two steps: what is pending is posted, and when nothing is,
/// the transcript is asked for. A stream that has failed says why.
pub proof fn law_finalizing_posts_before_it_asks(session: &mut StreamSession, step: FinalizeStep)
    requires
        call_ensures(StreamSession::finalize, (session,), step),
    ensures
        step is Failed <==> old(session)@.failed is Some,
        step is Post <==> old(session)@.failed is None && old(session)@.pending.len() > 0,
        step is Ask <==> old(session)@.failed is None && old(session)@.pending.len() == 0,
        step matches FinalizeStep::Failed { reason } ==> old(session)@.failed == Some(reason@),
        step matches FinalizeStep::Post(chunk) ==> samples_of(chunk.body@) == old(session)@.pending
            && final(session)@.pending.len() == 0,
        step matches FinalizeStep::Ask(request) ==> {
            &&& request.url@ == old(session)@.target.base_url + ("/handy/v1/stream/"@ + old(
                session,
            )@.id + "/finalize"@)
            &&& request.token@ == old(session)@.target.token
            &&& request.timeout_secs == Some(old(session)@.target.timeout_secs)
        },
{
    law_pcm_round_trip(old(session)@.pending);
}

/// The first chunk that does not get through is what the stream has failed for; later
/// ones do not matter.
pub proof fn law_only_failures_are_noted(session: &mut StreamSession, outcome: ChunkOutcome)
    requires
        call_ensures(StreamSession::chunk_sent, (session, outcome), ()),
    ensures
        final(session)@.pending == old(session)@.pending,
        final(session)@.id == old(session)@.id,
        final(session)@.target == old(session)@.target,
        old(session)@.failed is Some ==> final(session)@.failed == old(session)@.failed,
        old(session)@.failed is None ==> match outcome {
            ChunkOutcome::Answered { status, status_text } => if 200 <= status <= 299 {
                final(session)@.failed is None
            } else {
                final(session)@.failed == Some(
                    "server rejected audio chunk ("@ + status_text@ + ")"@,
                )
            },
            ChunkOutcome::Lost { reason } => final(session)@.failed == Some(
                "lost connection to server: "@ + reason@,
            ),
        },
{
}

/// The events of a session are waited for without a limit; to abandon it is not.
pub proof fn law_events_may_take_their_time(
    session: StreamSession,
    events: RemoteRequest,
    cancel: RemoteRequest,
)
    requires
        call_ensures(StreamSession::events, (&session,), events),
        call_ensures(StreamSession::cancel, (session,), cancel),
    ensures
        events.url@ == session@.target.base_url + ("/handy/v1/stream/"@ + session@.id + "/events"@),
        events.token@ == session@.target.token,
        events.timeout_secs is None,
        cancel.url@ == session@.target.base_url + ("/handy/v1/stream/"@ + session@.id + "/cancel"@),
        cancel.token@ == session@.target.token,
        cancel.timeout_secs == Some(15u64),
{
}

/// A finalized stream gives the server's text, unless the server could not be reached,
/// has refused, or says that there is none.
pub proof fn law_finalized_streams_give_the_text(
    reply: Option<Reply>,
    answer: Option<FinalizedStream>,
    r: Result<Option<String>, String>,
)
    requires
        call_ensures(finalized, (reply, answer), r),
    ensures
        r is Ok <==> (reply matches Some(reply) && 200 <= reply.status <= 299 && answer is Some),
        r matches Ok(Some(text)) ==> (answer matches Some(said) && text@ == said.text@
            && !said.fallback),
        r matches Ok(None) ==> (answer matches Some(said) && (said.fallback || forall|i: int|
            0 <= i < said.text@.len() ==> white_space(#[trigger] said.text@[i]))),
        answer matches Some(said) && said.fallback ==> !(r matches Ok(Some(_))),
{
    if let Some(said) = answer {
        law_blank_text_is_white_space(said.text@);
    }
}

/// A session is asked for with what is set for the client: the server, the token, the
/// model and the language.
pub proof fn law_sessions_use_the_settings(settings: &AppSettings, r: Result<OpenRequest, String>)
    requires
        call_ensures(open_session, (settings,), r),
    ensures
        r matches Ok(open) ==> {
            &&& open.target.base_url@ == with_scheme(settings.client_base_url@)
            &&& open.request.url@ == with_scheme(settings.client_base_url@) + "/handy/v1/stream"@
            &&& open.request.token@ == settings.client_token@
            &&& open.request.timeout_secs == Some(15u64)
            &&& open.target.token@ == settings.client_token@
            &&& open.model@ == settings.client_model@
            &&& open.language@ == settings.selected_language@
        },
{
    let raw = settings.client_base_url@;
    law_scheme_is_kept_or_added(raw, url_host(with_scheme(raw)));
}

/// A successful answer gives the text that it states or, without one, its body; any other
/// gives the reason.
pub proof fn law_answers_give_their_text(
    base_url: &str,
    reply: Option<Reply>,
    said: Option<String>,
    r: Result<String, String>,
)
    requires
        call_ensures(transcript_of, (base_url, reply, said), r),
    ensures
        r is Ok <==> (reply matches Some(got) && 200 <= got.status <= 299 && got.body is Some),
        r matches Ok(text) ==> match said {
            Some(stated) => text@ == stated@,
            None => text@ == trimmed(reply->Some_0.body->Some_0@),
        },
        reply is None ==> (r matches Err(message) && message@
            == "could not reach transcription server at "@ + base_url@),
        reply matches Some(got) && !(200 <= got.status <= 299) ==> (r matches Err(message)
            && message@ == refusal("remote transcription failed"@, reply->Some_0)),
        reply matches Some(got) && 200 <= got.status <= 299 && got.body is None ==> (
        r matches Err(message) && message@ == "failed to read server response"@),
{
    law_successful_answers_give_a_transcript(base_url@, reply, optional_text(said));
}

/// A probe asks the server that was typed, with the token that was typed, and waits for
/// fifteen seconds.
pub proof fn law_probes_ask_what_was_typed(
    base_url: &str,
    token: &str,
    r: Result<Probe, String>,
    probe: Probe,
    about: RemoteRequest,
    models: RemoteRequest,
)
    requires
        call_ensures(self::probe, (base_url, token), r),
        call_ensures(Probe::info_request, (&probe,), about),
        call_ensures(Probe::models_request, (&probe,), models),
    ensures
        r is Ok <==> typed(base_url@).len() > 0 && (url_host(
            with_scheme(base_url@),
        ) matches Some(Some(_))),
        r matches Ok(begun) ==> begun.base_url@ == with_scheme(base_url@) && begun.token@ == token@,
        about.url@ == probe.base_url@ + "/handy/v1/info"@,
        models.url@ == probe.base_url@ + "/v1/models"@,
        about.token@ == probe.token@ && models.token@ == probe.token@,
        about.timeout_secs == Some(15u64) && models.timeout_secs == Some(15u64),
{
    law_scheme_is_kept_or_added(base_url@, url_host(with_scheme(base_url@)));
}

/// What is said of a refused request is what the server says of it, or else how its
/// answer begins.
pub proof fn law_failures_are_described(
    context: &str,
    status_text: &str,
    body: &str,
    found: Option<String>,
    r: String,
)
    requires
        call_ensures(describe_failure, (context, status_text, body, found), r),
    ensures
        found matches Some(message) && message@.len() > 0 ==> r@ == context@ + ": "@ + status_text@
            + " — "@ + found->Some_0@,
        found is None && 0 < body@.len() <= 300 ==> r@ == context@ + ": "@ + status_text@ + " — "@
            + body@,
        found is None && body@.len() > 300 ==> r@ == context@ + ": "@ + status_text@ + " — "@
            + body@.subrange(0, 300),
        found is None && body@.len() == 0 ==> r@ == context@ + ": server returned "@ + status_text@,
{
    law_refusals_say_why(context@, status_text@, body@, optional_text(found));
}

} // verus!
