//! The OpenAI-compatible half of the server, and the discovery endpoints.
//!
//! It deviates from OpenAI's audio API where it would otherwise be silently
//! wrong: only WAV uploads are decoded, options that the engine does not have are
//! ignored, and a model that is not downloaded is an error rather than a
//! download.

use vstd::prelude::*;

use crate::server::auth::{ApiError, Failure};
use crate::server::streaming::TranscribeOverrides;
use crate::text::{joined, lowercase, optional_text, same_text, trim, trimmed};
use crate::wav::{
    decode_wav_bytes, decoded, fits_in_wav, is_wav, law_decoding_passes_on_what_was_read,
    law_encoded_audio_looks_like_wav, looks_like_wav, recording_format_spec, wav_file, wav_header,
    wav_samples, widened, Decoded, DecodedWav, WavError, WavFormat, TARGET_SAMPLE_RATE,
};

verus! {

/// The largest upload that is taken. At 16 kHz and 16 bits this is roughly eight
/// hours of audio.
pub const MAX_UPLOAD_BYTES: usize = 1024 * 1024 * 1024;

/// The fields of a form that are looked at.
#[derive(Clone, Copy, Debug, PartialEq, Eq, Structural)]
pub enum FieldKind {
    File,
    Model,
    Language,
    ResponseFormat,
    /// Accepted and ignored.
    Other,
}

/// The kind of the field with the given name.
pub open spec fn kind_of_field(name: Seq<char>) -> FieldKind {
    if name == "file"@ {
        FieldKind::File
    } else if name == "model"@ {
        FieldKind::Model
    } else if name == "language"@ {
        FieldKind::Language
    } else if name == "response_format"@ {
        FieldKind::ResponseFormat
    } else {
        FieldKind::Other
    }
}

/// Tells what kind of field has the given name.
pub fn field_kind(name: &str) -> (r: FieldKind)
    ensures
        r == kind_of_field(name@),
{
    if same_text(name, "file") {
        FieldKind::File
    } else if same_text(name, "model") {
        FieldKind::Model
    } else if same_text(name, "language") {
        FieldKind::Language
    } else if same_text(name, "response_format") {
        FieldKind::ResponseFormat
    } else {
        FieldKind::Other
    }
}

/// What the client asked for, as far as its form has been read.
pub struct TranscriptionForm {
    audio: Option<usize>,
    model: Option<String>,
    language: Option<String>,
    response_format: String,
}

/// What there is to know of a [`TranscriptionForm`].
pub struct Form {
    /// How many samples the uploaded audio has.
    pub audio: Option<usize>,
    pub model: Option<Seq<char>>,
    pub language: Option<Seq<char>>,
    pub response_format: Seq<char>,
}

impl View for TranscriptionForm {
    type V = Form;

    closed spec fn view(&self) -> Form {
        Form {
            audio: self.audio,
            model: optional_text(self.model),
            language: optional_text(self.language),
            response_format: self.response_format@,
        }
    }
}

impl Form {
    /// The form with a text field filled in. The text is trimmed; an empty language
    /// means that it is to be detected.
    pub open spec fn with_text(self, kind: FieldKind, value: Seq<char>) -> Form {
        let text = trimmed(value);
        match kind {
            FieldKind::Model => Form { model: Some(text), ..self },
            FieldKind::Language => Form {
                language: Some(
                    if text.len() == 0 {
                        "auto"@
                    } else {
                        text
                    },
                ),
                ..self
            },
            FieldKind::ResponseFormat => Form { response_format: text, ..self },
            _ => self,
        }
    }

    /// What is wrong with a form of which nothing more comes.
    pub open spec fn fault(self) -> Option<Failure> {
        match self.audio {
            None => Some(Failure::bad_request("missing 'file' field"@)),
            Some(count) => if count == 0 {
                Some(Failure::bad_request("upload contained no audio samples"@))
            } else {
                None
            },
        }
    }
}

/// A request for a transcription.
pub struct TranscriptionRequest {
    /// How many samples the audio has.
    pub sample_count: usize,
    pub model: Option<String>,
    pub language: Option<String>,
    /// `json`, `text` or `verbose_json`.
    pub response_format: String,
}

/// What is said of an upload that is not a WAV file.
pub open spec fn not_wav(filename: Seq<char>) -> Seq<char> {
    let name = lowercase(filename);
    "only WAV uploads are supported (got '"@ + (if name.len() == 0 {
        "unknown"@
    } else {
        name
    }) + "'); convert with `ffmpeg -i in.mp3 -ar 16000 -ac 1 out.wav`"@
}

/// What is wrong with an upload of the given bytes, if anything is, as far as it
/// can be told without reading floating-point samples.
pub open spec fn upload_fault(filename: Seq<char>, bytes: Seq<u8>) -> Option<Failure> {
    if !looks_like_wav(bytes) {
        Some(Failure::unsupported_media(not_wav(filename)))
    } else {
        match decoded(wav_header(bytes), wav_samples(bytes)) {
            Ok(_) => None,
            Err(reason) => Some(Failure::bad_request("invalid WAV: "@ + reason)),
        }
    }
}

/// Answers a form that could not be taken apart.
pub fn malformed_body(reason: &str) -> (r: ApiError)
    ensures
        r@ == Failure::bad_request("malformed multipart body: "@ + reason@),
{
    ApiError::bad_request(joined("malformed multipart body: ", reason).as_str())
}

/// Answers an upload that did not arrive.
pub fn unreadable_upload(reason: &str) -> (r: ApiError)
    ensures
        r@ == Failure::bad_request("could not read upload: "@ + reason@),
{
    ApiError::bad_request(joined("could not read upload: ", reason).as_str())
}

/// Answers an upload that could not be decoded.
pub fn invalid_wav(reason: &str) -> (r: ApiError)
    ensures
        r@ == Failure::bad_request("invalid WAV: "@ + reason@),
{
    ApiError::bad_request(joined("invalid WAV: ", reason).as_str())
}

/// Takes what was decoded of an upload, or answers why it could not be.
pub fn accept_decoded(result: Result<DecodedWav, WavError>) -> (r: Result<DecodedWav, ApiError>)
    ensures
        match result {
            Ok(wav) => r == Ok::<DecodedWav, ApiError>(wav),
            Err(error) => r matches Err(answer) && answer@ == Failure::bad_request(
                "invalid WAV: "@ + error.text(),
            ),
        },
{
    match result {
        Ok(wav) => Ok(wav),
        Err(error) => Err(invalid_wav(error.message().as_str())),
    }
}

/// Takes the uploaded file. What it is, is told from its first bytes rather than
/// from its name, so that a mislabelled upload is called unsupported and not
/// invalid.
///
/// What a client of this library uploads is always taken, and gives back the
/// samples that the client has recorded.
pub fn accept_upload(filename: &str, bytes: &[u8]) -> (r: Result<DecodedWav, ApiError>)
    ensures
        match upload_fault(filename@, bytes@) {
            Some(failure) => r matches Err(error) && error@ == failure,
            None => r matches Ok(wav) && decoded(wav_header(bytes@), wav_samples(bytes@)) == Ok::<
                Decoded,
                Seq<char>,
            >(wav@),
        },
        forall|samples: Seq<i16>|
            bytes@ == #[trigger] wav_file(TARGET_SAMPLE_RATE, samples) && fits_in_wav(
                samples.len() as int,
            ) ==> (r matches Ok(wav) && wav.format == recording_format_spec() && wav.integers@
                == widened(samples)),
{
    proof {
        assert forall|samples: Seq<i16>|
            bytes@ == #[trigger] wav_file(TARGET_SAMPLE_RATE, samples) implies looks_like_wav(
            bytes@,
        ) by {
            law_encoded_audio_looks_like_wav(TARGET_SAMPLE_RATE, samples);
        }
    }
    if !is_wav(bytes) {
        let lower = filename.to_lowercase();
        let name = if lower.as_str().is_empty() {
            "unknown"
        } else {
            lower.as_str()
        };
        let start = joined("only WAV uploads are supported (got '", name);
        let message = joined(
            start.as_str(),
            "'); convert with `ffmpeg -i in.mp3 -ar 16000 -ac 1 out.wav`",
        );
        return Err(ApiError::unsupported_media(message.as_str()));
    }
    accept_decoded(decode_wav_bytes(bytes))
}

impl TranscriptionForm {
    /// A form of which nothing has been read: no audio, and a plain JSON answer.
    pub fn new() -> (r: TranscriptionForm)
        ensures
            r@ == (Form { audio: None, model: None, language: None, response_format: "json"@ }),
    {
        TranscriptionForm {
            audio: None,
            model: None,
            language: None,
            response_format: "json".to_owned(),
        }
    }

    /// Takes note of the uploaded audio, of which only the last counts.
    pub fn set_audio(&mut self, sample_count: usize)
        ensures
            final(self)@ == (Form { audio: Some(sample_count), ..old(self)@ }),
    {
        self.audio = Some(sample_count);
    }

    /// Takes the text of the field with the given name, or answers why it could not
    /// be read.
    pub fn text_field(&mut self, name: &str, value: Result<String, String>) -> (r: Result<
        (),
        ApiError,
    >)
        ensures
            match value {
                Ok(text) => r is Ok && final(self)@ == old(self)@.with_text(
                    kind_of_field(name@),
                    text@,
                ),
                Err(reason) => final(self)@ == old(self)@ && (r matches Err(error) && error@
                    == Failure::bad_request("invalid '"@ + name@ + "' field: "@ + reason@)),
            },
    {
        let text = match value {
            Ok(text) => text,
            Err(reason) => {
                let start = joined("invalid '", name);
                let middle = joined(start.as_str(), "' field: ");
                return Err(ApiError::bad_request(joined(middle.as_str(), reason.as_str()).as_str()));
            },
        };
        let text = trim(text.as_str());
        match field_kind(name) {
            FieldKind::Model => {
                self.model = Some(text.to_owned());
            },
            FieldKind::Language => {
                if text.is_empty() {
                    self.language = Some("auto".to_owned());
                } else {
                    self.language = Some(text.to_owned());
                }
            },
            FieldKind::ResponseFormat => {
                self.response_format = text.to_owned();
            },
            _ => {},
        }
        Ok(())
    }

    /// Makes a request of a form of which nothing more comes.
    pub fn finish(self) -> (r: Result<TranscriptionRequest, ApiError>)
        ensures
            match self@.fault() {
                Some(failure) => r matches Err(error) && error@ == failure,
                None => {
                    &&& r matches Ok(request)
                    &&& Some(request.sample_count) == self@.audio
                    &&& optional_text(request.model) == self@.model
                    &&& optional_text(request.language) == self@.language
                    &&& request.response_format@ == self@.response_format
                },
            },
    {
        match self.audio {
            None => Err(ApiError::bad_request("missing 'file' field")),
            Some(sample_count) => {
                if sample_count == 0 {
                    return Err(ApiError::bad_request("upload contained no audio samples"));
                }
                Ok(
                    TranscriptionRequest {
                        sample_count,
                        model: self.model,
                        language: self.language,
                        response_format: self.response_format,
                    },
                )
            },
        }
    }
}

/// What a transcription asks of the engine: the language of the request, and that
/// the work is done here. A server that is itself a client must not pass the
/// request on, or two of them could pass it round in circles.
pub fn transcriptions(language: Option<String>) -> (r: TranscribeOverrides)
    ensures
        r == (TranscribeOverrides { language, translate_to_english: None, force_local: true }),
{
    TranscribeOverrides { language, translate_to_english: None, force_local: true }
}

/// What a translation asks of the engine: the same, but in English.
pub fn translations(language: Option<String>) -> (r: TranscribeOverrides)
    ensures
        r == (TranscribeOverrides {
            language,
            translate_to_english: Some(true),
            force_local: true,
        }),
{
    TranscribeOverrides { language, translate_to_english: Some(true), force_local: true }
}

/// How a transcription came out.
pub enum TranscribeOutcome {
    /// It did not run to its end.
    TaskFailed { reason: String },
    /// The engine failed.
    Failed { reason: String },
    Finished { text: String },
}

/// A transcript in the form that was asked for.
pub enum Rendered {
    Text { text: String },
    Json { text: String },
    /// Without the segments and timings that the engine does not tell.
    VerboseJson { task: String, text: String },
}

/// Whether a transcript is rendered as it was asked for; plain JSON is what an
/// unknown format gets.
pub open spec fn renders(r: Rendered, text: Seq<char>, response_format: Seq<char>) -> bool {
    if response_format == "text"@ {
        r matches Rendered::Text { text: shown } && shown@ == text
    } else if response_format == "verbose_json"@ {
        r matches Rendered::VerboseJson { task, text: shown } && task@ == "transcribe"@ && shown@
            == text
    } else {
        r matches Rendered::Json { text: shown } && shown@ == text
    }
}

/// Renders a transcript in the form that was asked for.
pub fn render(text: String, response_format: &str) -> (r: Rendered)
    ensures
        renders(r, text@, response_format@),
{
    if same_text(response_format, "text") {
        Rendered::Text { text }
    } else if same_text(response_format, "verbose_json") {
        Rendered::VerboseJson { task: "transcribe".to_owned(), text }
    } else {
        Rendered::Json { text }
    }
}

/// Answers a transcription request once the engine is done with it.
pub fn transcription_reply(outcome: TranscribeOutcome, response_format: &str) -> (r: Result<
    Rendered,
    ApiError,
>)
    ensures
        match outcome {
            TranscribeOutcome::TaskFailed { reason } => r matches Err(error) && error@
                == Failure::internal("transcription task failed: "@ + reason@),
            TranscribeOutcome::Failed { reason } => r matches Err(error) && error@
                == Failure::internal("transcription failed: "@ + reason@),
            TranscribeOutcome::Finished { text } => r matches Ok(shown) && renders(
                shown,
                text@,
                response_format@,
            ),
        },
{
    match outcome {
        TranscribeOutcome::TaskFailed { reason } => Err(
            ApiError::internal(joined("transcription task failed: ", reason.as_str()).as_str()),
        ),
        TranscribeOutcome::Failed { reason } => Err(
            ApiError::internal(joined("transcription failed: ", reason.as_str()).as_str()),
        ),
        TranscribeOutcome::Finished { text } => Ok(render(text, response_format)),
    }
}

/// A model of the serving machine.
#[derive(Debug)]
pub struct ModelInfo {
    pub id: String,
    pub name: String,
    pub is_downloaded: bool,
    pub supports_translation: bool,
}

/// Whether the engine has to load the requested model, given the one it has and
/// what is known of the requested one; or why it cannot.
pub open spec fn model_step(
    current: Option<Seq<char>>,
    model_id: Seq<char>,
    is_downloaded: Option<bool>,
) -> Result<bool, Failure> {
    if current == Some(model_id) {
        Ok(false)
    } else {
        match is_downloaded {
            None => Err(Failure::not_found("unknown model '"@ + model_id + "'"@)),
            Some(false) => Err(
                Failure::not_found("model '"@ + model_id + "' is not downloaded on the server"@),
            ),
            Some(true) => Ok(true),
        }
    }
}

/// A decision to load a model, an error taken by what it says.
pub open spec fn step_view(r: Result<bool, ApiError>) -> Result<bool, Failure> {
    match r {
        Ok(load) => Ok(load),
        Err(error) => Err(error@),
    }
}

/// Decides whether the engine has to load the requested model. Only a model that
/// is downloaded can be requested: others are not found.
pub fn ensure_model_loaded(
    current: Option<&str>,
    model_id: &str,
    info: Option<&ModelInfo>,
) -> (load: Result<bool, ApiError>)
    ensures
        step_view(load) == model_step(
            match current {
                Some(id) => Some(id@),
                None => None,
            },
            model_id@,
            match info {
                Some(info) => Some(info.is_downloaded),
                None => None,
            },
        ),
{
    if let Some(id) = current {
        if same_text(id, model_id) {
            return Ok(false);
        }
    }
    match info {
        None => {
            let start = joined("unknown model '", model_id);
            Err(ApiError::not_found(joined(start.as_str(), "'").as_str()))
        },
        Some(info) => {
            if !info.is_downloaded {
                let start = joined("model '", model_id);
                let message = joined(start.as_str(), "' is not downloaded on the server");
                return Err(ApiError::not_found(message.as_str()));
            }
            Ok(true)
        },
    }
}

/// Answers a request whose model could not be loaded.
pub fn model_load_failed(model_id: &str, reason: &str) -> (r: ApiError)
    ensures
        r@ == Failure::internal("failed to load model '"@ + model_id@ + "': "@ + reason@),
{
    let start = joined("failed to load model '", model_id);
    let middle = joined(start.as_str(), "': ");
    ApiError::internal(joined(middle.as_str(), reason).as_str())
}

/// A model as it is listed.
#[derive(Debug)]
pub struct ModelEntry {
    pub id: String,
    pub object: &'static str,
    pub owned_by: &'static str,
    pub name: String,
    pub supports_translation: bool,
}

/// What there is to know of a listed model.
pub struct Entry {
    pub id: Seq<char>,
    pub object: Seq<char>,
    pub owned_by: Seq<char>,
    pub name: Seq<char>,
    pub supports_translation: bool,
}

impl View for ModelEntry {
    type V = Entry;

    open spec fn view(&self) -> Entry {
        Entry {
            id: self.id@,
            object: self.object@,
            owned_by: self.owned_by@,
            name: self.name@,
            supports_translation: self.supports_translation,
        }
    }
}

/// How a model is listed.
pub open spec fn entry_of(model: ModelInfo) -> Entry {
    Entry {
        id: model.id@,
        object: "model"@,
        owned_by: "handy"@,
        name: model.name@,
        supports_translation: model.supports_translation,
    }
}

/// The list of those models that are downloaded.
pub open spec fn listed(catalog: Seq<ModelInfo>) -> Seq<Entry>
    decreases catalog.len(),
{
    if catalog.len() == 0 {
        seq![]
    } else if catalog.last().is_downloaded {
        listed(catalog.drop_last()).push(entry_of(catalog.last()))
    } else {
        listed(catalog.drop_last())
    }
}

/// What a list of models says.
pub open spec fn entry_views(list: Seq<ModelEntry>) -> Seq<Entry> {
    Seq::new(list.len(), |i: int| list[i]@)
}

/// A list of models.
#[derive(Debug)]
pub struct ModelListing {
    pub object: &'static str,
    pub data: Vec<ModelEntry>,
}

/// Lists the models that are downloaded.
pub fn models(catalog: &[ModelInfo]) -> (r: ModelListing)
    ensures
        r.object@ == "list"@,
        entry_views(r.data@) == listed(catalog@),
{
    let mut data: Vec<ModelEntry> = Vec::new();
    let mut i: usize = 0;
    assert(entry_views(data@) =~= listed(catalog@.take(0)));
    while i < catalog.len()
        invariant
            i <= catalog@.len(),
            entry_views(data@) == listed(catalog@.take(i as int)),
        decreases catalog@.len() - i,
    {
        assert(catalog@.take(i + 1).drop_last() =~= catalog@.take(i as int));
        let model = &catalog[i];
        if model.is_downloaded {
            let ghost before = entry_views(data@);
            data.push(
                ModelEntry {
                    id: model.id.clone(),
                    object: "model",
                    owned_by: "handy",
                    name: model.name.clone(),
                    supports_translation: model.supports_translation,
                },
            );
            assert(entry_views(data@) =~= before.push(entry_of(*model)));
        }
        i = i + 1;
    }
    assert(catalog@.take(catalog@.len() as int) =~= catalog@);
    ModelListing { object: "list", data }
}

/// What a server says of itself.
#[derive(Debug)]
pub struct InfoReply {
    pub server: &'static str,
    pub version: String,
    /// Changes when the streaming protocol does.
    pub protocol: u32,
    pub loaded_model: Option<String>,
    pub default_model: String,
    pub streaming: bool,
    /// The media types that can be uploaded.
    pub accepts: Vec<&'static str>,
}

/// Describes this server.
pub fn info(version: &str, loaded_model: Option<String>, default_model: &str) -> (r: InfoReply)
    ensures
        r.server@ == "handy"@,
        r.version@ == version@,
        r.protocol == 1,
        r.loaded_model == loaded_model,
        r.default_model@ == default_model@,
        r.streaming,
        r.accepts@.len() == 1,
        r.accepts@[0]@ == "audio/wav"@,
{
    let mut accepts: Vec<&'static str> = Vec::new();
    accepts.push("audio/wav");
    InfoReply {
        server: "handy",
        version: version.to_owned(),
        protocol: 1,
        loaded_model,
        default_model: default_model.to_owned(),
        streaming: true,
        accepts,
    }
}

/// The answer to a liveness probe. It needs no token, and tells nothing but that a
/// server is here.
#[derive(Debug)]
pub struct HealthReply {
    pub status: &'static str,
    pub server: &'static str,
}

/// Answers a liveness probe.
pub fn health() -> (r: HealthReply)
    ensures
        r.status@ == "ok"@,
        r.server@ == "handy"@,
{
    HealthReply { status: "ok", server: "handy" }
}

/// Nothing but a WAV file is ever decoded: whatever else is uploaded, under
/// whatever name, is answered as unsupported.
pub proof fn law_other_media_are_unsupported(filename: Seq<char>, bytes: Seq<u8>)
    requires
        !looks_like_wav(bytes),
    ensures
        upload_fault(filename, bytes) matches Some(failure) && failure.status == 415,
{
}

/// A model that is listed can be requested, and one that is not listed and not
/// loaded is not found.
pub proof fn law_only_downloaded_models_are_served(
    current: Option<Seq<char>>,
    model: ModelInfo,
)
    ensures
        model.is_downloaded ==> model_step(current, model.id@, Some(model.is_downloaded)) is Ok,
        !model.is_downloaded && current != Some(model.id@) ==> (model_step(
            current,
            model.id@,
            Some(model.is_downloaded),
        ) matches Err(failure) && failure.status == 404),
        current != Some(model.id@) ==> (model_step(current, model.id@, None) matches Err(failure)
            && failure.status == 404),
{
}

/// The list holds a model exactly if it is downloaded.
pub proof fn law_list_holds_the_downloaded_models(catalog: Seq<ModelInfo>, entry: Entry)
    ensures
        listed(catalog).contains(entry) <==> exists|i: int|
            0 <= i < catalog.len() && (#[trigger] catalog[i]).is_downloaded && entry_of(catalog[i])
                == entry,
    decreases catalog.len(),
{
    if catalog.len() > 0 {
        let shorter = catalog.drop_last();
        law_list_holds_the_downloaded_models(shorter, entry);
        let before = listed(shorter);
        let last = catalog.len() - 1;
        assert(forall|i: int| 0 <= i < shorter.len() ==> shorter[i] == catalog[i]);
        if catalog.last().is_downloaded {
            let all = before.push(entry_of(catalog.last()));
            assert(all[before.len() as int] == entry_of(catalog.last()));
            assert(forall|j: int| 0 <= j < before.len() ==> all[j] == before[j]);
            if before.contains(entry) {
                let j = choose|j: int| 0 <= j < before.len() && before[j] == entry;
                assert(all[j] == entry);
            }
            assert(catalog[last].is_downloaded);
        }
    }
}

/// A field is told by its name, and there is one name for each that is looked at.
pub proof fn law_fields_are_told_by_their_name(name: Seq<char>)
    ensures
        kind_of_field(name) == FieldKind::File <==> name == "file"@,
        kind_of_field(name) == FieldKind::Model <==> name == "model"@,
        kind_of_field(name) == FieldKind::Language <==> name == "language"@,
        kind_of_field(name) == FieldKind::ResponseFormat <==> name == "response_format"@,
        kind_of_field(name) == FieldKind::Other <==> name != "file"@ && name != "model"@ && name
            != "language"@ && name != "response_format"@,
{
    reveal_strlit("file");
    reveal_strlit("model");
    reveal_strlit("language");
    reveal_strlit("response_format");
    assert("file"@.len() == 4 && "model"@.len() == 5);
    assert("language"@.len() == 8 && "response_format"@.len() == 15);
}

/// A text field fills in what it is for, without the white space around it, and leaves
/// the rest of the form as it is. An empty language asks for its detection.
pub proof fn law_text_fields_fill_in_one_thing(form: Form, value: Seq<char>)
    ensures
        ({
            let filled = form.with_text(FieldKind::Model, value);
            &&& filled.model == Some(trimmed(value))
            &&& filled.audio == form.audio
            &&& filled.language == form.language
            &&& filled.response_format == form.response_format
        }),
        ({
            let filled = form.with_text(FieldKind::Language, value);
            &&& trimmed(value).len() > 0 ==> filled.language == Some(trimmed(value))
            &&& trimmed(value).len() == 0 ==> filled.language == Some("auto"@)
            &&& filled.audio == form.audio
            &&& filled.model == form.model
            &&& filled.response_format == form.response_format
        }),
        ({
            let filled = form.with_text(FieldKind::ResponseFormat, value);
            &&& filled.response_format == trimmed(value)
            &&& filled.audio == form.audio
            &&& filled.model == form.model
            &&& filled.language == form.language
        }),
        form.with_text(FieldKind::File, value) == form,
        form.with_text(FieldKind::Other, value) == form,
{
}

/// A form is in order exactly if it came with audio that has samples, whatever else it
/// holds.
pub proof fn law_a_form_needs_audio(form: Form)
    ensures
        form.fault() is None <==> (form.audio matches Some(count) && count > 0),
        form.fault() matches Some(failure) ==> failure.status == 400,
        form.audio is None ==> (form.fault() matches Some(failure) && failure.message
            == "missing 'file' field"@),
        form.audio == Some(0usize) ==> (form.fault() matches Some(failure) && failure.message
            == "upload contained no audio samples"@),
{
}

/// An upload is refused exactly if it is not a WAV file or cannot be decoded. The first
/// is answered with the name of the file, the second with the reason.
pub proof fn law_refused_uploads_are_told_why(filename: Seq<char>, bytes: Seq<u8>)
    ensures
        upload_fault(filename, bytes) is None <==> looks_like_wav(bytes) && decoded(
            wav_header(bytes),
            wav_samples(bytes),
        ) is Ok,
        !looks_like_wav(bytes) && lowercase(filename).len() > 0 ==> (upload_fault(
            filename,
            bytes,
        ) matches Some(failure) && failure.message == "only WAV uploads are supported (got '"@
            + lowercase(filename)
            + "'); convert with `ffmpeg -i in.mp3 -ar 16000 -ac 1 out.wav`"@),
        !looks_like_wav(bytes) && lowercase(filename).len() == 0 ==> (upload_fault(
            filename,
            bytes,
        ) matches Some(failure) && failure.message == "only WAV uploads are supported (got '"@
            + "unknown"@ + "'); convert with `ffmpeg -i in.mp3 -ar 16000 -ac 1 out.wav`"@),
        looks_like_wav(bytes) ==> (decoded(wav_header(bytes), wav_samples(bytes)) matches Err(
            reason,
        ) ==> (upload_fault(filename, bytes) matches Some(failure) && failure.status == 400
            && failure.message == "invalid WAV: "@ + reason)),
{
}

/// A transcript is rendered in one form, whatever was asked for, and always in full:
/// plain text for `text`, with the task for `verbose_json`, and plain JSON for
/// everything else.
pub proof fn law_transcripts_are_rendered_in_full(
    r: Rendered,
    text: Seq<char>,
    response_format: Seq<char>,
)
    requires
        renders(r, text, response_format),
    ensures
        r is Text <==> response_format == "text"@,
        r is VerboseJson <==> response_format == "verbose_json"@,
        r is Json <==> response_format != "text"@ && response_format != "verbose_json"@,
        match r {
            Rendered::Text { text: shown } => shown@ == text,
            Rendered::Json { text: shown } => shown@ == text,
            Rendered::VerboseJson { task, text: shown } => shown@ == text && task@
                == "transcribe"@,
        },
{
    reveal_strlit("text");
    reveal_strlit("verbose_json");
    assert("text"@.len() != "verbose_json"@.len());
}

/// A model is loaded exactly if it is downloaded and not loaded already; what cannot be
/// had is named in the refusal.
pub proof fn law_models_are_loaded_when_they_change(
    current: Option<Seq<char>>,
    model_id: Seq<char>,
    is_downloaded: Option<bool>,
)
    ensures
        model_step(current, model_id, is_downloaded) == Ok::<bool, Failure>(false) <==> current
            == Some(model_id),
        model_step(current, model_id, is_downloaded) == Ok::<bool, Failure>(true) <==> current
            != Some(model_id) && is_downloaded == Some(true),
        current != Some(model_id) && is_downloaded is None ==> (model_step(
            current,
            model_id,
            is_downloaded,
        ) matches Err(failure) && failure.status == 404 && failure.message == "unknown model '"@
            + model_id + "'"@),
        current != Some(model_id) && is_downloaded == Some(false) ==> (model_step(
            current,
            model_id,
            is_downloaded,
        ) matches Err(failure) && failure.status == 404 && failure.message == "model '"@ + model_id
            + "' is not downloaded on the server"@),
{
}

/// The list keeps the order of the catalog, each model with its own name: the list of
/// two catalogs in a row is that of the first and then that of the second.
pub proof fn law_the_list_keeps_the_order(
    first: Seq<ModelInfo>,
    second: Seq<ModelInfo>,
    model: ModelInfo,
)
    ensures
        listed(first + second) == listed(first) + listed(second),
        !model.is_downloaded ==> listed(seq![model]) == Seq::<Entry>::empty(),
        model.is_downloaded ==> listed(seq![model]).len() == 1 && {
            let entry = listed(seq![model])[0];
            &&& entry.id == model.id@
            &&& entry.name == model.name@
            &&& entry.supports_translation == model.supports_translation
            &&& entry.object == "model"@
            &&& entry.owned_by == "handy"@
        },
    decreases second.len(),
{
    reveal_with_fuel(listed, 2);
    assert(seq![model].drop_last() =~= seq![]);
    if second.len() == 0 {
        assert(first + second =~= first);
    } else {
        law_the_list_keeps_the_order(first, second.drop_last(), model);
        assert((first + second).drop_last() =~= first + second.drop_last());
        assert((first + second).last() == second.last());
    }
}

/// A decision and a list are known by what they say.
pub proof fn law_answers_are_known_by_what_they_say(
    step: Result<bool, ApiError>,
    list: Seq<ModelEntry>,
    i: int,
)
    ensures
        step matches Ok(load) ==> step_view(step) == Ok::<bool, Failure>(load),
        step matches Err(error) ==> (step_view(step) matches Err(failure) && failure.status
            == error.status && failure.kind == error.error.kind@ && failure.message
            == error.error.message@),
        entry_views(list).len() == list.len(),
        0 <= i < list.len() ==> {
            &&& entry_views(list)[i].id == list[i].id@
            &&& entry_views(list)[i].object == list[i].object@
            &&& entry_views(list)[i].owned_by == list[i].owned_by@
            &&& entry_views(list)[i].name == list[i].name@
            &&& entry_views(list)[i].supports_translation == list[i].supports_translation
        },
{
}

/// A form makes a request exactly if it came with audio; the request is what the form
/// says.
pub proof fn law_requests_are_what_the_form_says(
    form: TranscriptionForm,
    r: Result<TranscriptionRequest, ApiError>,
)
    requires
        call_ensures(TranscriptionForm::finish, (form,), r),
    ensures
        r is Ok <==> (form@.audio matches Some(count) && count > 0),
        r matches Ok(request) ==> {
            &&& form@.audio == Some(request.sample_count)
            &&& form@.response_format == request.response_format@
            &&& match request.model {
                Some(model) => form@.model == Some(model@),
                None => form@.model is None,
            }
            &&& match request.language {
                Some(language) => form@.language == Some(language@),
                None => form@.language is None,
            }
        },
        r matches Err(error) ==> error.status == 400,
        form@.audio is None ==> r->Err_0.error.message@ == "missing 'file' field"@,
        form@.audio == Some(0usize) ==> r->Err_0.error.message@
            == "upload contained no audio samples"@,
{
}

/// The text of a field goes where its name says, trimmed, and nowhere else.
pub proof fn law_fields_go_where_their_name_says(
    form: &mut TranscriptionForm,
    name: &str,
    value: Result<String, String>,
    r: Result<(), ApiError>,
)
    requires
        call_ensures(TranscriptionForm::text_field, (form, name, value), r),
    ensures
        r is Ok <==> value is Ok,
        final(form)@.audio == old(form)@.audio,
        value is Err ==> final(form)@ == old(form)@,
        value matches Err(reason) ==> r->Err_0.status == 400 && r->Err_0.error.message@
            == "invalid '"@ + name@ + "' field: "@ + reason@,
        value matches Ok(text) ==> {
            &&& final(form)@.model == if name@ == "model"@ {
                Some(trimmed(text@))
            } else {
                old(form)@.model
            }
            &&& final(form)@.response_format == if name@ == "response_format"@ {
                trimmed(text@)
            } else {
                old(form)@.response_format
            }
            &&& final(form)@.language == if name@ == "language"@ {
                Some(
                    if trimmed(text@).len() == 0 {
                        "auto"@
                    } else {
                        trimmed(text@)
                    },
                )
            } else {
                old(form)@.language
            }
        },
{
    law_fields_are_told_by_their_name(name@);
}

/// Both endpoints ask for the language of the request and for this machine's own engine;
/// only a translation asks for English.
pub proof fn law_requests_are_served_here(
    language: Option<String>,
    plain: TranscribeOverrides,
    english: TranscribeOverrides,
)
    requires
        call_ensures(transcriptions, (language,), plain),
        call_ensures(translations, (language,), english),
    ensures
        plain.force_local && english.force_local,
        plain.language == language && english.language == language,
        plain.translate_to_english is None,
        english.translate_to_english == Some(true),
{
}

/// A finished transcription is answered with its whole text, in the form that was asked
/// for; a failed one with the reason.
pub proof fn law_transcriptions_are_answered(
    outcome: TranscribeOutcome,
    response_format: &str,
    r: Result<Rendered, ApiError>,
)
    requires
        call_ensures(transcription_reply, (outcome, response_format), r),
    ensures
        r is Ok <==> outcome is Finished,
        r matches Ok(shown) ==> {
            let said = outcome->Finished_text@;
            &&& shown is Text <==> response_format@ == "text"@
            &&& shown is VerboseJson <==> response_format@ == "verbose_json"@
            &&& shown matches Rendered::Text { text } ==> text@ == said
            &&& shown matches Rendered::Json { text } ==> text@ == said
            &&& shown matches Rendered::VerboseJson { task, text } ==> text@ == said && task@
                == "transcribe"@
        },
        r matches Err(error) ==> error.status == 500,
        outcome matches TranscribeOutcome::TaskFailed { reason } ==> r->Err_0.error.message@
            == "transcription task failed: "@ + reason@,
        outcome matches TranscribeOutcome::Failed { reason } ==> r->Err_0.error.message@
            == "transcription failed: "@ + reason@,
{
    if let Ok(shown) = r {
        law_transcripts_are_rendered_in_full(shown, outcome->Finished_text@, response_format@);
    }
}

/// A model is loaded exactly if it is another than the loaded one and is downloaded; one
/// that is not downloaded or not known is not found.
pub proof fn law_requested_models_are_loaded(
    current: Option<&str>,
    model_id: &str,
    info: Option<&ModelInfo>,
    load: Result<bool, ApiError>,
)
    requires
        call_ensures(ensure_model_loaded, (current, model_id, info), load),
    ensures
        ({
            let same = current matches Some(id) && id@ == model_id@;
            &&& same <==> (load matches Ok(loading) && !loading)
            &&& !same && (info matches Some(model) && model.is_downloaded) <==> (
            load matches Ok(loading) && loading)
            &&& load matches Err(error) ==> {
                &&& error.status == 404
                &&& info is None ==> error.error.message@ == "unknown model '"@ + model_id@ + "'"@
                &&& info is Some ==> error.error.message@ == "model '"@ + model_id@
                    + "' is not downloaded on the server"@
            }
        }),
{
}

/// What the server says of itself: what it is called, what it speaks and what it takes,
/// besides the version and the models it is told.
pub proof fn law_the_server_describes_itself(
    version: &str,
    loaded_model: Option<String>,
    default_model: &str,
    r: InfoReply,
)
    requires
        call_ensures(info, (version, loaded_model, default_model), r),
    ensures
        r.server@ == "handy"@,
        r.version@ == version@,
        r.protocol == 1,
        r.loaded_model == loaded_model,
        r.default_model@ == default_model@,
        r.streaming,
        r.accepts@.len() == 1 && r.accepts@[0]@ == "audio/wav"@,
{
}

/// The reasons that are given for a refusal are the ones that were found.
pub proof fn law_refusals_give_the_reason(
    model_id: &str,
    reason: &str,
    body: ApiError,
    upload: ApiError,
    wav: ApiError,
    load: ApiError,
)
    requires
        call_ensures(malformed_body, (reason,), body),
        call_ensures(unreadable_upload, (reason,), upload),
        call_ensures(invalid_wav, (reason,), wav),
        call_ensures(model_load_failed, (model_id, reason), load),
    ensures
        body.status == 400 && body.error.message@ == "malformed multipart body: "@ + reason@,
        upload.status == 400 && upload.error.message@ == "could not read upload: "@ + reason@,
        wav.status == 400 && wav.error.message@ == "invalid WAV: "@ + reason@,
        load.status == 500 && load.error.message@ == "failed to load model '"@ + model_id@ + "': "@
            + reason@,
{
}

/// An upload is taken exactly if it is a WAV file that can be decoded; then it comes with
/// all of its samples.
pub proof fn law_uploads_are_taken_with_their_samples(
    filename: &str,
    bytes: &[u8],
    r: Result<DecodedWav, ApiError>,
)
    requires
        call_ensures(accept_upload, (filename, bytes), r),
    ensures
        !looks_like_wav(bytes@) ==> (r matches Err(error) && error.status == 415),
        looks_like_wav(bytes@) ==> (r matches Err(error) ==> error.status == 400),
        r matches Ok(wav) ==> {
            &&& looks_like_wav(bytes@)
            &&& wav_header(bytes@) == Ok::<WavFormat, Seq<char>>(wav.format)
            &&& !wav.format.is_float ==> wav_samples(bytes@) == Ok::<Seq<i32>, Seq<char>>(
                wav.integers@,
            )
        },
{
    law_decoding_passes_on_what_was_read(wav_header(bytes@), wav_samples(bytes@));
}

/// Exactly the downloaded models are listed, in the order of the catalog, each with its
/// own id and name.
pub proof fn law_downloaded_models_are_listed(catalog: &[ModelInfo], r: ModelListing, i: int)
    requires
        call_ensures(models, (catalog,), r),
    ensures
        r.object@ == "list"@,
        r.data@.len() <= catalog@.len(),
        (forall|k: int| 0 <= k < catalog@.len() ==> (#[trigger] catalog@[k]).is_downloaded)
            ==> r.data@.len() == catalog@.len(),
        0 <= i < r.data@.len() ==> exists|k: int|
            0 <= k < catalog@.len() && (#[trigger] catalog@[k]).is_downloaded && {
                &&& r.data@[i].id@ == catalog@[k].id@
                &&& r.data@[i].name@ == catalog@[k].name@
                &&& r.data@[i].supports_translation == catalog@[k].supports_translation
                &&& r.data@[i].object@ == "model"@
                &&& r.data@[i].owned_by@ == "handy"@
            },
        0 <= i < catalog@.len() && catalog@[i].is_downloaded ==> exists|k: int|
            0 <= k < r.data@.len() && (#[trigger] r.data@[k]).id@ == catalog@[i].id@,
{
    let entries = entry_views(r.data@);
    lemma_no_more_than_the_catalog(catalog@);
    if 0 <= i < r.data@.len() {
        assert(entries[i] == r.data@[i]@);
        assert(entries.contains(entries[i]));
        law_list_holds_the_downloaded_models(catalog@, entries[i]);
    }
    if 0 <= i < catalog@.len() && catalog@[i].is_downloaded {
        let entry = entry_of(catalog@[i]);
        law_list_holds_the_downloaded_models(catalog@, entry);
        assert(entries.contains(entry));
        let k = choose|k: int| 0 <= k < entries.len() && entries[k] == entry;
        assert(r.data@[k]@ == entries[k]);
        assert(r.data@[k].id@ == entry.id);
    }
}

proof fn lemma_no_more_than_the_catalog(catalog: Seq<ModelInfo>)
    ensures
        listed(catalog).len() <= catalog.len(),
        (forall|k: int| 0 <= k < catalog.len() ==> (#[trigger] catalog[k]).is_downloaded) ==> listed(
            catalog,
        ).len() == catalog.len(),
    decreases catalog.len(),
{
    if catalog.len() > 0 {
        let shorter = catalog.drop_last();
        lemma_no_more_than_the_catalog(shorter);
        assert(forall|k: int| 0 <= k < shorter.len() ==> shorter[k] == catalog[k]);
        assert(catalog.last() == catalog[catalog.len() - 1]);
    }
}

/// A form begins without audio, model and language, and asks for plain JSON; audio that
/// comes is noted, and nothing else changes.
pub proof fn law_forms_begin_empty(
    empty: TranscriptionForm,
    form: &mut TranscriptionForm,
    sample_count: usize,
    probe: HealthReply,
)
    requires
        call_ensures(TranscriptionForm::new, (), empty),
        call_ensures(TranscriptionForm::set_audio, (form, sample_count), ()),
        call_ensures(health, (), probe),
    ensures
        empty@.audio is None,
        empty@.model is None,
        empty@.language is None,
        empty@.response_format == "json"@,
        final(form)@.audio == Some(sample_count),
        final(form)@.model == old(form)@.model,
        final(form)@.language == old(form)@.language,
        final(form)@.response_format == old(form)@.response_format,
        probe.status@ == "ok"@,
        probe.server@ == "handy"@,
{
}

} // verus!
