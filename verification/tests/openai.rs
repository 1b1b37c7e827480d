use handy_net::server::openai::{
    accept_decoded, accept_upload, ensure_model_loaded, field_kind, health, info, invalid_wav,
    malformed_body, model_load_failed, models, render, transcription_reply, transcriptions,
    translations, unreadable_upload, FieldKind, ModelInfo, Rendered, TranscribeOutcome,
    TranscriptionForm, MAX_UPLOAD_BYTES,
};
use handy_net::wav::{encode_wav_bytes, WavError};

fn model(id: &str, is_downloaded: bool) -> ModelInfo {
    ModelInfo {
        id: id.to_string(),
        name: format!("Model {id}"),
        is_downloaded,
        supports_translation: id == "large",
    }
}

fn text(value: &str) -> Result<String, String> {
    Ok(value.to_string())
}

#[test]
fn a_form_becomes_a_request() {
    let mut form = TranscriptionForm::new();
    form.text_field("model", text(" small ")).unwrap();
    form.text_field("language", text("it")).unwrap();
    form.text_field("response_format", text("text\n")).unwrap();
    form.text_field("prompt", text("ignored")).unwrap();
    form.set_audio(0);
    form.set_audio(16_000);
    let request = form.finish().unwrap();
    assert_eq!(request.sample_count, 16_000);
    assert_eq!(request.model.as_deref(), Some("small"));
    assert_eq!(request.language.as_deref(), Some("it"));
    assert_eq!(request.response_format, "text");
}

#[test]
fn a_form_has_defaults() {
    let mut form = TranscriptionForm::new();
    form.set_audio(1);
    let request = form.finish().unwrap();
    assert_eq!(request.model, None);
    assert_eq!(request.language, None);
    assert_eq!(request.response_format, "json");

    let mut form = TranscriptionForm::new();
    form.text_field("language", text("  ")).unwrap();
    form.text_field("model", text("")).unwrap();
    form.set_audio(1);
    let request = form.finish().unwrap();
    assert_eq!(request.language.as_deref(), Some("auto"));
    assert_eq!(request.model.as_deref(), Some(""));
}

#[test]
fn an_incomplete_form_is_refused() {
    let error = TranscriptionForm::new().finish().err().unwrap();
    assert_eq!(error.status, 400);
    assert_eq!(error.error.message, "missing 'file' field");

    let mut form = TranscriptionForm::new();
    form.set_audio(0);
    let error = form.finish().err().unwrap();
    assert_eq!(error.status, 400);
    assert_eq!(error.error.message, "upload contained no audio samples");

    let mut form = TranscriptionForm::new();
    let error = form
        .text_field("model", Err("bad text".to_string()))
        .unwrap_err();
    assert_eq!(error.status, 400);
    assert_eq!(error.error.message, "invalid 'model' field: bad text");

    assert_eq!(
        malformed_body("cut off").error.message,
        "malformed multipart body: cut off"
    );
    assert_eq!(
        unreadable_upload("cut off").error.message,
        "could not read upload: cut off"
    );
    assert_eq!(malformed_body("").status, 400);
    assert_eq!(unreadable_upload("").status, 400);
}

#[test]
fn fields_are_known_by_name() {
    assert_eq!(field_kind("file"), FieldKind::File);
    assert_eq!(field_kind("model"), FieldKind::Model);
    assert_eq!(field_kind("language"), FieldKind::Language);
    assert_eq!(field_kind("response_format"), FieldKind::ResponseFormat);
    assert_eq!(field_kind("temperature"), FieldKind::Other);
    assert_eq!(field_kind(""), FieldKind::Other);
}

#[test]
fn only_wav_uploads_are_decoded() {
    let wav = encode_wav_bytes(&[5, -5]).unwrap();
    assert_eq!(accept_upload("x.mp3", &wav).unwrap().integers, [5, -5]);

    let error = accept_upload("Voice.MP3", b"ID3 and more bytes").unwrap_err();
    assert_eq!(error.status, 415);
    assert_eq!(
        error.error.message,
        "only WAV uploads are supported (got 'voice.mp3'); convert with \
         `ffmpeg -i in.mp3 -ar 16000 -ac 1 out.wav`"
    );
    let error = accept_upload("", b"").unwrap_err();
    assert!(error.error.message.contains("(got 'unknown')"));

    let error = accept_upload("a.wav", b"RIFF\x04\x00\x00\x00WAVE").unwrap_err();
    assert_eq!(error.status, 400);
    assert!(error.error.message.starts_with("invalid WAV: "));
}

#[test]
fn what_was_decoded_is_passed_on() {
    let wav = encode_wav_bytes(&[9]).unwrap();
    let decoded = handy_net::wav::decode_wav_bytes(&wav);
    assert_eq!(accept_decoded(decoded).unwrap().integers, [9]);
    let error = accept_decoded(Err(WavError::NoChannels)).unwrap_err();
    assert_eq!(error.status, 400);
    assert_eq!(
        error.error.message,
        "invalid WAV: WAV declares zero channels"
    );
    assert_eq!(invalid_wav("why").error.message, "invalid WAV: why");
}

#[test]
fn requests_are_never_passed_on_to_another_server() {
    let plain = transcriptions(Some("it".to_string()));
    assert_eq!(plain.language.as_deref(), Some("it"));
    assert_eq!(plain.translate_to_english, None);
    assert!(plain.force_local);
    let english = translations(None);
    assert_eq!(english.language, None);
    assert_eq!(english.translate_to_english, Some(true));
    assert!(english.force_local);
}

#[test]
fn transcripts_are_rendered_as_asked_for() {
    let said = || "hello".to_string();
    assert!(matches!(render(said(), "text"), Rendered::Text { text } if text == "hello"));
    assert!(matches!(render(said(), "json"), Rendered::Json { text } if text == "hello"));
    assert!(matches!(render(said(), "srt"), Rendered::Json { text } if text == "hello"));
    match render(said(), "verbose_json") {
        Rendered::VerboseJson { task, text } => {
            assert_eq!(task, "transcribe");
            assert_eq!(text, "hello");
        }
        _ => panic!("not verbose"),
    }
}

#[test]
fn a_transcription_is_answered() {
    let finished = TranscribeOutcome::Finished {
        text: "hello".to_string(),
    };
    assert!(matches!(
        transcription_reply(finished, "text"),
        Ok(Rendered::Text { text }) if text == "hello"
    ));
    let failed = TranscribeOutcome::Failed {
        reason: "no model".to_string(),
    };
    let error = transcription_reply(failed, "json").err().unwrap();
    assert_eq!(error.status, 500);
    assert_eq!(error.error.message, "transcription failed: no model");
    let task = TranscribeOutcome::TaskFailed {
        reason: "panicked".to_string(),
    };
    let error = transcription_reply(task, "json").err().unwrap();
    assert_eq!(error.status, 500);
    assert_eq!(error.error.message, "transcription task failed: panicked");
}

#[test]
fn only_downloaded_models_are_served() {
    let small = model("small", true);
    let large = model("large", false);
    assert!(!ensure_model_loaded(Some("small"), "small", None).unwrap());
    assert!(ensure_model_loaded(Some("other"), "small", Some(&small)).unwrap());
    assert!(ensure_model_loaded(None, "small", Some(&small)).unwrap());

    let error = ensure_model_loaded(Some("small"), "large", Some(&large)).unwrap_err();
    assert_eq!(error.status, 404);
    assert_eq!(
        error.error.message,
        "model 'large' is not downloaded on the server"
    );
    let error = ensure_model_loaded(None, "nothing", None).unwrap_err();
    assert_eq!(error.status, 404);
    assert_eq!(error.error.message, "unknown model 'nothing'");

    let error = model_load_failed("small", "out of memory");
    assert_eq!(error.status, 500);
    assert_eq!(
        error.error.message,
        "failed to load model 'small': out of memory"
    );
}

#[test]
fn the_list_holds_the_downloaded_models() {
    let catalog = [
        model("tiny", true),
        model("medium", false),
        model("large", true),
    ];
    let listing = models(&catalog);
    assert_eq!(listing.object, "list");
    assert_eq!(listing.data.len(), 2);
    assert_eq!(listing.data[0].id, "tiny");
    assert_eq!(listing.data[0].object, "model");
    assert_eq!(listing.data[0].owned_by, "handy");
    assert_eq!(listing.data[0].name, "Model tiny");
    assert!(!listing.data[0].supports_translation);
    assert_eq!(listing.data[1].id, "large");
    assert!(listing.data[1].supports_translation);
    assert!(models(&[]).data.is_empty());
}

#[test]
fn the_server_describes_itself() {
    let reply = info("1.2.3", Some("small".to_string()), "large");
    assert_eq!(reply.server, "handy");
    assert_eq!(reply.version, "1.2.3");
    assert_eq!(reply.protocol, 1);
    assert_eq!(reply.loaded_model.as_deref(), Some("small"));
    assert_eq!(reply.default_model, "large");
    assert!(reply.streaming);
    assert_eq!(reply.accepts, ["audio/wav"]);

    let alive = health();
    assert_eq!(alive.status, "ok");
    assert_eq!(alive.server, "handy");
    assert_eq!(MAX_UPLOAD_BYTES, 1_073_741_824);
}
