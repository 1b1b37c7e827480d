use handy_net::pcm::pcm_samples;
use handy_net::remote_client::{
    check_address, describe_failure, error_for_status, finalized, list_models, normalize_base_url,
    open_session, probe, transcribe, transcript_of, ChunkOutcome, ChunkPost, FinalizeStep,
    ProbeStep, RemoteModel, RemoteServerInfo, RemoteStreamEvent, RemoteTarget, Reply,
    StreamSession, CHUNK_SAMPLES, CONTROL_TIMEOUT_SECS,
};
use handy_net::server::streaming::{finalize_reply, FinalizeOutcome, FinalizedStream};
use handy_net::settings::{AppSettings, InferenceMode, SecretString};
use handy_net::wav::decode_wav_bytes;

fn settings(base_url: &str) -> AppSettings {
    AppSettings {
        inference_mode: InferenceMode::Client,
        server_enabled: false,
        server_port: 8756,
        server_expose_lan: false,
        server_token: SecretString::new(""),
        client_base_url: base_url.to_string(),
        client_token: SecretString::new("test-token"),
        client_model: "whisper-large".to_string(),
        client_streaming: true,
        client_fallback_local: true,
        client_timeout_secs: 5,
        selected_language: "it".to_string(),
        translate_to_english: false,
        selected_model: "small".to_string(),
    }
}

fn reply(status: u16, status_text: &str, body: &str) -> Reply {
    Reply {
        status,
        status_text: status_text.to_string(),
        body: Some(body.to_string()),
    }
}

fn ok(body: &str) -> Option<Reply> {
    Some(reply(200, "200 OK", body))
}

fn session() -> StreamSession {
    let target = RemoteTarget::from_settings(&settings("gpu:8756")).unwrap();
    StreamSession::open(target, ok(""), Some("abc".to_string())).unwrap()
}

#[test]
fn base_url_accepts_bare_host_and_port() {
    assert_eq!(
        normalize_base_url("192.168.1.20:8756").unwrap(),
        "http://192.168.1.20:8756"
    );
}

#[test]
fn base_url_preserves_explicit_scheme_and_strips_trailing_slash() {
    assert_eq!(
        normalize_base_url("https://gpu.lan:8756/").unwrap(),
        "https://gpu.lan:8756"
    );
}

#[test]
fn base_url_rejects_empty_input() {
    assert!(normalize_base_url("   ").is_err());
}

#[test]
fn addresses_are_checked() {
    let missing = "No server address configured. Set it in Settings → Networked inference.";
    assert_eq!(normalize_base_url("").unwrap_err(), missing);
    assert_eq!(normalize_base_url(" /// ").unwrap_err(), missing);
    assert_eq!(
        normalize_base_url("http://gpu:port").unwrap_err(),
        "'http://gpu:port' is not a valid server address"
    );
    assert_eq!(
        normalize_base_url("file:///tmp").unwrap_err(),
        "'file:///tmp' has no host"
    );
    assert_eq!(normalize_base_url(" gpu// ").unwrap(), "http://gpu");
    assert_eq!(
        normalize_base_url("http://gpu/api/").unwrap(),
        "http://gpu/api"
    );
}

#[test]
fn the_parsed_host_decides() {
    assert_eq!(
        check_address("gpu/", Some(Some("gpu".to_string()))).unwrap(),
        "http://gpu"
    );
    assert_eq!(
        check_address("x://gpu//", Some(Some(String::new()))).unwrap(),
        "x://gpu"
    );
    assert_eq!(check_address("gpu", Some(None)).unwrap_err(), "'gpu' has no host");
    assert_eq!(
        check_address("gpu", None).unwrap_err(),
        "'gpu' is not a valid server address"
    );
    assert!(check_address("/", Some(Some("gpu".to_string()))).is_err());
}

#[test]
fn a_target_is_made_of_the_settings() {
    let target = RemoteTarget::from_settings(&settings(" gpu:8756/ ")).unwrap();
    assert_eq!(target.base_url, "http://gpu:8756");
    assert_eq!(target.token, "test-token");
    assert_eq!(target.model, "whisper-large");
    assert_eq!(target.timeout_secs, 5);
    assert_eq!(target.url("/health"), "http://gpu:8756/health");

    let mut impatient = settings("gpu");
    impatient.client_timeout_secs = 0;
    assert_eq!(RemoteTarget::from_settings(&impatient).unwrap().timeout_secs, 1);
    assert!(RemoteTarget::from_settings(&settings("")).is_err());
}

#[test]
fn batch_transcription_uploads_wav_and_returns_the_text() {
    let samples = vec![3276i16; 1600];
    let request = transcribe(&settings("gpu:8756"), &samples).unwrap();

    assert_eq!(
        request.request.url,
        "http://gpu:8756/v1/audio/transcriptions"
    );
    assert_eq!(request.request.token, "test-token");
    assert_eq!(request.request.timeout_secs, Some(5));
    assert_eq!(request.file_name, "audio.wav");
    assert_eq!(request.media_type, "audio/wav");
    assert_eq!(request.model.as_deref(), Some("whisper-large"));
    assert_eq!(request.language.as_deref(), Some("it"));
    let uploaded = decode_wav_bytes(&request.file).unwrap();
    assert_eq!(uploaded.integers, vec![3276; 1600]);

    let text = transcript_of(
        "http://gpu:8756",
        ok(r#"{"text":"ciao mondo"}"#),
        Some("ciao mondo".to_string()),
    );
    assert_eq!(text.unwrap(), "ciao mondo");
}

#[test]
fn translation_intent_uses_the_translations_endpoint() {
    let mut translating = settings("gpu:8756");
    translating.translate_to_english = true;
    let request = transcribe(&translating, &[0; 1600]).unwrap();
    assert_eq!(request.request.url, "http://gpu:8756/v1/audio/translations");
}

#[test]
fn auto_language_is_omitted_so_the_server_detects_it() {
    let mut detecting = settings("gpu:8756");
    detecting.selected_language = "auto".to_string();
    let request = transcribe(&detecting, &[0; 1600]).unwrap();
    assert_eq!(request.language, None);
}

#[test]
fn an_empty_model_is_omitted() {
    let mut any = settings("gpu:8756");
    any.client_model = String::new();
    assert_eq!(transcribe(&any, &[]).unwrap().model, None);
    assert!(transcribe(&settings("  "), &[]).is_err());
}

#[test]
fn server_error_message_is_surfaced_to_the_caller() {
    let body = r#"{"error":{"message":"unknown model 'whisper-large'","type":"not_found_error"}}"#;
    let error = transcript_of("http://gpu", Some(reply(404, "404 Not Found", body)), None)
        .unwrap_err();
    assert!(error.contains("unknown model 'whisper-large'"), "{error}");
    assert_eq!(
        error,
        "remote transcription failed: 404 Not Found — unknown model 'whisper-large'"
    );
}

#[test]
fn a_bare_text_response_is_accepted_as_the_transcript() {
    let text = transcript_of("http://gpu", ok("just some text"), None);
    assert_eq!(text.unwrap(), "just some text");
    let text = transcript_of("http://gpu", ok("  just some text\n"), None);
    assert_eq!(text.unwrap(), "just some text");
}

#[test]
fn a_missing_answer_is_reported() {
    assert_eq!(
        transcript_of("http://gpu", None, None).unwrap_err(),
        "could not reach transcription server at http://gpu"
    );
    let unreadable = Reply {
        status: 200,
        status_text: "200 OK".to_string(),
        body: None,
    };
    assert_eq!(
        transcript_of("http://gpu", Some(unreadable), None).unwrap_err(),
        "failed to read server response"
    );
}

#[test]
fn failures_are_described_by_the_message_or_the_body() {
    let said = |body: &str| error_for_status("context", &reply(500, "500 Oops", body));
    assert_eq!(said(""), "context: server returned 500 Oops");
    assert_eq!(said("plain"), "context: 500 Oops — plain");
    assert_eq!(
        said(r#"{"error":{"message":""}}"#),
        "context: server returned 500 Oops"
    );
    assert_eq!(
        said(r#"{"error":{"message":7}}"#),
        r#"context: 500 Oops — {"error":{"message":7}}"#
    );
    assert_eq!(
        said(r#"{"error":"no object"}"#),
        r#"context: 500 Oops — {"error":"no object"}"#
    );
    assert_eq!(
        said(r#"{"error":{"message":"caf\u00e9"}}"#),
        "context: 500 Oops — café"
    );
    let long = "ä".repeat(301);
    assert_eq!(
        said(&long),
        format!("context: 500 Oops — {}", "ä".repeat(300))
    );
    let unreadable = Reply {
        status: 500,
        status_text: "500 Oops".to_string(),
        body: None,
    };
    assert_eq!(
        error_for_status("context", &unreadable),
        "context: server returned 500 Oops"
    );
    assert_eq!(
        describe_failure("c", "s", "body", Some("found".to_string())),
        "c: s — found"
    );
    assert_eq!(describe_failure("c", "s", "body", None), "c: s — body");
}

#[test]
fn success_is_any_status_of_the_two_hundreds() {
    for (status, expected) in [(199, false), (200, true), (204, true), (299, true), (300, false)] {
        assert_eq!(reply(status, "", "").is_success(), expected);
    }
}

#[test]
fn a_probe_describes_a_handy_server() {
    let probe = probe("gpu:8756/", "token").unwrap();
    let request = probe.info_request();
    assert_eq!(request.url, "http://gpu:8756/handy/v1/info");
    assert_eq!(request.token, "token");
    assert_eq!(request.timeout_secs, Some(CONTROL_TIMEOUT_SECS));

    let info = |server: &str| RemoteServerInfo {
        server: server.to_string(),
        version: "1.2".to_string(),
        loaded_model: Some("small".to_string()),
        streaming: true,
    };
    match probe.info_reply(ok("{}"), Some(info("handy"))) {
        ProbeStep::Finished(Ok(info)) => {
            assert_eq!(info.server, "handy");
            assert_eq!(info.version, "1.2");
            assert_eq!(info.loaded_model.as_deref(), Some("small"));
            assert!(info.streaming);
        }
        _ => panic!("no description"),
    }
    match probe.info_reply(ok("{}"), Some(info("other"))) {
        ProbeStep::Finished(Ok(info)) => assert!(!info.streaming),
        _ => panic!("no description"),
    }
}

#[test]
fn a_probe_reports_what_is_wrong() {
    assert!(probe("", "token").is_err());
    let probe = probe("gpu", "token").unwrap();
    let failure = |step: ProbeStep| match step {
        ProbeStep::Finished(Err(message)) => message,
        _ => panic!("no failure"),
    };
    assert_eq!(
        failure(probe.info_reply(None, None)),
        "could not reach http://gpu"
    );
    assert_eq!(
        failure(probe.info_reply(ok("x"), None)),
        "server sent a malformed info response"
    );
    assert_eq!(
        failure(probe.info_reply(Some(reply(401, "401 Unauthorized", "")), None)),
        "server rejected the token"
    );
}

#[test]
fn a_probe_falls_back_to_the_model_list() {
    let probe = probe("gpu", "token").unwrap();
    assert!(matches!(
        probe.info_reply(Some(reply(404, "404 Not Found", "")), None),
        ProbeStep::AskForModels
    ));
    assert_eq!(probe.models_request().url, "http://gpu/v1/models");
    let info = probe.models_reply(ok("{}")).unwrap();
    assert_eq!(info.server, "openai-compatible");
    assert_eq!(info.version, "");
    assert_eq!(info.loaded_model, None);
    assert!(!info.streaming);
    assert_eq!(
        probe.models_reply(None).unwrap_err(),
        "could not reach http://gpu"
    );
    assert_eq!(
        probe
            .models_reply(Some(reply(500, "500 Oops", "")))
            .unwrap_err(),
        "server is not usable: server returned 500 Oops"
    );
}

#[test]
fn models_are_listed() {
    let probe = probe("gpu", "token").unwrap();
    let models = vec![RemoteModel {
        id: "small".to_string(),
        name: None,
    }];
    let listed = list_models(&probe, ok("{}"), Some(models)).unwrap();
    assert_eq!(listed.len(), 1);
    assert_eq!(listed[0].id, "small");
    assert_eq!(
        list_models(&probe, None, None).unwrap_err(),
        "could not reach http://gpu"
    );
    assert_eq!(
        list_models(&probe, ok("x"), None).unwrap_err(),
        "server sent a malformed model list"
    );
    assert_eq!(
        list_models(&probe, Some(reply(403, "403 Forbidden", "no")), None).unwrap_err(),
        "could not list server models: 403 Forbidden — no"
    );
}

#[test]
fn a_session_is_opened() {
    let open = open_session(&settings("gpu:8756")).unwrap();
    assert_eq!(open.request.url, "http://gpu:8756/handy/v1/stream");
    assert_eq!(open.request.token, "test-token");
    assert_eq!(open.request.timeout_secs, Some(CONTROL_TIMEOUT_SECS));
    assert_eq!(open.model, "whisper-large");
    assert_eq!(open.language, "it");
    assert!(open_session(&settings("")).is_err());

    let target = || RemoteTarget::from_settings(&settings("gpu")).unwrap();
    let failure = |reply, id| match StreamSession::open(target(), reply, id) {
        Ok(_) => panic!("opened"),
        Err(message) => message,
    };
    assert_eq!(failure(None, None), "could not open a stream on http://gpu");
    assert_eq!(
        failure(Some(reply(503, "503 Busy", "")), None),
        "server refused the stream: server returned 503 Busy"
    );
    assert_eq!(
        failure(ok("x"), None),
        "server sent a malformed session response"
    );

    let session = session();
    let events = session.events();
    assert_eq!(events.url, "http://gpu:8756/handy/v1/stream/abc/events");
    assert_eq!(events.timeout_secs, None);
    let cancel = session.cancel();
    assert_eq!(cancel.url, "http://gpu:8756/handy/v1/stream/abc/cancel");
    assert_eq!(cancel.timeout_secs, Some(15));
}

fn posted(chunk: &ChunkPost) -> Vec<i16> {
    assert_eq!(
        chunk.request.url,
        "http://gpu:8756/handy/v1/stream/abc/audio"
    );
    assert_eq!(chunk.request.timeout_secs, Some(5));
    pcm_samples(&chunk.body).unwrap()
}

#[test]
fn every_sample_is_posted_once() {
    let mut session = session();
    let recording: Vec<i16> = (0..20_500).map(|i| (i % 30_000) as i16 - 15_000).collect();
    let mut sent: Vec<i16> = Vec::new();
    for frame in recording.chunks(480) {
        if let Some(chunk) = session.push(frame) {
            let samples = posted(&chunk);
            assert!(samples.len() >= CHUNK_SAMPLES);
            sent.extend(samples);
            session.chunk_sent(ChunkOutcome::Answered {
                status: 200,
                status_text: "200 OK".to_string(),
            });
        }
    }
    assert!(recording.len() - sent.len() < CHUNK_SAMPLES);
    match session.finalize() {
        FinalizeStep::Post(chunk) => sent.extend(posted(&chunk)),
        _ => panic!("nothing left to post"),
    }
    assert_eq!(sent, recording);
    match session.finalize() {
        FinalizeStep::Ask(request) => {
            assert_eq!(
                request.url,
                "http://gpu:8756/handy/v1/stream/abc/finalize"
            );
            assert_eq!(request.timeout_secs, Some(5));
        }
        _ => panic!("the transcript is not asked for"),
    }
}

#[test]
fn nothing_is_posted_after_a_failure() {
    let mut session = session();
    assert!(session.flush().is_none());
    assert!(session.push(&[0; 3_999]).is_none());
    assert!(session.push(&[0]).is_some());
    session.chunk_sent(ChunkOutcome::Answered {
        status: 404,
        status_text: "404 Not Found".to_string(),
    });
    session.chunk_sent(ChunkOutcome::Lost {
        reason: "later".to_string(),
    });
    assert!(session.push(&[0; 8_000]).is_none());
    assert!(session.flush().is_none());
    match session.finalize() {
        FinalizeStep::Failed { reason } => {
            assert_eq!(reason, "server rejected audio chunk (404 Not Found)");
        }
        _ => panic!("the failure is forgotten"),
    }
}

#[test]
fn a_lost_connection_is_a_failure() {
    let mut session = session();
    session.push(&[1, 2]);
    assert_eq!(posted(&session.flush().unwrap()), [1, 2]);
    session.chunk_sent(ChunkOutcome::Lost {
        reason: "timed out".to_string(),
    });
    match session.finalize() {
        FinalizeStep::Failed { reason } => {
            assert_eq!(reason, "lost connection to server: timed out");
        }
        _ => panic!("the failure is forgotten"),
    }
}

#[test]
fn a_finalized_stream_has_a_transcript_or_falls_back() {
    let answer = |text: &str, fallback| {
        Some(FinalizedStream {
            text: text.to_string(),
            fallback,
        })
    };
    assert_eq!(
        finalized(ok("{}"), answer("hello ", false)).unwrap().as_deref(),
        Some("hello ")
    );
    assert_eq!(finalized(ok("{}"), answer("hello", true)).unwrap(), None);
    assert_eq!(finalized(ok("{}"), answer(" \n", false)).unwrap(), None);
    assert_eq!(
        finalized(None, None).unwrap_err(),
        "could not finalize remote stream"
    );
    assert_eq!(
        finalized(ok("x"), None).unwrap_err(),
        "server sent a malformed finalize response"
    );
    assert_eq!(
        finalized(Some(reply(500, "500 Oops", "why")), None).unwrap_err(),
        "remote finalize failed: 500 Oops — why"
    );
}

#[test]
fn client_and_server_agree_on_the_transcript() {
    for text in [None, Some(""), Some("  "), Some(" words ")] {
        let outcome = FinalizeOutcome::Finished {
            text: text.map(str::to_string),
        };
        let answer = finalize_reply(outcome).reply.unwrap();
        let got = finalized(ok("{}"), Some(answer)).unwrap();
        let expected = text.filter(|text| !text.trim().is_empty());
        assert_eq!(got.as_deref(), expected);
    }
}

#[test]
fn final_and_error_end_the_events() {
    let text = RemoteStreamEvent::Text {
        committed: String::new(),
        tentative: String::new(),
    };
    assert!(!text.is_terminal());
    assert!(!RemoteStreamEvent::Phase {}.is_terminal());
    assert!(RemoteStreamEvent::Final { text: String::new() }.is_terminal());
    assert!(RemoteStreamEvent::Error { message: String::new() }.is_terminal());
}
