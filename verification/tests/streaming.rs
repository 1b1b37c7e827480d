use handy_net::server::streaming::{
    acquire_engine, finalize_reply, session_overrides, EngineWait, EventFeed, FeedStep,
    FinalizeOutcome, OpenSessionRequest, Received, StreamEvent, StreamRegistry, Watchdog,
    SESSION_IDLE_TIMEOUT_MS, WATCHDOG_TICK_MS,
};

fn message(event: StreamEvent) -> String {
    match event {
        StreamEvent::Error { message } => message,
        other => panic!("unexpected event: {other:?}"),
    }
}

fn open(registry: &mut StreamRegistry, now: u64) -> String {
    assert!(registry.acquire());
    registry.open_session(now)
}

#[test]
fn a_session_excludes_everybody_else() {
    let mut registry = StreamRegistry::new();
    let id = open(&mut registry, 0);
    assert_eq!(id.len(), 32);
    assert!(!registry.acquire());
    registry.release();
    assert!(!registry.acquire());
    assert!(registry.get(&id).is_some());
    assert!(registry.get("other").is_none());

    registry.cancel(&id).unwrap();
    assert!(registry.acquire());
}

#[test]
fn a_batch_request_excludes_sessions() {
    let mut registry = StreamRegistry::new();
    assert!(registry.acquire());
    assert!(!registry.acquire());
    registry.release();
    assert!(registry.acquire());
}

#[test]
fn audio_is_decoded_and_counts_as_traffic() {
    let mut registry = StreamRegistry::new();
    let id = open(&mut registry, 10);
    assert_eq!(
        registry.push_audio(&id, &[1, 0, 0xff, 0xff], 20).unwrap(),
        [1, -1]
    );
    assert_eq!(registry.get(&id).unwrap().last_seen, 20);
    assert!(registry.push_audio(&id, &[], 25).unwrap().is_empty());

    let error = registry.push_audio(&id, &[1, 0, 2], 30).unwrap_err();
    assert_eq!(error.status, 400);
    assert_eq!(
        error.error.message,
        "PCM chunk length must be a multiple of 2 (16-bit samples)"
    );
    assert_eq!(registry.get(&id).unwrap().last_seen, 30);
}

#[test]
fn an_unknown_session_is_not_found() {
    let mut registry = StreamRegistry::new();
    let id = open(&mut registry, 0);
    let errors = [
        registry.push_audio("x", &[], 1).unwrap_err(),
        registry.events("x", 1).err().unwrap(),
        registry.finalize("x").unwrap_err(),
        registry.cancel("x").unwrap_err(),
    ];
    for error in errors {
        assert_eq!(error.status, 404);
        assert_eq!(error.error.message, "unknown or expired session");
    }
    assert!(registry.get(&id).is_some());
}

#[test]
fn events_are_given_out_once() {
    let mut registry = StreamRegistry::new();
    let id = open(&mut registry, 0);
    assert!(registry.events(&id, 5).unwrap().more());
    registry.push_audio(&id, &[], 7).unwrap();
    let error = registry.events(&id, 9).err().unwrap();
    assert_eq!(error.status, 400);
    assert_eq!(
        error.error.message,
        "event stream already consumed for this session"
    );
    assert_eq!(registry.get(&id).unwrap().last_seen, 9);
    registry.push_audio(&id, &[], 11).unwrap();
    registry.push_audio(&id, &[], 12).unwrap();
    assert_eq!(registry.events(&id, 13).err().unwrap().status, 400);
    assert_eq!(registry.events(&id, 14).err().unwrap().status, 400);
}

#[test]
fn a_finalized_session_keeps_the_engine_until_it_is_answered() {
    let mut registry = StreamRegistry::new();
    let id = open(&mut registry, 0);
    registry.finalize(&id).unwrap();
    assert!(registry.get(&id).is_none());
    assert!(!registry.acquire());
    assert!(registry.finalize(&id).is_err());
    registry.release();
    assert!(registry.acquire());
}

#[test]
fn a_cancelled_session_says_so() {
    let mut registry = StreamRegistry::new();
    let id = open(&mut registry, 0);
    assert_eq!(message(registry.cancel(&id).unwrap()), "session cancelled");
    assert!(registry.cancel(&id).is_err());
}

#[test]
fn an_abandoned_session_is_reclaimed() {
    let mut registry = StreamRegistry::new();
    let id = open(&mut registry, 1_000);
    let deadline = 1_000 + SESSION_IDLE_TIMEOUT_MS;
    assert!(matches!(
        registry.watchdog(&id, deadline - 1),
        Watchdog::Waiting
    ));
    assert!(matches!(registry.watchdog(&id, 0), Watchdog::Waiting));
    match registry.watchdog(&id, deadline) {
        Watchdog::Expired(event) => assert_eq!(message(event), "session timed out"),
        _ => panic!("the session lives on"),
    }
    assert!(matches!(
        registry.watchdog(&id, deadline),
        Watchdog::Finished
    ));
    assert!(registry.acquire());
    assert_eq!(SESSION_IDLE_TIMEOUT_MS, 120_000);
    assert_eq!(WATCHDOG_TICK_MS, 15_000);
}

#[test]
fn traffic_keeps_a_session_alive() {
    let mut registry = StreamRegistry::new();
    let id = open(&mut registry, 0);
    registry.push_audio(&id, &[], 100_000).unwrap();
    assert!(matches!(registry.watchdog(&id, 200_000), Watchdog::Waiting));
    assert!(registry.events(&id, 210_000).is_ok());
    assert!(matches!(registry.watchdog(&id, 329_999), Watchdog::Waiting));
    assert!(matches!(
        registry.watchdog(&id, 330_000),
        Watchdog::Expired(_)
    ));
}

#[test]
fn a_dead_session_lingers_for_one_tick_at_most() {
    let mut registry = StreamRegistry::new();
    let id = open(&mut registry, 0);
    let mut now = 1;
    while let Watchdog::Waiting = registry.watchdog(&id, now) {
        now += WATCHDOG_TICK_MS;
    }
    assert!(now < SESSION_IDLE_TIMEOUT_MS + WATCHDOG_TICK_MS);
}

#[test]
fn the_feed_ends_with_a_terminal_event() {
    let mut feed = EventFeed::new();
    let text = StreamEvent::Text {
        committed: "a".to_string(),
        tentative: String::new(),
    };
    assert!(matches!(
        feed.advance(Received::Event(text)),
        FeedStep::Send { event: StreamEvent::Text { .. }, last: false }
    ));
    assert!(matches!(feed.advance(Received::Lagged), FeedStep::Skip));
    assert!(feed.more());
    let done = StreamEvent::Final { text: "a".to_string() };
    assert!(matches!(
        feed.advance(Received::Event(done.clone())),
        FeedStep::Send { event: StreamEvent::Final { .. }, last: true }
    ));
    assert!(!feed.more());
    assert!(matches!(feed.advance(Received::Event(done)), FeedStep::End));

    let mut feed = EventFeed::new();
    assert!(matches!(feed.advance(Received::Closed), FeedStep::End));
    assert!(!feed.more());
}

#[test]
fn events_that_end_a_session_are_terminal() {
    let phase = StreamEvent::Phase {
        phase: "finalizing".to_string(),
        kind: None,
    };
    assert!(!phase.is_terminal());
    assert!(StreamEvent::Final { text: String::new() }.is_terminal());
    assert!(StreamEvent::Error { message: String::new() }.is_terminal());
}

#[test]
fn a_session_overrides_the_language_it_names() {
    let overrides = session_overrides(Some("it".to_string()));
    assert_eq!(overrides.language.as_deref(), Some("it"));
    assert_eq!(overrides.translate_to_english, None);
    assert!(overrides.force_local);
    assert_eq!(session_overrides(Some(String::new())).language, None);
    assert_eq!(session_overrides(None).language, None);
    let default = OpenSessionRequest::default();
    assert!(default.model.is_none() && default.language.is_none());
}

#[test]
fn a_busy_engine_is_reported() {
    assert!(acquire_engine(EngineWait::Granted).is_ok());
    let error = acquire_engine(EngineWait::Closed).unwrap_err();
    assert_eq!(error.status, 503);
    assert_eq!(error.error.message, "server is shutting down");
    let error = acquire_engine(EngineWait::TimedOut).unwrap_err();
    assert_eq!(error.status, 503);
    assert_eq!(error.error.message, "transcription engine busy; try again");
}

#[test]
fn a_finalized_session_is_answered() {
    let finished = |text: Option<&str>| {
        let outcome = FinalizeOutcome::Finished {
            text: text.map(str::to_string),
        };
        let reply = finalize_reply(outcome);
        let told = match reply.event {
            Some(StreamEvent::Final { text }) => text,
            other => panic!("unexpected event: {other:?}"),
        };
        let answer = reply.reply.unwrap();
        assert_eq!(told, answer.text);
        (answer.text, answer.fallback)
    };
    assert_eq!(finished(Some(" a ")), (" a ".to_string(), false));
    assert_eq!(finished(Some(" \t")), (String::new(), true));
    assert_eq!(finished(None), (String::new(), true));

    let reply = finalize_reply(FinalizeOutcome::Failed {
        reason: "no model".to_string(),
    });
    assert_eq!(message(reply.event.unwrap()), "finalize failed: no model");
    let error = reply.reply.err().unwrap();
    assert_eq!(error.status, 500);
    assert_eq!(error.error.message, "finalize failed: no model");

    let reply = finalize_reply(FinalizeOutcome::TaskFailed {
        reason: "panicked".to_string(),
    });
    assert!(reply.event.is_none());
    assert_eq!(
        reply.reply.err().unwrap().error.message,
        "finalize task failed: panicked"
    );
}
