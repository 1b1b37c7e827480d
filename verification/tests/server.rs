use handy_net::server::auth::{constant_time_eq, require_token, ApiError};
use handy_net::server::lifecycle::{
    apply_server_settings, bind_addr, BindHost, ServerAddr, ServerHandle,
};
use handy_net::server::routes::{let_in, Method, Route};
use handy_net::server::status::{client_urls, get_server_status, HostAddr};
use handy_net::settings::{
    change_server_enabled, regenerate_server_token, AppSettings, InferenceMode, SecretString,
};

fn settings(enabled: bool, token: &str) -> AppSettings {
    AppSettings {
        inference_mode: InferenceMode::Local,
        server_enabled: enabled,
        server_port: 8756,
        server_expose_lan: true,
        server_token: SecretString::new(token),
        client_base_url: String::new(),
        client_token: SecretString::default(),
        client_model: String::new(),
        client_streaming: false,
        client_fallback_local: false,
        client_timeout_secs: 60,
        selected_language: "auto".to_string(),
        translate_to_english: false,
        selected_model: "small".to_string(),
    }
}

/// Carries out what the settings ask for, and returns whether anything was done.
fn apply(settings: &AppSettings, handle: &mut ServerHandle) -> bool {
    let plan = apply_server_settings(settings, handle);
    if plan.stop {
        assert!(handle.stop().is_some());
    }
    match plan.start {
        Some(start) => {
            handle.started(start.addr, start.token);
            true
        }
        None => plan.stop,
    }
}

#[test]
fn constant_time_eq_matches_semantics_of_plain_eq() {
    assert!(constant_time_eq(b"abc", b"abc"));
    assert!(!constant_time_eq(b"abc", b"abd"));
    assert!(!constant_time_eq(b"abc", b"abcd"));
    assert!(!constant_time_eq(b"", b"a"));
    assert!(constant_time_eq(b"", b""));
}

#[test]
fn lengths_far_apart_are_different() {
    let long = [0u8; 256];
    assert!(!constant_time_eq(&long, b""));
    assert!(!constant_time_eq(b"", &long));
    assert!(!constant_time_eq(&[0u8; 300], &[0u8; 44]));
}

#[test]
fn only_the_token_is_let_in() {
    assert!(require_token(Some("Bearer secret"), "secret").is_ok());
    assert!(require_token(Some("Bearer   secret  "), "secret").is_ok());
    for header in [
        None,
        Some(""),
        Some("secret"),
        Some("bearer secret"),
        Some("Bearer"),
        Some("Bearer "),
        Some("Bearer secret2"),
        Some("Basic secret"),
    ] {
        let error = require_token(header, "secret").unwrap_err();
        assert_eq!(error.status, 401);
        assert_eq!(error.error.kind, "authentication_error");
        assert_eq!(error.error.message, "Missing or invalid bearer token");
    }
}

#[test]
fn a_header_fits_one_token() {
    let header = Some("Bearer secret");
    assert!(require_token(header, "secret").is_ok());
    assert!(require_token(header, "secrets").is_err());
    assert!(require_token(header, "").is_err());
}

#[test]
fn a_generated_token_is_let_in() {
    let mut current = settings(false, "");
    change_server_enabled(&mut current, true);
    let token = current.server_token.expose().to_string();
    let header = format!("Bearer {token}");
    assert!(require_token(Some(&header), &token).is_ok());
    let replaced = regenerate_server_token(&mut current);
    assert!(require_token(Some(&header), &replaced).is_err());
}

#[test]
fn errors_have_their_status_and_kind() {
    let expected = [
        (ApiError::bad_request("m"), 400, "invalid_request_error"),
        (ApiError::unauthorized("m"), 401, "authentication_error"),
        (ApiError::not_found("m"), 404, "not_found_error"),
        (ApiError::unsupported_media("m"), 415, "invalid_request_error"),
        (ApiError::internal("m"), 500, "server_error"),
        (ApiError::unavailable("m"), 503, "server_error"),
    ];
    for (error, status, kind) in expected {
        assert_eq!(error.status, status);
        assert_eq!(error.error.kind, kind);
        assert_eq!(error.error.message, "m");
    }
}

#[test]
fn the_address_follows_the_settings() {
    let mut current = settings(true, "t");
    assert_eq!(bind_addr(&current).to_text(), "0.0.0.0:8756");
    current.server_expose_lan = false;
    current.server_port = 65535;
    let addr = bind_addr(&current);
    assert_eq!(addr.host, BindHost::Loopback);
    assert_eq!(addr.to_text(), "127.0.0.1:65535");
}

#[test]
fn applying_twice_changes_nothing() {
    let mut handle = ServerHandle::new();
    assert!(!apply(&settings(false, ""), &mut handle));
    assert!(!handle.is_running());
    let current = settings(true, "t");
    assert!(apply(&current, &mut handle));
    assert!(handle.is_running());
    assert!(!apply(&current, &mut handle));
    assert!(handle.is_running());
}

#[test]
fn the_server_does_not_listen_without_a_token() {
    let mut handle = ServerHandle::new();
    assert!(!apply(&settings(true, ""), &mut handle));
    assert!(!handle.is_running());
    apply(&settings(true, "t"), &mut handle);
    assert!(apply(&settings(true, ""), &mut handle));
    assert!(!handle.is_running());
}

#[test]
fn a_new_token_restarts_the_server() {
    let mut handle = ServerHandle::new();
    apply(&settings(true, "old"), &mut handle);
    let plan = apply_server_settings(&settings(true, "new"), &handle);
    assert!(plan.stop);
    assert_eq!(plan.start.unwrap().token, "new");
}

#[test]
fn a_new_address_restarts_the_server() {
    let mut handle = ServerHandle::new();
    apply(&settings(true, "t"), &mut handle);
    let mut moved = settings(true, "t");
    moved.server_port = 9000;
    assert!(apply(&moved, &mut handle));
    assert_eq!(
        handle.bound_addr(),
        Some(ServerAddr {
            host: BindHost::AllInterfaces,
            port: 9000
        })
    );
}

#[test]
fn a_disabled_server_does_not_listen() {
    let mut handle = ServerHandle::new();
    apply(&settings(true, "t"), &mut handle);
    assert!(apply(&settings(false, "t"), &mut handle));
    assert!(!handle.is_running());
    assert_eq!(handle.bound_addr(), None);
    assert_eq!(handle.stop(), None);
}

#[test]
fn a_replaced_listener_leaves_no_trace() {
    let mut handle = ServerHandle::new();
    let addr = bind_addr(&settings(true, "t"));
    let first = handle.started(addr, "t".to_string());
    handle.stop();
    let second = handle.started(addr, "t".to_string());
    handle.exited(first);
    assert!(handle.is_running());
    handle.exited(second);
    assert!(!handle.is_running());
}

#[test]
fn loopback_is_offered_last() {
    let lan = HostAddr::V4 { a: 192, b: 168, c: 1, d: 20 };
    let other = HostAddr::V4 { a: 10, b: 0, c: 0, d: 255 };
    let loopback = HostAddr::V4 { a: 127, b: 0, c: 1, d: 1 };
    assert_eq!(client_urls(8756, &[]), ["http://127.0.0.1:8756"]);
    assert_eq!(
        client_urls(8756, &[lan, lan, HostAddr::V6, loopback, lan, other]),
        [
            "http://192.168.1.20:8756",
            "http://10.0.0.255:8756",
            "http://127.0.0.1:8756"
        ]
    );
    assert_eq!(
        client_urls(1, &[lan, other, lan]),
        [
            "http://192.168.1.20:1",
            "http://10.0.0.255:1",
            "http://192.168.1.20:1",
            "http://127.0.0.1:1"
        ]
    );
}

#[test]
fn the_status_describes_the_listener() {
    let mut handle = ServerHandle::new();
    let current = settings(true, "t");
    let status = get_server_status(&current, &handle, &[]);
    assert!(!status.running);
    assert_eq!(status.bound_address, None);
    assert!(status.client_urls.is_empty());
    assert_eq!(status.token, "t");

    apply(&current, &mut handle);
    let status = get_server_status(&current, &handle, &[]);
    assert!(status.running);
    assert_eq!(status.bound_address.as_deref(), Some("0.0.0.0:8756"));
    assert_eq!(status.client_urls, ["http://127.0.0.1:8756"]);
}

#[test]
fn every_route_but_the_liveness_probe_needs_the_token() {
    let routes = [
        (Route::Transcriptions, "/v1/audio/transcriptions", Method::Post),
        (Route::Translations, "/v1/audio/translations", Method::Post),
        (Route::Models, "/v1/models", Method::Get),
        (Route::Info, "/handy/v1/info", Method::Get),
        (Route::OpenStream, "/handy/v1/stream", Method::Post),
        (Route::StreamAudio, "/handy/v1/stream/{id}/audio", Method::Post),
        (Route::StreamEvents, "/handy/v1/stream/{id}/events", Method::Get),
        (Route::FinalizeStream, "/handy/v1/stream/{id}/finalize", Method::Post),
        (Route::CancelStream, "/handy/v1/stream/{id}/cancel", Method::Post),
        (Route::Health, "/health", Method::Get),
    ];
    for (route, path, method) in routes {
        assert_eq!(route.path(), path);
        assert_eq!(route.method(), method);
        assert_eq!(route.needs_token(), path != "/health");
        let upload = path.starts_with("/v1/audio/");
        assert_eq!(route.body_limit(), upload.then_some(1 << 30));
    }
}

#[test]
fn only_the_probe_is_open() {
    assert!(let_in(Some(Route::Health), None, "secret").is_ok());
    for route in [None, Some(Route::Info), Some(Route::Models), Some(Route::StreamEvents)] {
        let error = let_in(route, None, "secret").unwrap_err();
        assert_eq!(error.status, 401);
        assert_eq!(error.error.message, "Missing or invalid bearer token");
        assert!(let_in(route, Some("Bearer wrong"), "secret").is_err());
        assert!(let_in(route, Some("Bearer secret"), "secret").is_ok());
    }
}
