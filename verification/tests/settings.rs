use handy_net::settings::{
    change_client_connection, change_client_fallback_local, change_client_model,
    change_client_streaming, change_client_timeout, change_inference_mode, change_server_enabled,
    change_server_expose_lan, change_server_port, ensure_server_token, regenerate_server_token,
    AppSettings, InferenceMode, SecretString,
};

fn settings() -> AppSettings {
    AppSettings {
        inference_mode: InferenceMode::Local,
        server_enabled: false,
        server_port: 8756,
        server_expose_lan: false,
        server_token: SecretString::default(),
        client_base_url: String::new(),
        client_token: SecretString::default(),
        client_model: String::new(),
        client_streaming: false,
        client_fallback_local: false,
        client_timeout_secs: 60,
        selected_language: "auto".to_string(),
        translate_to_english: false,
        selected_model: "small".to_string(),
    }
}

#[test]
fn the_mode_is_changed_by_name() {
    let mut current = settings();
    change_inference_mode(&mut current, "client").unwrap();
    assert_eq!(current.inference_mode, InferenceMode::Client);
    assert_eq!(
        change_inference_mode(&mut current, "Local").unwrap_err(),
        "Unknown inference mode 'Local'"
    );
    assert_eq!(current.inference_mode, InferenceMode::Client);
    change_inference_mode(&mut current, "local").unwrap();
    assert_eq!(current.inference_mode, InferenceMode::Local);
}

#[test]
fn an_enabled_server_has_a_token() {
    let mut current = settings();
    change_server_enabled(&mut current, true);
    assert!(current.server_enabled);
    let token = current.server_token.expose().to_string();
    assert_eq!(token.len(), 64);

    change_server_enabled(&mut current, false);
    change_server_enabled(&mut current, true);
    assert_eq!(current.server_token.expose(), token);

    let mut off = settings();
    change_server_enabled(&mut off, false);
    assert!(off.server_token.is_empty());
}

#[test]
fn a_token_is_made_once_and_replaced_on_demand() {
    let mut current = settings();
    let first = ensure_server_token(&mut current);
    assert_eq!(ensure_server_token(&mut current), first);
    let second = regenerate_server_token(&mut current);
    assert_ne!(second, first);
    assert_eq!(current.server_token.expose(), second);
    assert_eq!(second.len(), 64);
}

#[test]
fn reserved_ports_are_refused() {
    let mut current = settings();
    assert_eq!(
        change_server_port(&mut current, 1023).unwrap_err(),
        "Choose a port above 1023; lower ports are reserved."
    );
    assert_eq!(current.server_port, 8756);
    change_server_port(&mut current, 1024).unwrap();
    assert_eq!(current.server_port, 1024);
}

#[test]
fn a_timeout_is_at_least_one_second() {
    let mut current = settings();
    assert_eq!(
        change_client_timeout(&mut current, 0).unwrap_err(),
        "Timeout must be at least one second."
    );
    assert_eq!(current.client_timeout_secs, 60);
    change_client_timeout(&mut current, 1).unwrap();
    assert_eq!(current.client_timeout_secs, 1);
}

#[test]
fn the_other_settings_are_stored() {
    let mut current = settings();
    change_server_expose_lan(&mut current, true);
    change_client_connection(&mut current, " http://gpu \n", "\ttoken ");
    change_client_model(&mut current, "large".to_string());
    change_client_streaming(&mut current, true);
    change_client_fallback_local(&mut current, true);
    assert!(current.server_expose_lan);
    assert_eq!(current.client_base_url, "http://gpu");
    assert_eq!(current.client_token.expose(), "token");
    assert_eq!(current.client_model, "large");
    assert!(current.client_streaming);
    assert!(current.client_fallback_local);
}
