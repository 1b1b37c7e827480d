//! The settings of networked inference, and the commands that change them.

use vstd::prelude::*;

use crate::random::{generate_token, is_random_name};
use crate::text::{joined, same_text, trim, trimmed};

verus! {

/// Where dictation on this machine is transcribed.
#[derive(Clone, Copy, Debug, PartialEq, Eq, Structural)]
pub enum InferenceMode {
    /// By the engine of this machine.
    Local,
    /// By the server of another machine.
    Client,
}

/// A text that is not to be shown.
pub struct SecretString {
    secret: String,
}

impl View for SecretString {
    type V = Seq<char>;

    closed spec fn view(&self) -> Seq<char> {
        self.secret@
    }
}

impl SecretString {
    /// Hides a text.
    pub fn new(secret: &str) -> (r: SecretString)
        ensures
            r@ == secret@,
    {
        SecretString { secret: secret.to_owned() }
    }

    /// Shows the text.
    pub fn expose(&self) -> (r: &str)
        ensures
            r@ == self@,
    {
        self.secret.as_str()
    }

    /// Whether there is nothing to hide.
    pub fn is_empty(&self) -> (r: bool)
        ensures
            r == (self@.len() == 0),
    {
        self.secret.as_str().is_empty()
    }
}

impl Default for SecretString {
    fn default() -> (r: SecretString)
        ensures
            r@.len() == 0,
    {
        SecretString { secret: String::new() }
    }
}

/// What the user has set.
pub struct AppSettings {
    pub inference_mode: InferenceMode,
    /// Whether this machine serves others.
    pub server_enabled: bool,
    pub server_port: u16,
    /// Whether machines other than this one may connect.
    pub server_expose_lan: bool,
    /// What a client has to present.
    pub server_token: SecretString,
    /// The server that this machine uses in client mode.
    pub client_base_url: String,
    pub client_token: SecretString,
    pub client_model: String,
    pub client_streaming: bool,
    /// Whether the local engine steps in when the server fails.
    pub client_fallback_local: bool,
    pub client_timeout_secs: u64,
    pub selected_language: String,
    pub translate_to_english: bool,
    pub selected_model: String,
}

impl AppSettings {
    /// Whether an enabled server has a token to ask for.
    pub open spec fn server_has_token(&self) -> bool {
        self.server_enabled ==> self.server_token@.len() > 0
    }
}

/// The inference mode with the given name.
pub open spec fn mode_named(name: Seq<char>) -> Option<InferenceMode> {
    if name == "local"@ {
        Some(InferenceMode::Local)
    } else if name == "client"@ {
        Some(InferenceMode::Client)
    } else {
        None
    }
}

/// Switches between local and client mode.
pub fn change_inference_mode(settings: &mut AppSettings, mode: &str) -> (r: Result<(), String>)
    ensures
        match mode_named(mode@) {
            Some(inference_mode) => r is Ok && *final(settings) == (AppSettings {
                inference_mode,
                ..*old(settings)
            }),
            None => *final(settings) == *old(settings) && (r matches Err(message) && message@
                == "Unknown inference mode '"@ + mode@ + "'"@),
        },
        old(settings).server_has_token() ==> final(settings).server_has_token(),
{
    if same_text(mode, "local") {
        settings.inference_mode = InferenceMode::Local;
        Ok(())
    } else if same_text(mode, "client") {
        settings.inference_mode = InferenceMode::Client;
        Ok(())
    } else {
        let start = joined("Unknown inference mode '", mode);
        Err(joined(start.as_str(), "'"))
    }
}

/// Gives the server a token if it has none yet, and returns the token in use.
pub fn ensure_server_token(settings: &mut AppSettings) -> (token: String)
    ensures
        *final(settings) == (AppSettings {
            server_token: final(settings).server_token,
            ..*old(settings)
        }),
        token@ == final(settings).server_token@,
        token@.len() > 0,
        old(settings).server_token@.len() > 0 ==> final(settings).server_token == old(
            settings,
        ).server_token,
        old(settings).server_token@.len() == 0 ==> is_random_name(token@, 32),
        final(settings).server_has_token(),
{
    if !settings.server_token.is_empty() {
        return settings.server_token.expose().to_owned();
    }
    let token = generate_token();
    settings.server_token = SecretString::new(token.as_str());
    token
}

/// Turns the server on or off. Turning it on gives it a token first, so that an
/// enabled server always has one.
pub fn change_server_enabled(settings: &mut AppSettings, enabled: bool)
    ensures
        *final(settings) == (AppSettings {
            server_enabled: enabled,
            server_token: final(settings).server_token,
            ..*old(settings)
        }),
        final(settings).server_has_token(),
        !enabled || old(settings).server_token@.len() > 0 ==> final(settings).server_token == old(
            settings,
        ).server_token,
        enabled && old(settings).server_token@.len() == 0 ==> is_random_name(
            final(settings).server_token@,
            32,
        ),
{
    if enabled {
        let _token = ensure_server_token(settings);
    }
    settings.server_enabled = enabled;
}

/// Sets the port of the server. The ports below 1024 are reserved.
pub fn change_server_port(settings: &mut AppSettings, port: u16) -> (r: Result<(), String>)
    ensures
        port >= 1024 ==> r is Ok && *final(settings) == (AppSettings {
            server_port: port,
            ..*old(settings)
        }),
        port < 1024 ==> *final(settings) == *old(settings) && (r matches Err(message) && message@
            == "Choose a port above 1023; lower ports are reserved."@),
        old(settings).server_has_token() ==> final(settings).server_has_token(),
{
    if port < 1024 {
        return Err("Choose a port above 1023; lower ports are reserved.".to_owned());
    }
    settings.server_port = port;
    Ok(())
}

/// Opens the server to other machines, or closes it to them.
pub fn change_server_expose_lan(settings: &mut AppSettings, expose: bool)
    ensures
        *final(settings) == (AppSettings { server_expose_lan: expose, ..*old(settings) }),
        old(settings).server_has_token() ==> final(settings).server_has_token(),
{
    settings.server_expose_lan = expose;
}

/// Replaces the token of the server by a new one, and returns it.
pub fn regenerate_server_token(settings: &mut AppSettings) -> (token: String)
    ensures
        *final(settings) == (AppSettings {
            server_token: final(settings).server_token,
            ..*old(settings)
        }),
        token@ == final(settings).server_token@,
        token@.len() > 0,
        is_random_name(token@, 32),
        final(settings).server_has_token(),
{
    settings.server_token = SecretString::default();
    ensure_server_token(settings)
}

/// Sets the server to use in client mode, and the token to present to it.
pub fn change_client_connection(settings: &mut AppSettings, base_url: &str, token: &str)
    ensures
        *final(settings) == (AppSettings {
            client_base_url: final(settings).client_base_url,
            client_token: final(settings).client_token,
            ..*old(settings)
        }),
        final(settings).client_base_url@ == trimmed(base_url@),
        final(settings).client_token@ == trimmed(token@),
        old(settings).server_has_token() ==> final(settings).server_has_token(),
{
    settings.client_base_url = trim(base_url).to_owned();
    settings.client_token = SecretString::new(trim(token));
}

/// Sets the model to ask the server for.
pub fn change_client_model(settings: &mut AppSettings, model: String)
    ensures
        *final(settings) == (AppSettings { client_model: model, ..*old(settings) }),
        old(settings).server_has_token() ==> final(settings).server_has_token(),
{
    settings.client_model = model;
}

/// Turns live text in client mode on or off.
pub fn change_client_streaming(settings: &mut AppSettings, enabled: bool)
    ensures
        *final(settings) == (AppSettings { client_streaming: enabled, ..*old(settings) }),
        old(settings).server_has_token() ==> final(settings).server_has_token(),
{
    settings.client_streaming = enabled;
}

/// Lets the local engine step in when the server fails, or not.
pub fn change_client_fallback_local(settings: &mut AppSettings, enabled: bool)
    ensures
        *final(settings) == (AppSettings { client_fallback_local: enabled, ..*old(settings) }),
        old(settings).server_has_token() ==> final(settings).server_has_token(),
{
    settings.client_fallback_local = enabled;
}

/// Sets how long the server may take to answer.
pub fn change_client_timeout(settings: &mut AppSettings, seconds: u64) -> (r: Result<(), String>)
    ensures
        seconds > 0 ==> r is Ok && *final(settings) == (AppSettings {
            client_timeout_secs: seconds,
            ..*old(settings)
        }),
        seconds == 0 ==> *final(settings) == *old(settings) && (r matches Err(message) && message@
            == "Timeout must be at least one second."@),
        old(settings).server_has_token() ==> final(settings).server_has_token(),
{
    if seconds == 0 {
        return Err("Timeout must be at least one second.".to_owned());
    }
    settings.client_timeout_secs = seconds;
    Ok(())
}

/// There are two inference modes, each with one name.
pub proof fn law_modes_have_one_name(name: Seq<char>)
    ensures
        mode_named("local"@) == Some(InferenceMode::Local),
        mode_named("client"@) == Some(InferenceMode::Client),
        mode_named(name) is Some ==> name == "local"@ || name == "client"@,
{
    reveal_strlit("local");
    reveal_strlit("client");
    assert("local"@.len() != "client"@.len());
}

/// Only an enabled server needs a token.
pub proof fn law_an_enabled_server_needs_a_token(settings: &AppSettings)
    ensures
        settings.server_has_token() <==> !settings.server_enabled || settings.server_token@.len()
            > 0,
{
}

/// The mode is changed by its name, and by nothing else; an unknown name changes nothing.
pub proof fn law_only_known_modes_are_set(
    settings: &mut AppSettings,
    mode: &str,
    r: Result<(), String>,
)
    requires
        call_ensures(change_inference_mode, (settings, mode), r),
    ensures
        r is Ok <==> mode@ == "local"@ || mode@ == "client"@,
        mode@ == "local"@ ==> final(settings).inference_mode == InferenceMode::Local,
        mode@ == "client"@ ==> final(settings).inference_mode == InferenceMode::Client,
        *final(settings) == (AppSettings {
            inference_mode: final(settings).inference_mode,
            ..*old(settings)
        }),
        r matches Err(message) ==> *final(settings) == *old(settings) && message@
            == "Unknown inference mode '"@ + mode@ + "'"@,
{
    law_modes_have_one_name(mode@);
}

/// Turning the server on and off keeps a token that is there. Turning it on gives it one
/// of 64 digits if there is none, and changes nothing else.
pub proof fn law_an_enabled_server_gets_a_token(settings: &mut AppSettings, enabled: bool)
    requires
        call_ensures(change_server_enabled, (settings, enabled), ()),
    ensures
        final(settings).server_enabled == enabled,
        enabled ==> final(settings).server_token@.len() > 0,
        !enabled || old(settings).server_token@.len() > 0 ==> final(settings).server_token@ == old(
            settings,
        ).server_token@,
        enabled && old(settings).server_token@.len() == 0 ==> final(settings).server_token@.len()
            == 64,
        final(settings).server_port == old(settings).server_port,
        final(settings).server_expose_lan == old(settings).server_expose_lan,
        final(settings).client_token == old(settings).client_token,
        final(settings).inference_mode == old(settings).inference_mode,
{
}

/// A new token takes the place of the old one, has 64 digits, and is what is returned.
pub proof fn law_tokens_are_replaced_by_new_ones(settings: &mut AppSettings, token: String)
    requires
        call_ensures(regenerate_server_token, (settings,), token),
    ensures
        token@.len() == 64,
        final(settings).server_token@ == token@,
        final(settings).server_enabled == old(settings).server_enabled,
        final(settings).server_port == old(settings).server_port,
        final(settings).client_token == old(settings).client_token,
{
}

/// A token is asked for before the server is first used: one that is there is kept.
pub proof fn law_tokens_are_kept(settings: &mut AppSettings, token: String)
    requires
        call_ensures(ensure_server_token, (settings,), token),
    ensures
        final(settings).server_token@ == token@,
        old(settings).server_token@.len() > 0 ==> token@ == old(settings).server_token@,
        old(settings).server_token@.len() == 0 ==> token@.len() == 64,
        final(settings).server_enabled == old(settings).server_enabled,
{
}

/// A port is set exactly if it is not reserved, and a timeout exactly if there is any;
/// what is refused changes nothing.
pub proof fn law_only_sound_numbers_are_set(
    by_port: &mut AppSettings,
    port: u16,
    port_set: Result<(), String>,
    by_time: &mut AppSettings,
    seconds: u64,
    time_set: Result<(), String>,
)
    requires
        call_ensures(change_server_port, (by_port, port), port_set),
        call_ensures(change_client_timeout, (by_time, seconds), time_set),
    ensures
        port_set is Ok <==> port >= 1024,
        port_set is Ok ==> final(by_port).server_port == port,
        port_set is Err ==> *final(by_port) == *old(by_port),
        final(by_port).server_enabled == old(by_port).server_enabled,
        final(by_port).server_token == old(by_port).server_token,
        time_set is Ok <==> seconds > 0,
        time_set is Ok ==> final(by_time).client_timeout_secs == seconds,
        time_set is Err ==> *final(by_time) == *old(by_time),
{
}

/// The server to use is set without the white space around what was typed.
pub proof fn law_connections_are_trimmed(settings: &mut AppSettings, base_url: &str, token: &str)
    requires
        call_ensures(change_client_connection, (settings, base_url, token), ()),
    ensures
        final(settings).client_base_url@ == trimmed(base_url@),
        final(settings).client_token@ == trimmed(token@),
        final(settings).server_token == old(settings).server_token,
        final(settings).client_model == old(settings).client_model,
        final(settings).client_timeout_secs == old(settings).client_timeout_secs,
{
}

/// Each of these commands sets what it is for, and nothing else.
pub proof fn law_commands_set_one_thing(
    by_model: &mut AppSettings,
    model: String,
    by_live: &mut AppSettings,
    live: bool,
    by_fallback: &mut AppSettings,
    fallback: bool,
    by_expose: &mut AppSettings,
    expose: bool,
)
    requires
        call_ensures(change_client_model, (by_model, model), ()),
        call_ensures(change_client_streaming, (by_live, live), ()),
        call_ensures(change_client_fallback_local, (by_fallback, fallback), ()),
        call_ensures(change_server_expose_lan, (by_expose, expose), ()),
    ensures
        *final(by_model) == (AppSettings { client_model: model, ..*old(by_model) }),
        *final(by_live) == (AppSettings { client_streaming: live, ..*old(by_live) }),
        *final(by_fallback) == (AppSettings {
            client_fallback_local: fallback,
            ..*old(by_fallback)
        }),
        *final(by_expose) == (AppSettings { server_expose_lan: expose, ..*old(by_expose) }),
{
}

/// A secret is shown as it was hidden.
pub proof fn law_secrets_are_kept(text: &str, secret: SecretString, shown: &str, empty: bool)
    requires
        call_ensures(SecretString::new, (text,), secret),
        call_ensures(SecretString::expose, (&secret,), shown),
        call_ensures(SecretString::is_empty, (&secret,), empty),
    ensures
        shown@ == text@,
        empty <==> text@.len() == 0,
{
}

} // verus!
