//! When the server listens, where, and with which token.

use vstd::prelude::*;

use crate::numerals::{decimal, decimal_text};
use crate::settings::AppSettings;
use crate::text::{joined, same_text};

verus! {

/// Which machines can reach a listener.
#[derive(Clone, Copy, Debug, PartialEq, Eq, Structural)]
pub enum BindHost {
    /// Only this one, at `127.0.0.1`.
    Loopback,
    /// Every machine of the network, at `0.0.0.0`.
    AllInterfaces,
}

/// The address of a listener.
#[derive(Clone, Copy, Debug, PartialEq, Eq, Structural)]
pub struct ServerAddr {
    pub host: BindHost,
    pub port: u16,
}

impl ServerAddr {
    /// The address as it is written.
    pub open spec fn text(self) -> Seq<char> {
        (match self.host {
            BindHost::Loopback => "127.0.0.1:"@,
            BindHost::AllInterfaces => "0.0.0.0:"@,
        }) + decimal_text(self.port as nat)
    }

    /// Writes the address.
    pub fn to_text(&self) -> (r: String)
        ensures
            r@ == self.text(),
    {
        let host = match self.host {
            BindHost::Loopback => "127.0.0.1:",
            BindHost::AllInterfaces => "0.0.0.0:",
        };
        joined(host, decimal(self.port as u64).as_str())
    }
}

/// Where the settings want the server to listen.
pub open spec fn wanted_addr(settings: &AppSettings) -> ServerAddr {
    ServerAddr {
        host: if settings.server_expose_lan {
            BindHost::AllInterfaces
        } else {
            BindHost::Loopback
        },
        port: settings.server_port,
    }
}

/// Where the settings want the server to listen.
pub fn bind_addr(settings: &AppSettings) -> (r: ServerAddr)
    ensures
        r == wanted_addr(settings),
        r.port == settings.server_port,
        r.host == BindHost::AllInterfaces <==> settings.server_expose_lan,
        r.host == BindHost::Loopback <==> !settings.server_expose_lan,
{
    let host = if settings.server_expose_lan {
        BindHost::AllInterfaces
    } else {
        BindHost::Loopback
    };
    ServerAddr { host, port: settings.server_port }
}

/// A listener, and the token that its requests must present. The token is the one
/// of the moment in which it was started: a change of the settings does not reach
/// a running listener.
pub struct RunningServer {
    pub addr: ServerAddr,
    pub token: String,
    /// Tells this listener from those before and after it.
    pub generation: u64,
}

/// What there is to know of a listener.
pub struct Listener {
    pub addr: ServerAddr,
    pub token: Seq<char>,
    pub generation: u64,
}

impl View for RunningServer {
    type V = Listener;

    open spec fn view(&self) -> Listener {
        Listener { addr: self.addr, token: self.token@, generation: self.generation }
    }
}

/// The listener of this process, of which there is at most one.
pub struct ServerHandle {
    running: Option<RunningServer>,
    next_generation: u64,
}

/// What there is to know of a [`ServerHandle`].
pub struct HandleState {
    pub running: Option<Listener>,
    pub next_generation: u64,
}

impl View for ServerHandle {
    type V = HandleState;

    closed spec fn view(&self) -> HandleState {
        HandleState {
            running: match self.running {
                Some(server) => Some(server@),
                None => None,
            },
            next_generation: self.next_generation,
        }
    }
}

impl HandleState {
    /// The state in which a listener has just been started.
    pub open spec fn started(self, addr: ServerAddr, token: Seq<char>) -> HandleState {
        HandleState {
            running: Some(Listener { addr, token, generation: self.next_generation }),
            next_generation: if self.next_generation == u64::MAX {
                0
            } else {
                (self.next_generation + 1) as u64
            },
        }
    }

    /// The state in which no listener runs.
    pub open spec fn stopped(self) -> HandleState {
        HandleState { running: None, ..self }
    }

    /// The state in which the listener of the given generation is gone; any other
    /// is still there.
    pub open spec fn exited(self, generation: u64) -> HandleState {
        match self.running {
            Some(listener) if listener.generation == generation => self.stopped(),
            _ => self,
        }
    }
}

impl ServerHandle {
    /// A process whose server does not listen.
    pub fn new() -> (r: ServerHandle)
        ensures
            r@.running is None,
    {
        ServerHandle { running: None, next_generation: 0 }
    }

    /// Whether the server listens.
    pub fn is_running(&self) -> (r: bool)
        ensures
            r == (self@.running is Some),
    {
        self.running.is_some()
    }

    /// The address at which the server listens, if it does.
    pub fn bound_addr(&self) -> (r: Option<ServerAddr>)
        ensures
            r == match self@.running {
                Some(listener) => Some(listener.addr),
                None => None,
            },
    {
        match &self.running {
            Some(server) => Some(server.addr),
            None => None,
        }
    }

    /// Forgets the listener, which is told to shut down, and returns where it
    /// was.
    pub fn stop(&mut self) -> (r: Option<ServerAddr>)
        ensures
            final(self)@ == old(self)@.stopped(),
            r == match old(self)@.running {
                Some(listener) => Some(listener.addr),
                None => None,
            },
    {
        let addr = self.bound_addr();
        self.running = None;
        addr
    }

    /// Takes note of a listener that was started, and returns what tells it from
    /// others.
    pub fn started(&mut self, addr: ServerAddr, token: String) -> (generation: u64)
        ensures
            final(self)@ == old(self)@.started(addr, token@),
            generation == old(self)@.next_generation,
    {
        let generation: u64 = self.next_generation;
        self.running = Some(RunningServer { addr, token, generation });
        self.next_generation = if generation == u64::MAX {
            0
        } else {
            generation + 1
        };
        generation
    }

    /// Takes note that a listener has come to its end. A listener that has
    /// replaced it meanwhile is not touched.
    pub fn exited(&mut self, generation: u64)
        ensures
            final(self)@ == old(self)@.exited(generation),
    {
        let gone = match &self.running {
            Some(server) => server.generation == generation,
            None => false,
        };
        if gone {
            self.running = None;
        }
    }
}

/// A listener to start.
pub struct StartServer {
    pub addr: ServerAddr,
    pub token: String,
}

/// What has to be done so that the server is as the settings want it.
pub struct ServerPlan {
    /// Whether the running listener is shut down.
    pub stop: bool,
    /// The listener that is started then.
    pub start: Option<StartServer>,
}

/// What there is to know of a [`ServerPlan`].
pub struct Plan {
    pub stop: bool,
    pub start: Option<(ServerAddr, Seq<char>)>,
}

impl View for ServerPlan {
    type V = Plan;

    open spec fn view(&self) -> Plan {
        Plan {
            stop: self.stop,
            start: match self.start {
                Some(start) => Some((start.addr, start.token@)),
                None => None,
            },
        }
    }
}

/// Whether a listener is as the settings want it: at their address, and with
/// their token.
pub open spec fn up_to_date(settings: &AppSettings, running: Option<Listener>) -> bool {
    match running {
        Some(listener) => {
            &&& settings.server_enabled
            &&& listener.addr == wanted_addr(settings)
            &&& listener.token == settings.server_token@
        },
        None => !settings.server_enabled,
    }
}

/// What has to be done so that the server is as the settings want it: nothing if
/// it is already; otherwise the listener is shut down, and another is started if
/// the server is enabled and has a token.
pub open spec fn server_plan(settings: &AppSettings, running: Option<Listener>) -> Plan {
    if up_to_date(settings, running) {
        Plan { stop: false, start: None }
    } else {
        Plan {
            stop: running is Some,
            start: if settings.server_enabled && settings.server_token@.len() > 0 {
                Some((wanted_addr(settings), settings.server_token@))
            } else {
                None
            },
        }
    }
}

/// Finds out what has to be done so that the server is as the settings want it.
/// It is asked at startup and after every change of the settings.
pub fn apply_server_settings(settings: &AppSettings, handle: &ServerHandle) -> (plan: ServerPlan)
    ensures
        plan@ == server_plan(settings, handle@.running),
        plan.start matches Some(start) ==> {
            &&& settings.server_enabled
            &&& start.addr.port == settings.server_port
            &&& start.addr.host == BindHost::AllInterfaces <==> settings.server_expose_lan
            &&& start.addr.host == BindHost::Loopback <==> !settings.server_expose_lan
            &&& start.token@ == settings.server_token@
            &&& start.token@.len() > 0
        },
        !plan.stop ==> (handle@.running matches Some(listener) ==> {
            &&& settings.server_enabled
            &&& listener.addr.port == settings.server_port
            &&& listener.addr.host == BindHost::AllInterfaces <==> settings.server_expose_lan
            &&& listener.addr.host == BindHost::Loopback <==> !settings.server_expose_lan
            &&& listener.token == settings.server_token@
        }),
        settings.server_enabled && settings.server_token@.len() > 0 ==> plan.start is Some || (
        handle@.running is Some && !plan.stop),
{
    let want = bind_addr(settings);
    let unchanged = match &handle.running {
        Some(server) => settings.server_enabled && server.addr == want && same_text(
            server.token.as_str(),
            settings.server_token.expose(),
        ),
        None => !settings.server_enabled,
    };
    if unchanged {
        return ServerPlan { stop: false, start: None };
    }
    let stop = handle.is_running();
    if !settings.server_enabled || settings.server_token.is_empty() {
        return ServerPlan { stop, start: None };
    }
    let token = settings.server_token.expose().to_owned();
    ServerPlan { stop, start: Some(StartServer { addr: want, token }) }
}

/// The state in which a plan has been carried out.
pub open spec fn carried_out(state: HandleState, plan: Plan) -> HandleState {
    let state = if plan.stop {
        state.stopped()
    } else {
        state
    };
    match plan.start {
        Some((addr, token)) => state.started(addr, token),
        None => state,
    }
}

/// Once a plan has been carried out, there is nothing left to do: the settings
/// can be applied again and again.
pub proof fn law_applying_twice_changes_nothing(settings: &AppSettings, state: HandleState)
    ensures
        server_plan(settings, carried_out(state, server_plan(settings, state.running)).running)
            == (Plan { stop: false, start: None }),
{
}

/// The server never listens without a token.
pub proof fn law_no_listener_without_a_token(settings: &AppSettings, state: HandleState)
    requires
        state.running matches Some(listener) ==> listener.token.len() > 0,
    ensures
        carried_out(state, server_plan(settings, state.running)).running matches Some(listener)
            ==> listener.token.len() > 0,
{
}

/// A change of the token restarts the server: the old token stops working.
pub proof fn law_new_token_restarts_the_server(settings: &AppSettings, state: HandleState)
    requires
        state.running matches Some(listener) && listener.token != settings.server_token@,
        settings.server_enabled,
        settings.server_token@.len() > 0,
    ensures
        server_plan(settings, state.running).stop,
        carried_out(state, server_plan(settings, state.running)).running matches Some(listener)
            && listener.token == settings.server_token@ && listener.addr == wanted_addr(settings),
{
}

/// Turning the server off leaves no listener behind.
pub proof fn law_disabled_server_does_not_listen(settings: &AppSettings, state: HandleState)
    requires
        !settings.server_enabled,
    ensures
        carried_out(state, server_plan(settings, state.running)).running is None,
{
}

/// The end of a listener does not take down the one that replaced it.
pub proof fn law_replaced_listener_leaves_no_trace(
    state: HandleState,
    first: (ServerAddr, Seq<char>),
    second: (ServerAddr, Seq<char>),
)
    ensures
        ({
            let old_generation = state.next_generation;
            let restarted = state.started(first.0, first.1).stopped().started(second.0, second.1);
            restarted.exited(old_generation) == restarted
        }),
{
}

/// An enabled server with a token listens where the settings want it to, and asks for
/// their token, whatever it did before: after every change of the host, the port or the
/// token.
pub proof fn law_enabled_server_is_where_it_is_wanted(settings: &AppSettings, state: HandleState)
    requires
        settings.server_enabled,
        settings.server_token@.len() > 0,
    ensures
        carried_out(state, server_plan(settings, state.running)).running matches Some(listener) && {
            &&& listener.addr.port == settings.server_port
            &&& listener.addr.host == BindHost::AllInterfaces <==> settings.server_expose_lan
            &&& listener.addr.host == BindHost::Loopback <==> !settings.server_expose_lan
            &&& listener.token == settings.server_token@
        },
{
}

/// A listener is left alone exactly if it is as the settings want it: the server is
/// enabled, and port, host and token are theirs. Any other is shut down, and another is
/// started in its place if, and only if, the server is enabled and has a token.
pub proof fn law_only_a_right_listener_is_left_alone(
    settings: &AppSettings,
    running: Option<Listener>,
)
    ensures
        ({
            let plan = server_plan(settings, running);
            let host = if settings.server_expose_lan {
                BindHost::AllInterfaces
            } else {
                BindHost::Loopback
            };
            let addr = ServerAddr { host, port: settings.server_port };
            let right = running matches Some(listener) && settings.server_enabled
                && listener.addr.port == settings.server_port && listener.addr.host == host
                && listener.token == settings.server_token@;
            &&& plan.stop <==> running is Some && !right
            &&& plan.start == if !right && settings.server_enabled && settings.server_token@.len()
                > 0 {
                Some((addr, settings.server_token@))
            } else {
                None
            }
        }),
{
}

/// A listener that was started is the one that runs, until it is stopped or comes to
/// its end. The end of any other changes nothing.
pub proof fn law_the_started_listener_runs(
    state: HandleState,
    addr: ServerAddr,
    token: Seq<char>,
    generation: u64,
)
    ensures
        state.started(addr, token).running == Some(
            Listener { addr, token, generation: state.next_generation },
        ),
        state.next_generation < u64::MAX ==> state.started(addr, token).next_generation
            == state.next_generation + 1,
        state.next_generation == u64::MAX ==> state.started(addr, token).next_generation == 0,
        state.stopped().running is None,
        state.stopped().next_generation == state.next_generation,
        state.exited(generation).next_generation == state.next_generation,
        state.exited(generation).running == match state.running {
            Some(listener) => if listener.generation == generation {
                None
            } else {
                Some(listener)
            },
            None => None,
        },
{
}

/// An address is written as its host, a colon and its port.
pub proof fn law_addresses_are_written_in_full(port: u16)
    ensures
        (ServerAddr { host: BindHost::Loopback, port }).text() == "127.0.0.1:"@ + decimal_text(
            port as nat,
        ),
        (ServerAddr { host: BindHost::AllInterfaces, port }).text() == "0.0.0.0:"@ + decimal_text(
            port as nat,
        ),
{
}

/// A plan and a listener are known by what they hold.
pub proof fn law_plans_are_known_by_what_they_hold(plan: ServerPlan, server: RunningServer)
    ensures
        plan@.stop == plan.stop,
        plan@.start is None <==> plan.start is None,
        plan.start matches Some(start) ==> plan@.start == Some((start.addr, start.token@)),
        server@.addr == server.addr,
        server@.token == server.token@,
        server@.generation == server.generation,
{
}

/// A plan is carried out by stopping what runs, if it says so, and then starting what it
/// names; without either, all stays as it is.
pub proof fn law_plans_are_carried_out_in_order(
    state: HandleState,
    plan: Plan,
)
    ensures
        plan.start matches Some((addr, token)) ==> (carried_out(state, plan).running matches Some(
            listener,
        ) && listener.addr == addr && listener.token == token && listener.generation
            == state.next_generation),
        plan.start is None && plan.stop ==> carried_out(state, plan).running is None,
        plan.start is None && !plan.stop ==> carried_out(state, plan) == state,
{
}

/// Applying the settings leads to a listener where they want it: whatever runs before,
/// once the plan is carried out an enabled server with a token listens at their port,
/// for this machine alone or for all, and asks for their token. A disabled server does
/// not listen.
pub proof fn law_applied_settings_are_in_force(
    settings: &AppSettings,
    handle: ServerHandle,
    plan: ServerPlan,
)
    requires
        call_ensures(apply_server_settings, (settings, &handle), plan),
    ensures
        ({
            let after = match plan.start {
                Some(start) => Some((start.addr, start.token@)),
                None => match handle@.running {
                    Some(listener) => if plan.stop {
                        None
                    } else {
                        Some((listener.addr, listener.token))
                    },
                    None => None,
                },
            };
            &&& settings.server_enabled && settings.server_token@.len() > 0 ==> {
                &&& after matches Some((addr, token))
                &&& addr.port == settings.server_port
                &&& addr.host == BindHost::AllInterfaces <==> settings.server_expose_lan
                &&& addr.host == BindHost::Loopback <==> !settings.server_expose_lan
                &&& token == settings.server_token@
            }
            &&& !settings.server_enabled ==> after is None
            &&& plan.start is Some && handle@.running is Some ==> plan.stop
            &&& plan.stop ==> handle@.running is Some
        }),
        plan.start matches Some(start) ==> start.token@.len() > 0 && settings.server_enabled,
        handle@.running matches Some(listener) ==> (!plan.stop <==> settings.server_enabled
            && listener.addr.port == settings.server_port && (listener.addr.host
            == BindHost::AllInterfaces <==> settings.server_expose_lan) && listener.token
            == settings.server_token@),
{
}

/// A listener runs from its start until it is stopped or has come to its end; the end of
/// another one does not concern it.
pub proof fn law_one_listener_at_a_time(
    handle: &mut ServerHandle,
    addr: ServerAddr,
    token: String,
    generation: u64,
)
    requires
        call_ensures(ServerHandle::started, (handle, addr, token), generation),
    ensures
        final(handle)@.running == Some(Listener { addr, token: token@, generation }),
        generation == old(handle)@.next_generation,
        final(handle)@.next_generation != generation,
{
}

/// Stopping forgets the listener, and tells where it was.
pub proof fn law_stopping_forgets_the_listener(handle: &mut ServerHandle, r: Option<ServerAddr>)
    requires
        call_ensures(ServerHandle::stop, (handle,), r),
    ensures
        final(handle)@.running is None,
        final(handle)@.next_generation == old(handle)@.next_generation,
        r is None <==> old(handle)@.running is None,
        old(handle)@.running matches Some(listener) ==> r == Some(listener.addr),
{
}

/// The end of a listener is noted if it is the one that runs.
pub proof fn law_only_the_running_listener_can_end(handle: &mut ServerHandle, generation: u64)
    requires
        call_ensures(ServerHandle::exited, (handle, generation), ()),
    ensures
        final(handle)@.next_generation == old(handle)@.next_generation,
        old(handle)@.running matches Some(listener) && listener.generation == generation ==>
            final(handle)@.running is None,
        old(handle)@.running matches Some(listener) && listener.generation != generation ==>
            final(handle)@.running == old(handle)@.running,
{
}

/// An address is where the settings want the server, and is written as host and port.
pub proof fn law_addresses_follow_the_settings(
    settings: &AppSettings,
    addr: ServerAddr,
    text: String,
)
    requires
        call_ensures(bind_addr, (settings,), addr),
        call_ensures(ServerAddr::to_text, (&addr,), text),
    ensures
        addr.port == settings.server_port,
        addr.host == BindHost::AllInterfaces <==> settings.server_expose_lan,
        settings.server_expose_lan ==> text@ == "0.0.0.0:"@ + decimal_text(
            settings.server_port as nat,
        ),
        !settings.server_expose_lan ==> text@ == "127.0.0.1:"@ + decimal_text(
            settings.server_port as nat,
        ),
{
}

/// A process begins without a listener, and tells of the one that it has.
pub proof fn law_the_listener_is_told(
    fresh: ServerHandle,
    handle: ServerHandle,
    running: bool,
    addr: Option<ServerAddr>,
)
    requires
        call_ensures(ServerHandle::new, (), fresh),
        call_ensures(ServerHandle::is_running, (&handle,), running),
        call_ensures(ServerHandle::bound_addr, (&handle,), addr),
    ensures
        fresh@.running is None,
        running <==> handle@.running is Some,
        addr is Some <==> running,
        handle@.running matches Some(listener) ==> addr == Some(listener.addr),
{
}

} // verus!
