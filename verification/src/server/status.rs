//! What the settings panel shows of the server.

use vstd::prelude::*;
use vstd::string::StringExecFns;

use crate::numerals::{decimal, decimal_text};
use crate::server::lifecycle::ServerHandle;
use crate::settings::AppSettings;
use crate::text::joined;

verus! {

/// The state of the server of this machine.
#[derive(Debug)]
pub struct ServerStatus {
    pub running: bool,
    /// The address at which the server listens, e.g. `0.0.0.0:8756`.
    pub bound_address: Option<String>,
    /// The addresses that a client can use, ready to be copied.
    pub client_urls: Vec<String>,
    pub token: String,
}

/// An address that the name of this machine resolves to.
#[derive(Clone, Copy, Debug, PartialEq, Eq, Structural)]
pub enum HostAddr {
    V4 { a: u8, b: u8, c: u8, d: u8 },
    /// Needs brackets in a URL, which most users would not type back in.
    V6,
}

/// The URL of a server at an IPv4 address.
pub open spec fn v4_url(a: u8, b: u8, c: u8, d: u8, port: u16) -> Seq<char> {
    "http://"@ + decimal_text(a as nat) + "."@ + decimal_text(b as nat) + "."@ + decimal_text(
        c as nat,
    ) + "."@ + decimal_text(d as nat) + ":"@ + decimal_text(port as nat)
}

/// Writes the URL of a server at an IPv4 address.
fn write_v4_url(a: u8, b: u8, c: u8, d: u8, port: u16) -> (r: String)
    ensures
        r@ == v4_url(a, b, c, d, port),
{
    let mut url = joined("http://", decimal(a as u64).as_str());
    url.append(".");
    url.append(decimal(b as u64).as_str());
    url.append(".");
    url.append(decimal(c as u64).as_str());
    url.append(".");
    url.append(decimal(d as u64).as_str());
    url.append(":");
    url.append(decimal(port as u64).as_str());
    url
}

/// The URL of a server at an address that leads from another machine to this one:
/// an IPv4 address that is not the loopback.
pub open spec fn lan_url(addr: HostAddr, port: u16) -> Option<Seq<char>> {
    match addr {
        HostAddr::V4 { a, b, c, d } if a != 127 => Some(v4_url(a, b, c, d, port)),
        _ => None,
    }
}

/// The URLs of those addresses that lead from another machine to this one.
pub open spec fn lan_urls(resolved: Seq<HostAddr>, port: u16) -> Seq<Seq<char>>
    decreases resolved.len(),
{
    if resolved.len() == 0 {
        seq![]
    } else {
        let before = lan_urls(resolved.drop_last(), port);
        match lan_url(resolved.last(), port) {
            Some(url) => before.push(url),
            None => before,
        }
    }
}

/// `list` without the elements that are the same as the one before them.
pub open spec fn dedup(list: Seq<Seq<char>>) -> Seq<Seq<char>>
    decreases list.len(),
{
    if list.len() == 0 {
        seq![]
    } else {
        let before = dedup(list.drop_last());
        if before.len() > 0 && before.last() == list.last() {
            before
        } else {
            before.push(list.last())
        }
    }
}

/// The URLs that a client can use: those that lead here from another machine, and
/// last the one for this machine itself.
pub open spec fn urls_for(resolved: Seq<HostAddr>, port: u16) -> Seq<Seq<char>> {
    dedup(lan_urls(resolved, port).push(v4_url(127, 0, 0, 1, port)))
}

/// What a list of texts says.
pub open spec fn texts(list: Seq<String>) -> Seq<Seq<char>> {
    Seq::new(list.len(), |i: int| list[i]@)
}

/// Puts `url` at the end of `urls`, unless it is there already.
fn push_once(urls: &mut Vec<String>, url: String)
    ensures
        texts(final(urls)@) == if texts(old(urls)@).len() > 0 && texts(old(urls)@).last() == url@ {
            texts(old(urls)@)
        } else {
            texts(old(urls)@).push(url@)
        },
{
    let count: usize = urls.len();
    if count > 0 && urls[count - 1] == url {
        return;
    }
    urls.push(url);
    assert(texts(urls@) =~= texts(old(urls)@).push(url@));
}

/// The URLs that a client can use to reach a server on `port` of this machine,
/// whose name resolves to the given addresses.
pub fn client_urls(port: u16, resolved: &[HostAddr]) -> (urls: Vec<String>)
    ensures
        texts(urls@) == urls_for(resolved@, port),
{
    let mut urls: Vec<String> = Vec::new();
    let mut i: usize = 0;
    assert(texts(urls@) =~= dedup(lan_urls(resolved@.take(0), port)));
    while i < resolved.len()
        invariant
            i <= resolved@.len(),
            texts(urls@) == dedup(lan_urls(resolved@.take(i as int), port)),
        decreases resolved@.len() - i,
    {
        let ghost before = lan_urls(resolved@.take(i as int), port);
        assert(resolved@.take(i + 1).drop_last() =~= resolved@.take(i as int));
        if let HostAddr::V4 { a, b, c, d } = resolved[i] {
            if a != 127 {
                push_once(&mut urls, write_v4_url(a, b, c, d, port));
                assert(before.push(v4_url(a, b, c, d, port)).drop_last() =~= before);
            }
        }
        i = i + 1;
    }
    assert(resolved@.take(resolved@.len() as int) =~= resolved@);
    let ghost before = lan_urls(resolved@, port);
    push_once(&mut urls, write_v4_url(127, 0, 0, 1, port));
    assert(before.push(v4_url(127, 0, 0, 1, port)).drop_last() =~= before);
    urls
}

/// Describes the server of this machine, whose name resolves to the given
/// addresses.
pub fn get_server_status(
    settings: &AppSettings,
    handle: &ServerHandle,
    resolved: &[HostAddr],
) -> (r: ServerStatus)
    ensures
        r.running == (handle@.running is Some),
        r.token@ == settings.server_token@,
        match handle@.running {
            Some(listener) => {
                &&& r.bound_address matches Some(address)
                &&& address@ == listener.addr.text()
                &&& texts(r.client_urls@) == urls_for(resolved@, listener.addr.port)
            },
            None => r.bound_address is None && r.client_urls@.len() == 0,
        },
{
    let token = settings.server_token.expose().to_owned();
    match handle.bound_addr() {
        Some(addr) => ServerStatus {
            running: handle.is_running(),
            bound_address: Some(addr.to_text()),
            client_urls: client_urls(addr.port, resolved),
            token,
        },
        None => ServerStatus {
            running: handle.is_running(),
            bound_address: None,
            client_urls: Vec::new(),
            token,
        },
    }
}

/// The URL for this machine itself is always offered, and always last.
pub proof fn law_loopback_is_offered_last(resolved: Seq<HostAddr>, port: u16)
    ensures
        urls_for(resolved, port).len() > 0,
        urls_for(resolved, port).last() == v4_url(127, 0, 0, 1, port),
{
    let before = lan_urls(resolved, port);
    assert(before.push(v4_url(127, 0, 0, 1, port)).drop_last() =~= before);
}

proof fn lemma_dedup_keeps_elements(list: Seq<Seq<char>>, url: Seq<char>)
    ensures
        dedup(list).contains(url) <==> list.contains(url),
    decreases list.len(),
{
    if list.len() > 0 {
        let shorter = list.drop_last();
        let before = dedup(shorter);
        lemma_dedup_keeps_elements(shorter, url);
        assert(list =~= shorter.push(list.last()));
        vstd::seq_lib::lemma_seq_contains_after_push(shorter, list.last(), url);
        vstd::seq_lib::lemma_seq_contains_after_push(before, list.last(), url);
        if before.len() > 0 && before.last() == list.last() {
            assert(before.contains(before.last()));
        }
    }
}

proof fn lemma_lan_urls(resolved: Seq<HostAddr>, port: u16, url: Seq<char>)
    ensures
        lan_urls(resolved, port).contains(url) <==> exists|i: int|
            0 <= i < resolved.len() && lan_url(#[trigger] resolved[i], port) == Some(url),
    decreases resolved.len(),
{
    if resolved.len() > 0 {
        let shorter = resolved.drop_last();
        let before = lan_urls(shorter, port);
        lemma_lan_urls(shorter, port, url);
        assert(forall|i: int| 0 <= i < shorter.len() ==> shorter[i] == resolved[i]);
        let last = resolved.len() - 1;
        assert(resolved[last] == resolved.last());
        if let Some(added) = lan_url(resolved.last(), port) {
            vstd::seq_lib::lemma_seq_contains_after_push(before, added, url);
        }
    }
}

/// Every address that leads here from another machine is offered, and nothing else
/// is but the loopback.
pub proof fn law_reachable_addresses_are_offered(
    resolved: Seq<HostAddr>,
    port: u16,
    url: Seq<char>,
)
    ensures
        urls_for(resolved, port).contains(url) <==> url == v4_url(127, 0, 0, 1, port) || exists|
            i: int,
        |
            0 <= i < resolved.len() && lan_url(#[trigger] resolved[i], port) == Some(url),
{
    let loopback = v4_url(127, 0, 0, 1, port);
    lemma_lan_urls(resolved, port, url);
    lemma_dedup_keeps_elements(lan_urls(resolved, port).push(loopback), url);
    vstd::seq_lib::lemma_seq_contains_after_push(lan_urls(resolved, port), loopback, url);
}

/// A URL names the scheme, the four numbers of the address and the port. Only an IPv4
/// address gives one, and none that starts with 127 does.
pub proof fn law_urls_name_address_and_port(a: u8, b: u8, c: u8, d: u8, port: u16)
    ensures
        v4_url(a, b, c, d, port) == "http://"@ + decimal_text(a as nat) + "."@ + decimal_text(
            b as nat,
        ) + "."@ + decimal_text(c as nat) + "."@ + decimal_text(d as nat) + ":"@ + decimal_text(
            port as nat,
        ),
        a != 127 ==> lan_url(HostAddr::V4 { a, b, c, d }, port) == Some(
            "http://"@ + decimal_text(a as nat) + "."@ + decimal_text(b as nat) + "."@
                + decimal_text(c as nat) + "."@ + decimal_text(d as nat) + ":"@ + decimal_text(
                port as nat,
            ),
        ),
        a == 127 ==> lan_url(HostAddr::V4 { a, b, c, d }, port) is None,
        lan_url(HostAddr::V6, port) is None,
{
}

/// The URLs stand in the order of the addresses: those of two lists in a row are the
/// URLs of the first and then those of the second.
pub proof fn law_urls_keep_the_order(
    first: Seq<HostAddr>,
    second: Seq<HostAddr>,
    addr: HostAddr,
    port: u16,
)
    ensures
        lan_urls(first + second, port) == lan_urls(first, port) + lan_urls(second, port),
        lan_urls(seq![addr], port) == match lan_url(addr, port) {
            Some(url) => seq![url],
            None => seq![],
        },
    decreases second.len(),
{
    reveal_with_fuel(lan_urls, 2);
    assert(seq![addr].drop_last() =~= seq![]);
    if second.len() == 0 {
        assert(first + second =~= first);
    } else {
        law_urls_keep_the_order(first, second.drop_last(), addr, port);
        assert((first + second).drop_last() =~= first + second.drop_last());
        assert((first + second).last() == second.last());
    }
}

proof fn lemma_dedup_keeps_the_last(list: Seq<Seq<char>>)
    requires
        list.len() > 0,
    ensures
        dedup(list).len() > 0,
        dedup(list).last() == list.last(),
{
}

/// What is the same as the one before it is left out, and nothing else is.
pub proof fn law_only_repeated_urls_are_left_out(list: Seq<Seq<char>>, url: Seq<char>)
    ensures
        dedup(Seq::<Seq<char>>::empty()) == Seq::<Seq<char>>::empty(),
        dedup(list.push(url)) == if list.len() > 0 && list.last() == url {
            dedup(list)
        } else {
            dedup(list).push(url)
        },
{
    assert(list.push(url).drop_last() =~= list);
    if list.len() > 0 {
        lemma_dedup_keeps_the_last(list);
    }
}

/// Where no two URLs in a row are the same, a client is offered them all, in the order
/// of the addresses, and the one for this machine behind them.
pub proof fn law_different_urls_are_all_offered(resolved: Seq<HostAddr>, port: u16)
    ensures
        ({
            let loopback = "http://"@ + decimal_text(127) + "."@ + decimal_text(0) + "."@
                + decimal_text(0) + "."@ + decimal_text(1) + ":"@ + decimal_text(port as nat);
            let all = lan_urls(resolved, port).push(loopback);
            (forall|i: int| 0 <= i < all.len() - 1 ==> #[trigger] all[i] != all[i + 1])
                ==> urls_for(resolved, port) == all
        }),
{
    let all = lan_urls(resolved, port).push(v4_url(127, 0, 0, 1, port));
    if forall|i: int| 0 <= i < all.len() - 1 ==> #[trigger] all[i] != all[i + 1] {
        lemma_dedup_of_different(all);
    }
}

proof fn lemma_dedup_of_different(list: Seq<Seq<char>>)
    requires
        forall|i: int| 0 <= i < list.len() - 1 ==> #[trigger] list[i] != list[i + 1],
    ensures
        dedup(list) == list,
    decreases list.len(),
{
    if list.len() > 0 {
        let shorter = list.drop_last();
        assert forall|i: int| 0 <= i < shorter.len() - 1 implies #[trigger] shorter[i] != shorter[i
            + 1] by {
            assert(list[i] != list[i + 1]);
        }
        lemma_dedup_of_different(shorter);
        if shorter.len() > 0 {
            let i = list.len() - 2;
            assert(list[i] != list[i + 1]);
        }
        assert(dedup(list) =~= list);
    }
}

/// A list of URLs is known by what each of them says.
pub proof fn law_lists_are_known_by_what_they_say(list: Seq<String>, i: int)
    ensures
        texts(list).len() == list.len(),
        0 <= i < list.len() ==> texts(list)[i] == list[i]@,
{
}

/// The status tells whether the server listens, where, and with which token, and offers
/// the URL for this machine last.
pub proof fn law_the_status_tells_what_runs(
    settings: &AppSettings,
    handle: ServerHandle,
    resolved: &[HostAddr],
    r: ServerStatus,
)
    requires
        call_ensures(get_server_status, (settings, &handle, resolved), r),
    ensures
        r.running <==> handle@.running is Some,
        r.token@ == settings.server_token@,
        r.bound_address is Some <==> r.running,
        !r.running ==> r.client_urls@.len() == 0,
        handle@.running matches Some(listener) ==> {
            &&& r.bound_address->Some_0@ == listener.addr.text()
            &&& r.client_urls@.len() > 0
            &&& r.client_urls@.last()@ == "http://"@ + decimal_text(127) + "."@ + decimal_text(0)
                + "."@ + decimal_text(0) + "."@ + decimal_text(1) + ":"@ + decimal_text(
                listener.addr.port as nat,
            )
            &&& texts(r.client_urls@) == urls_for(resolved@, listener.addr.port)
        },
{
    if let Some(listener) = handle@.running {
        law_loopback_is_offered_last(resolved@, listener.addr.port);
        assert(texts(r.client_urls@).last() == r.client_urls@.last()@);
    }
}

} // verus!
