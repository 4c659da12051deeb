//! Tailscale team sharing, two modes:
//!
//! - **Direct**: the gateway binds to the host's tailnet address
//!   (100.64.0.0/10) when a tunnel interface exists.
//! - **Serve**: with Tailscale in userspace networking (common in WSL) the
//!   gateway stays on loopback and a `tailscale serve` route under the `/tg`
//!   path prefix exposes it, so it never collides with another service's
//!   root-path route.
//!
//! Also: which of the host's IPv4 addresses is offered as its LAN address.

use vstd::prelude::*;
use crate::commands::{is_likely_vpn_interface, is_vpn_name};
use crate::text::{decimal_string, string_push_str, trim_end_char, u128_to_decimal};

verus! {

/// Path prefix of the serve-mode route.
pub const SERVE_PATH: &'static str = "/tg";

/// How this machine reaches the tailnet.
pub enum ShareMode {
    /// Bind directly to this tailnet address (its text).
    Direct(String),
    /// Tailscale userspace networking: exposed through `tailscale serve` on
    /// this host name.
    Serve(String),
    /// Tailscale is not available.
    Unavailable,
}

/// The sharing mode and the base URL teammates point their clients at.
pub struct ShareInfo {
    pub mode: ShareMode,
    pub endpoint: String,
}

/// The base URL for a mode and a port: `http://{ip}:{port}` directly,
/// `https://{host}/tg` through `tailscale serve`, and nothing without
/// Tailscale.
pub open spec fn endpoint_spec(mode: ShareMode, port: u16) -> Seq<char> {
    match mode {
        ShareMode::Direct(ip) => "http://"@ + ip@ + ":"@ + decimal_string(port as nat),
        ShareMode::Serve(host) => "https://"@ + host@ + "/tg"@,
        ShareMode::Unavailable => Seq::empty(),
    }
}

/// Endpoint for a given mode and port.
pub fn endpoint(mode: &ShareMode, port: u16) -> (r: String)
    ensures
        r@ == endpoint_spec(*mode, port),
{
    match mode {
        ShareMode::Direct(ip) => {
            let mut s = "http://".to_owned();
            string_push_str(&mut s, ip.as_str());
            string_push_str(&mut s, ":");
            let p = u128_to_decimal(port as u128);
            string_push_str(&mut s, p.as_str());
            s
        },
        ShareMode::Serve(host) => {
            let mut s = "https://".to_owned();
            string_push_str(&mut s, host.as_str());
            string_push_str(&mut s, "/tg");
            s
        },
        ShareMode::Unavailable => {
            let s = String::new();
            assert(s@ =~= Seq::<char>::empty());
            s
        },
    }
}

/// The sharing state for display: the mode and its endpoint.
pub fn info(mode: ShareMode, port: u16) -> (r: ShareInfo)
    ensures
        r.mode == mode,
        r.endpoint@ == endpoint_spec(mode, port),
{
    let e = endpoint(&mode, port);
    ShareInfo { mode, endpoint: e }
}

/// The mode to use: direct on a tailnet address when the host has one,
/// else serve under the self node's name when Tailscale reports one, else
/// unavailable.
pub fn detect_mode(tailnet_ip: Option<String>, self_name: Option<String>) -> (r: ShareMode)
    ensures
        r == match tailnet_ip {
            Some(ip) => ShareMode::Direct(ip),
            None => match self_name {
                Some(n) => ShareMode::Serve(n),
                None => ShareMode::Unavailable,
            },
        },
{
    match tailnet_ip {
        Some(ip) => ShareMode::Direct(ip),
        None => match self_name {
            Some(n) => ShareMode::Serve(n),
            None => ShareMode::Unavailable,
        },
    }
}

/// The self node of `tailscale status --json`.
pub struct SelfNode {
    pub dns_name: Option<String>,
    pub tailscale_ips: Vec<String>,
}

/// `tailscale status --json`, as far as sharing reads it.
pub struct TailscaleStatus {
    pub self_node: Option<SelfNode>,
}

/// The self node's name: its MagicDNS name without trailing dots when that
/// is not empty, else its first tailnet address.
pub open spec fn self_name_spec(status: TailscaleStatus) -> Option<Seq<char>> {
    match status.self_node {
        None => None,
        Some(node) => {
            let dns = match node.dns_name {
                Some(n) => trim_end_char(n@, '.'),
                None => Seq::empty(),
            };
            if node.dns_name is Some && dns.len() > 0 {
                Some(dns)
            } else if node.tailscale_ips@.len() > 0 {
                Some(node.tailscale_ips@[0]@)
            } else {
                None
            }
        },
    }
}

/// Pull the self node's name out of a status report, preferring the
/// MagicDNS name and falling back to the first tailnet address.
pub fn parse_self_dns_name(status: &TailscaleStatus) -> (r: Option<String>)
    ensures
        match r {
            Some(n) => self_name_spec(*status) == Some(n@),
            None => self_name_spec(*status) is None,
        },
{
    let node = match &status.self_node {
        Some(n) => n,
        None => return None,
    };
    match &node.dns_name {
        Some(n) => {
            let t = trim_trailing_dots(n.as_str());
            if !t.as_str().is_empty() {
                return Some(t);
            }
        },
        None => {},
    }
    if node.tailscale_ips.len() > 0 {
        Some(node.tailscale_ips[0].clone())
    } else {
        None
    }
}

fn trim_trailing_dots(s: &str) -> (r: String)
    ensures
        r@ == trim_end_char(s@, '.'),
{
    let v = crate::text::chars_of(s);
    let mut end = v.len();
    assert(v@.subrange(0, v@.len() as int) =~= v@);
    while end > 0 && v[end - 1] == '.'
        invariant
            end <= v@.len(),
            trim_end_char(s@, '.') == trim_end_char(v@.subrange(0, end as int), '.'),
            v@ == s@,
        decreases end,
    {
        assert(v@.subrange(0, end as int).drop_last() =~= v@.subrange(0, end - 1));
        end = end - 1;
    }
    assert(v@.subrange(0, v@.len() as int) =~= v@);
    if end > 0 {
        assert(v@.subrange(0, end as int).last() == v@[end - 1]);
    }
    crate::text::string_from_range(&v, 0, end)
}

// ---------------------------------------------------------------------------
// IPv4 addresses
// ---------------------------------------------------------------------------

/// An IPv4 address by its four octets.
pub type Ipv4 = (u8, u8, u8, u8);

/// Dotted-decimal text of an address.
pub open spec fn ipv4_text_spec(ip: Ipv4) -> Seq<char> {
    decimal_string(ip.0 as nat) + "."@ + decimal_string(ip.1 as nat) + "."@ + decimal_string(ip.2 as nat) + "."@
        + decimal_string(ip.3 as nat)
}

/// The dotted-decimal text of an address.
pub fn ipv4_text(ip: Ipv4) -> (r: String)
    ensures
        r@ == ipv4_text_spec(ip),
{
    let mut s = u128_to_decimal(ip.0 as u128);
    string_push_str(&mut s, ".");
    string_push_str(&mut s, u128_to_decimal(ip.1 as u128).as_str());
    string_push_str(&mut s, ".");
    string_push_str(&mut s, u128_to_decimal(ip.2 as u128).as_str());
    string_push_str(&mut s, ".");
    string_push_str(&mut s, u128_to_decimal(ip.3 as u128).as_str());
    s
}

/// The Tailscale CGNAT range 100.64.0.0/10.
pub open spec fn tailscale_range(ip: Ipv4) -> bool {
    ip.0 == 100 && 64 <= ip.1 && ip.1 < 128
}

/// True for addresses in the Tailscale CGNAT range 100.64.0.0/10; an
/// address that is not IPv4 (`None`) never is.
pub fn is_tailscale_ip(ip: Option<Ipv4>) -> (b: bool)
    ensures
        b == match ip {
            Some(v4) => tailscale_range(v4),
            None => false,
        },
{
    match ip {
        Some(v4) => v4.0 == 100 && 64 <= v4.1 && v4.1 < 128,
        None => false,
    }
}

/// The first tailnet address among the host's interface addresses.
pub open spec fn first_tailnet(addrs: Seq<Option<Ipv4>>) -> Option<Ipv4>
    decreases addrs.len(),
{
    if addrs.len() == 0 {
        None
    } else {
        match addrs[0] {
            Some(v4) => if tailscale_range(v4) { Some(v4) } else { first_tailnet(addrs.drop_first()) },
            None => first_tailnet(addrs.drop_first()),
        }
    }
}

/// The host's tailnet address, from its interface addresses (`None` for one
/// that is not IPv4).
pub fn tailscale_ipv4(addrs: &Vec<Option<Ipv4>>) -> (r: Option<Ipv4>)
    ensures
        r == first_tailnet(addrs@),
{
    let mut i: usize = 0;
    assert(addrs@.subrange(0, addrs@.len() as int) =~= addrs@);
    while i < addrs.len()
        invariant
            i <= addrs@.len(),
            first_tailnet(addrs@) == first_tailnet(addrs@.subrange(i as int, addrs@.len() as int)),
        decreases addrs.len() - i,
    {
        let ghost sub = addrs@.subrange(i as int, addrs@.len() as int);
        assert(sub[0] == addrs@[i as int]);
        assert(sub.drop_first() =~= addrs@.subrange(i + 1, addrs@.len() as int));
        if is_tailscale_ip(addrs[i]) {
            return addrs[i];
        }
        i = i + 1;
    }
    assert(addrs@.subrange(i as int, addrs@.len() as int) =~= Seq::<Option<Ipv4>>::empty());
    None
}

/// Loopback: 127.0.0.0/8.
pub open spec fn is_loopback_v4(ip: Ipv4) -> bool {
    ip.0 == 127
}

/// Private (RFC 1918): 10.0.0.0/8, 172.16.0.0/12 and 192.168.0.0/16.
pub open spec fn is_private_v4(ip: Ipv4) -> bool {
    ||| ip.0 == 10
    ||| (ip.0 == 172 && 16 <= ip.1 && ip.1 < 32)
    ||| (ip.0 == 192 && ip.1 == 168)
}

/// An interface whose address may be offered as the LAN address: IPv4, not
/// loopback, and not a VPN or tunnel adapter.
pub open spec fn lan_candidate(e: (Seq<char>, Option<Ipv4>)) -> bool {
    match e.1 {
        Some(v4) => !is_loopback_v4(v4) && !is_vpn_name(e.0),
        None => false,
    }
}

/// The first candidate whose address satisfies `private` (or any candidate
/// when `private` is false).
pub open spec fn first_candidate(es: Seq<(Seq<char>, Option<Ipv4>)>, private: bool) -> Option<Ipv4>
    decreases es.len(),
{
    if es.len() == 0 {
        None
    } else if lan_candidate(es[0]) && (!private || is_private_v4(es[0].1->0)) {
        es[0].1
    } else {
        first_candidate(es.drop_first(), private)
    }
}

/// The LAN address offered: the first private candidate address, else the
/// first candidate address.
pub open spec fn preferred_lan_spec(es: Seq<(Seq<char>, Option<Ipv4>)>) -> Option<Ipv4> {
    match first_candidate(es, true) {
        Some(ip) => Some(ip),
        None => first_candidate(es, false),
    }
}

/// Interfaces by name and address, by value.
pub open spec fn interfaces_view(v: Seq<(String, Option<Ipv4>)>) -> Seq<(Seq<char>, Option<Ipv4>)> {
    v.map_values(|e: (String, Option<Ipv4>)| (e.0@, e.1))
}

fn first_candidate_exec(es: &Vec<(String, Option<Ipv4>)>, private: bool) -> (r: Option<Ipv4>)
    ensures
        r == first_candidate(interfaces_view(es@), private),
{
    let ghost ev = interfaces_view(es@);
    let mut i: usize = 0;
    assert(ev.subrange(0, ev.len() as int) =~= ev);
    while i < es.len()
        invariant
            i <= es@.len(),
            ev == interfaces_view(es@),
            ev.len() == es@.len(),
            first_candidate(ev, private) == first_candidate(ev.subrange(i as int, ev.len() as int), private),
        decreases es.len() - i,
    {
        let ghost sub = ev.subrange(i as int, ev.len() as int);
        assert(sub[0] == ev[i as int]);
        assert(ev[i as int] == (es@[i as int].0@, es@[i as int].1));
        assert(sub.drop_first() =~= ev.subrange(i + 1, ev.len() as int));
        let (name, ip) = (&es[i].0, es[i].1);
        match ip {
            Some(v4) => {
                if v4.0 != 127 && !is_likely_vpn_interface(name.as_str()) {
                    let private_ok = v4.0 == 10 || (v4.0 == 172 && 16 <= v4.1 && v4.1 < 32) || (v4.0 == 192 && v4.1
                        == 168);
                    if !private || private_ok {
                        return Some(v4);
                    }
                }
            },
            None => {},
        }
        i = i + 1;
    }
    assert(ev.subrange(i as int, ev.len() as int) =~= Seq::<(Seq<char>, Option<Ipv4>)>::empty());
    None
}

/// The host's LAN address to offer, from its interfaces (name and address,
/// `None` for an address that is not IPv4): a private address when there is
/// one, skipping loopback and VPN or tunnel adapters.
pub fn preferred_lan_ip(interfaces: &Vec<(String, Option<Ipv4>)>) -> (r: Option<String>)
    ensures
        match preferred_lan_spec(interfaces_view(interfaces@)) {
            Some(ip) => r matches Some(t) && t@ == ipv4_text_spec(ip),
            None => r is None,
        },
{
    let chosen = match first_candidate_exec(interfaces, true) {
        Some(ip) => Some(ip),
        None => first_candidate_exec(interfaces, false),
    };
    match chosen {
        Some(ip) => Some(ipv4_text(ip)),
        None => None,
    }
}

} // verus!
