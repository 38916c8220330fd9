//! Routing decisions: the outbound route to a peer, the local bind address,
//! and the `route` command lines that pin a /32 host route.
use vstd::prelude::*;

use crate::net;
use crate::net::Ipv4;
use crate::text;

pub use crate::net::prefix_to_mask;

verus! {

/// The best route to a destination, as the routing table reports it.
#[derive(Clone, Copy, PartialEq, Eq, Structural, Debug)]
pub struct BestRoute {
    /// Next-hop gateway; the destination itself for an on-link route.
    pub gateway: Ipv4,
    /// Interface index of the outbound path.
    pub if_index: u32,
    /// Local address of the outbound interface.
    pub local_ip: Ipv4,
}

/// Builds the best route to `dest` from a routing-table answer. An on-link
/// route has no gateway (`0.0.0.0`); the destination itself is then the next
/// hop, as `route add` expects.
pub fn best_route_from(dest: Ipv4, next_hop: Ipv4, if_index: u32, source: Ipv4) -> (r: BestRoute)
    ensures
        r.gateway == (if next_hop.is_unspecified_spec() {
            dest
        } else {
            next_hop
        }),
        r.if_index == if_index,
        r.local_ip == source,
{
    let gateway = if next_hop.is_unspecified() {
        dest
    } else {
        next_hop
    };
    BestRoute { gateway, if_index, local_ip: source }
}

/// Whether the local bind address must be looked up in the routing table:
/// exactly when `local_ip` is `0.0.0.0`; `resolve_local_ip` then takes the
/// best route to the peer.
pub fn needs_route_lookup(local_ip: Ipv4) -> (r: bool)
    ensures
        r == local_ip.is_unspecified_spec(),
{
    local_ip.is_unspecified()
}

/// The local bind address: `local_ip` itself unless it is `0.0.0.0`, in which
/// case the local address of the best route to the peer (`None` when no route
/// was given).
pub fn resolve_local_ip(local_ip: Ipv4, best_route: Option<BestRoute>) -> (r: Option<Ipv4>)
    ensures
        !local_ip.is_unspecified_spec() ==> r == Some(local_ip),
        local_ip.is_unspecified_spec() ==> r == match best_route {
            Some(route) => Some(route.local_ip),
            None => None,
        },
{
    if !local_ip.is_unspecified() {
        return Some(local_ip);
    }
    match best_route {
        Some(route) => Some(route.local_ip),
        None => None,
    }
}

/// The arguments of `route` that add a /32 host route to `remote_ip` via
/// `gateway` on interface `if_idx`.
pub fn route_add_args(remote_ip: Ipv4, gateway: Ipv4, if_idx: u32) -> (r: Vec<String>)
    ensures
        r.deep_view() == seq![
            "add"@,
            net::ipv4_text(remote_ip),
            "mask"@,
            "255.255.255.255"@,
            net::ipv4_text(gateway),
            "if"@,
            text::dec(if_idx as nat),
        ],
{
    let mut r: Vec<String> = Vec::new();
    r.push(String::from_str("add"));
    r.push(net::format_ipv4(remote_ip));
    r.push(String::from_str("mask"));
    r.push(String::from_str("255.255.255.255"));
    r.push(net::format_ipv4(gateway));
    r.push(String::from_str("if"));
    r.push(text::decimal(if_idx));
    assert(r.deep_view() =~= seq![
        "add"@,
        net::ipv4_text(remote_ip),
        "mask"@,
        "255.255.255.255"@,
        net::ipv4_text(gateway),
        "if"@,
        text::dec(if_idx as nat),
    ]);
    r
}

/// The arguments of `route` that delete the /32 host route to `remote_ip`.
pub fn route_delete_args(remote_ip: Ipv4) -> (r: Vec<String>)
    ensures
        r.deep_view() == seq!["delete"@, net::ipv4_text(remote_ip), "mask"@, "255.255.255.255"@],
{
    let mut r: Vec<String> = Vec::new();
    r.push(String::from_str("delete"));
    r.push(net::format_ipv4(remote_ip));
    r.push(String::from_str("mask"));
    r.push(String::from_str("255.255.255.255"));
    assert(r.deep_view() =~= seq![
        "delete"@,
        net::ipv4_text(remote_ip),
        "mask"@,
        "255.255.255.255"@,
    ]);
    r
}

} // verus!
