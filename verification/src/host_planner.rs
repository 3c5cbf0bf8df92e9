//! The earlier planner of the `ipcheck` tool: one rule per (address family,
//! port) pair for the exact host addresses, with no network prefixes.

use vstd::prelude::*;
use crate::addr::{ipv4_network, ipv4_text, ipv4_to_string, ipv6_network, ipv6_text, ipv6_to_string};
use crate::ip_detect::DetectedIps;
use crate::vultr::models::{FirewallRuleReq, FirewallRuleReqView, IpType};
use crate::planner::{family_requests, plan, push_family_requests, PortSpecView};

pub use crate::planner::PortSpec;

verus! {

/// The requests of the host planner: a /32 rule per port for the IPv4
/// address, then a /128 rule per port for the IPv6 address, each family
/// only when its address is present.
pub open spec fn host_plan(ips: DetectedIps, ports: Seq<PortSpecView>, note: Seq<char>) -> Seq<
    FirewallRuleReqView,
> {
    let v4 = match ips.ipv4 {
        Some(a) => family_requests(IpType::V4, ports, ipv4_text(a), 32, note),
        None => Seq::empty(),
    };
    let v6 = match ips.ipv6 {
        Some(a) => family_requests(IpType::V6, ports, ipv6_text(a), 128, note),
        None => Seq::empty(),
    };
    v4 + v6
}

/// Builds the firewall rule requests needed to open `ports` for whichever of
/// `ips.ipv4` / `ips.ipv6` are present, tagged with `note`. One rule is
/// produced per (address family, port) pair.
pub fn plan_add_rules(ips: &DetectedIps, ports: &[PortSpec], note: &str) -> (planned: Vec<
    FirewallRuleReq,
>)
    ensures
        planned.deep_view() == host_plan(*ips, ports.deep_view(), note@),
{
    let mut planned: Vec<FirewallRuleReq> = Vec::new();
    if let Some(v4) = ips.ipv4 {
        let subnet = ipv4_to_string(v4);
        push_family_requests(&mut planned, IpType::V4, ports, &subnet, 32, note);
    }
    if let Some(v6) = ips.ipv6 {
        let subnet = ipv6_to_string(v6);
        push_family_requests(&mut planned, IpType::V6, ports, &subnet, 128, note);
    }
    assert(planned.deep_view() =~= host_plan(*ips, ports.deep_view(), note@));
    planned
}

/// The host planner is the prefix planner with full-length prefixes: /32
/// for IPv4 and /128 for IPv6.
pub proof fn lemma_host_plan_is_full_prefix_plan(
    ips: DetectedIps,
    ports: Seq<PortSpecView>,
    note: Seq<char>,
)
    ensures
        host_plan(ips, ports, note) == plan(ips, ports, note, 32, 128),
{
    if ips.ipv4 is Some {
        let a = ips.ipv4->0;
        assert(a & 0xffff_ffffu32 == a) by (bit_vector);
        assert(ipv4_network(a, 32) == a);
    }
    if ips.ipv6 is Some {
        let b = ips.ipv6->0;
        assert(b & u128::MAX == b) by (bit_vector);
        assert(ipv6_network(b, 128) == b);
    }
}

} // verus!
