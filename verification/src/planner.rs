//! Planning firewall rules for this machine's current addresses, and
//! finding the rules that an earlier address left behind.

use vstd::prelude::*;
use crate::addr::{ipv4_network, ipv4_text, ipv4_to_string, ipv6_network, ipv6_text, ipv6_to_string};

pub use crate::addr::{ipv4_network_prefix, ipv6_network_prefix};
use crate::ip_detect::DetectedIps;
use crate::vultr::models::{
    FirewallRule, FirewallRuleReq, FirewallRuleReqView, FirewallRuleView, IpType, Protocol,
};
use crate::text::{dec_string, dec_text, int_text, push_char, push_dec, push_int, string_from};

verus! {

/// Ports commonly opened for a management IP: SSH, HTTP, HTTPS.
pub const DEFAULT_PORTS: [u16; 3] = [22, 80, 443];

/// Default IPv6 prefix length used for generated rules. Many hosts rotate
/// their IPv6 host address via privacy extensions while keeping the same
/// ISP-assigned prefix, so opening the whole /64 prefix (rather than a
/// single /128 host address) avoids needing a new rule on every rotation.
pub const DEFAULT_IPV6_PREFIX_LEN: u8 = 64;

/// Default IPv4 prefix length used for generated rules: a single host.
pub const DEFAULT_IPV4_PREFIX_LEN: u8 = 32;

/// A port (or port range) and protocol to open, e.g. `22/tcp` or
/// `"8000:9000"/tcp`.
#[derive(Debug, PartialEq, Eq)]
pub struct PortSpec {
    pub port: String,
    pub protocol: Protocol,
}

/// The contents of a [`PortSpec`].
pub struct PortSpecView {
    pub port: Seq<char>,
    pub protocol: Protocol,
}

impl View for PortSpec {
    type V = PortSpecView;

    open spec fn view(&self) -> PortSpecView {
        PortSpecView { port: self.port@, protocol: self.protocol }
    }
}

impl DeepView for PortSpec {
    type V = PortSpecView;

    open spec fn deep_view(&self) -> PortSpecView {
        self@
    }
}

impl Clone for PortSpec {
    fn clone(&self) -> (r: Self)
        ensures
            r@ == self@,
    {
        PortSpec { port: self.port.clone(), protocol: self.protocol }
    }
}

impl PortSpec {
    /// A single TCP port, e.g. `PortSpec::tcp(22)`.
    pub fn tcp(port: u16) -> (s: Self)
        ensures
            s@ == (PortSpecView { port: dec_text(port as nat), protocol: Protocol::Tcp }),
    {
        PortSpec { port: dec_string(port as u128), protocol: Protocol::Tcp }
    }
}

/// The request that opens `spec` for `subnet`/`subnet_size`, tagged `note`.
pub open spec fn planned_request(
    ip_type: IpType,
    spec: PortSpecView,
    subnet: Seq<char>,
    subnet_size: u8,
    note: Seq<char>,
) -> FirewallRuleReqView {
    FirewallRuleReqView {
        ip_type,
        protocol: spec.protocol,
        subnet,
        subnet_size: subnet_size as i64,
        port: spec.port,
        source: Seq::empty(),
        notes: note,
    }
}

/// One request per port, in order, for one address family.
pub open spec fn family_requests(
    ip_type: IpType,
    ports: Seq<PortSpecView>,
    subnet: Seq<char>,
    subnet_size: u8,
    note: Seq<char>,
) -> Seq<FirewallRuleReqView> {
    ports.map_values(|p: PortSpecView| planned_request(ip_type, p, subnet, subnet_size, note))
}

/// The requests `plan_add_rules` builds: the IPv4 ones (for the network of
/// the IPv4 address) followed by the IPv6 ones (for the network of the
/// IPv6 address), each family only when its address is present.
pub open spec fn plan(
    ips: DetectedIps,
    ports: Seq<PortSpecView>,
    note: Seq<char>,
    ipv4_prefix_len: u8,
    ipv6_prefix_len: u8,
) -> Seq<FirewallRuleReqView> {
    let v4 = match ips.ipv4 {
        Some(a) => family_requests(
            IpType::V4,
            ports,
            ipv4_text(ipv4_network(a, ipv4_prefix_len)),
            ipv4_prefix_len,
            note,
        ),
        None => Seq::empty(),
    };
    let v6 = match ips.ipv6 {
        Some(a) => family_requests(
            IpType::V6,
            ports,
            ipv6_text(ipv6_network(a, ipv6_prefix_len)),
            ipv6_prefix_len,
            note,
        ),
        None => Seq::empty(),
    };
    v4 + v6
}

pub(crate) fn push_family_requests(
    planned: &mut Vec<FirewallRuleReq>,
    ip_type: IpType,
    ports: &[PortSpec],
    subnet: &String,
    subnet_size: u8,
    note: &str,
)
    ensures
        final(planned).deep_view() == old(planned).deep_view() + family_requests(
            ip_type,
            ports.deep_view(),
            subnet@,
            subnet_size,
            note@,
        ),
{
    let ghost start = planned.deep_view();
    let ghost all = family_requests(ip_type, ports.deep_view(), subnet@, subnet_size, note@);
    let mut i: usize = 0;
    while i < ports.len()
        invariant
            i <= ports@.len(),
            all == family_requests(ip_type, ports.deep_view(), subnet@, subnet_size, note@),
            planned.deep_view() == start + all.take(i as int),
        decreases ports.len() - i,
    {
        let spec = &ports[i];
        let req = FirewallRuleReq {
            ip_type,
            protocol: spec.protocol,
            subnet: subnet.clone(),
            subnet_size: subnet_size as i64,
            port: spec.port.clone(),
            source: String::new(),
            notes: string_from(note),
        };
        let ghost before = planned.deep_view();
        planned.push(req);
        assert(all[i as int] == planned_request(ip_type, spec@, subnet@, subnet_size, note@));
        assert(planned.deep_view() =~= before.push(all[i as int]));
        assert(all.take(i + 1) =~= all.take(i as int).push(all[i as int]));
        i = i + 1;
    }
    assert(all.take(ports@.len() as int) =~= all);
}

/// Builds the firewall rule requests needed to open `ports` for whichever of
/// `ips.ipv4` / `ips.ipv6` are present, tagged with `note`. One rule is
/// produced per (address family, port) pair.
///
/// The IPv4 rule targets the `ipv4_prefix_len`-bit network prefix containing
/// the address (see [`DEFAULT_IPV4_PREFIX_LEN`] for the usual single-host
/// default). The IPv6 rule targets the `ipv6_prefix_len`-bit network prefix
/// containing the detected address (see [`DEFAULT_IPV6_PREFIX_LEN`]) rather
/// than a single /128 host, since the host portion commonly rotates while
/// the prefix stays stable.
pub fn plan_add_rules(
    ips: &DetectedIps,
    ports: &[PortSpec],
    note: &str,
    ipv4_prefix_len: u8,
    ipv6_prefix_len: u8,
) -> (planned: Vec<FirewallRuleReq>)
    ensures
        planned.deep_view() == plan(*ips, ports.deep_view(), note@, ipv4_prefix_len, ipv6_prefix_len),
{
    let mut planned: Vec<FirewallRuleReq> = Vec::new();
    if let Some(v4) = ips.ipv4 {
        let network = ipv4_network_prefix(v4, ipv4_prefix_len);
        let subnet = ipv4_to_string(network);
        push_family_requests(&mut planned, IpType::V4, ports, &subnet, ipv4_prefix_len, note);
    }
    let ghost after_v4 = planned.deep_view();
    if let Some(v6) = ips.ipv6 {
        let network = ipv6_network_prefix(v6, ipv6_prefix_len);
        let subnet = ipv6_to_string(network);
        push_family_requests(&mut planned, IpType::V6, ports, &subnet, ipv6_prefix_len, note);
    }
    assert(planned.deep_view() =~= plan(
        *ips,
        ports.deep_view(),
        note@,
        ipv4_prefix_len,
        ipv6_prefix_len,
    ));
    planned
}

/// The text `subnet/size` under which rules are compared.
pub open spec fn subnet_text(subnet: Seq<char>, subnet_size: int) -> Seq<char> {
    subnet + seq!['/'] + int_text(subnet_size)
}

/// The subnet of the current IPv4 address: the single host, `a.b.c.d/32`.
pub open spec fn current_ipv4_subnet(ips: DetectedIps) -> Option<Seq<char>> {
    match ips.ipv4 {
        Some(a) => Some(ipv4_text(a) + seq!['/', '3', '2']),
        None => None,
    }
}

/// The subnet of the current IPv6 address: its `ipv6_prefix_len`-bit network.
pub open spec fn current_ipv6_subnet(ips: DetectedIps, ipv6_prefix_len: u8) -> Option<Seq<char>> {
    match ips.ipv6 {
        Some(a) => Some(
            ipv6_text(ipv6_network(a, ipv6_prefix_len)) + seq!['/'] + dec_text(
                ipv6_prefix_len as nat,
            ),
        ),
        None => None,
    }
}

/// A rule is stale when it carries `notes` and its subnet is neither the
/// current IPv4 subnet nor the current IPv6 subnet.
pub open spec fn is_stale(
    r: FirewallRuleView,
    ips: DetectedIps,
    notes: Seq<char>,
    ipv6_prefix_len: u8,
) -> bool {
    &&& r.notes == notes
    &&& Some(subnet_text(r.subnet, r.subnet_size as int)) != current_ipv4_subnet(ips)
    &&& Some(subnet_text(r.subnet, r.subnet_size as int)) != current_ipv6_subnet(
        ips,
        ipv6_prefix_len,
    )
}

/// The stale rules among `rules`, in their order.
pub open spec fn stale_rules(
    rules: Seq<FirewallRuleView>,
    ips: DetectedIps,
    notes: Seq<char>,
    ipv6_prefix_len: u8,
) -> Seq<FirewallRuleView> {
    rules.filter(|r: FirewallRuleView| is_stale(r, ips, notes, ipv6_prefix_len))
}

fn optional_eq(a: &String, b: &Option<String>) -> (r: bool)
    ensures
        r == match b {
            Some(s) => a@ == s@,
            None => false,
        },
{
    match b {
        Some(s) => *a == *s,
        None => false,
    }
}

/// Finds rules tagged with `notes` whose subnet no longer matches either of
/// `ips`' currently-detected addresses (v4 as a /32, v6 as the
/// `ipv6_prefix_len`-bit network prefix — mirroring [`plan_add_rules`]).
/// These are the rules a caller should offer to delete: they were created
/// for an IP address this machine no longer has.
pub fn find_stale_rules(
    rules: &[FirewallRule],
    ips: &DetectedIps,
    notes: &str,
    ipv6_prefix_len: u8,
) -> (stale: Vec<FirewallRule>)
    ensures
        stale.deep_view() == stale_rules(rules.deep_view(), *ips, notes@, ipv6_prefix_len),
{
    let current_v4: Option<String> = match ips.ipv4 {
        Some(v4) => {
            let mut s = ipv4_to_string(v4);
            push_char(&mut s, '/');
            push_char(&mut s, '3');
            push_char(&mut s, '2');
            Some(s)
        },
        None => None,
    };
    let current_v6: Option<String> = match ips.ipv6 {
        Some(v6) => {
            let mut s = ipv6_to_string(ipv6_network_prefix(v6, ipv6_prefix_len));
            push_char(&mut s, '/');
            push_dec(&mut s, ipv6_prefix_len as u128);
            Some(s)
        },
        None => None,
    };
    proof {
        assert(current_v4.deep_view() == current_ipv4_subnet(*ips));
        assert(current_v6.deep_view() == current_ipv6_subnet(*ips, ipv6_prefix_len));
    }
    let notes_s = string_from(notes);
    let ghost pred = |r: FirewallRuleView| is_stale(r, *ips, notes@, ipv6_prefix_len);
    let ghost all = rules.deep_view();
    let mut stale: Vec<FirewallRule> = Vec::new();
    let mut i: usize = 0;
    while i < rules.len()
        invariant
            i <= rules@.len(),
            all == rules.deep_view(),
            notes_s@ == notes@,
            current_v4.deep_view() == current_ipv4_subnet(*ips),
            current_v6.deep_view() == current_ipv6_subnet(*ips, ipv6_prefix_len),
            pred == (|r: FirewallRuleView| is_stale(r, *ips, notes@, ipv6_prefix_len)),
            stale.deep_view() == all.take(i as int).filter(pred),
        decreases rules.len() - i,
    {
        proof {
            reveal_with_fuel(Seq::<_>::filter, 1);
        }
        let r = &rules[i];
        let ghost before = stale.deep_view();
        assert(all.take(i + 1).drop_last() =~= all.take(i as int));
        assert(all.take(i + 1).last() == r@);
        if r.notes == notes_s {
            let mut key = r.subnet.clone();
            push_char(&mut key, '/');
            push_int(&mut key, r.subnet_size);
            assert(key@ == subnet_text(r.subnet@, r.subnet_size as int));
            let is_current_v4 = optional_eq(&key, &current_v4);
            let is_current_v6 = optional_eq(&key, &current_v6);
            if !is_current_v4 && !is_current_v6 {
                stale.push(r.clone());
                assert(stale.deep_view() =~= before.push(r@));
            }
        }
        i = i + 1;
    }
    assert(all.take(rules@.len() as int) =~= all);
    stale
}


/// One request per (present address family, port) pair.
pub proof fn lemma_plan_len(
    ips: DetectedIps,
    ports: Seq<PortSpecView>,
    note: Seq<char>,
    ipv4_prefix_len: u8,
    ipv6_prefix_len: u8,
)
    ensures
        plan(ips, ports, note, ipv4_prefix_len, ipv6_prefix_len).len() == (if ips.ipv4 is Some {
            ports.len()
        } else {
            0
        }) + (if ips.ipv6 is Some {
            ports.len()
        } else {
            0
        }),
{
}

/// What `find_stale_rules` reports is exactly the stale rules: each
/// reported rule is one of `rules` and is stale (so it carries `notes`),
/// and each stale rule of `rules` is reported.
pub proof fn lemma_stale_rules_members(
    rules: Seq<FirewallRuleView>,
    ips: DetectedIps,
    notes: Seq<char>,
    ipv6_prefix_len: u8,
)
    ensures
        forall|i: int|
            0 <= i < stale_rules(rules, ips, notes, ipv6_prefix_len).len() ==> {
                let r = #[trigger] stale_rules(rules, ips, notes, ipv6_prefix_len)[i];
                &&& is_stale(r, ips, notes, ipv6_prefix_len)
                &&& r.notes == notes
                &&& rules.contains(r)
            },
        forall|i: int|
            0 <= i < rules.len() && is_stale(rules[i], ips, notes, ipv6_prefix_len)
                ==> #[trigger] stale_rules(rules, ips, notes, ipv6_prefix_len).contains(rules[i]),
{
    let pred = |r: FirewallRuleView| is_stale(r, ips, notes, ipv6_prefix_len);
    let out = rules.filter(pred);
    assert forall|i: int| 0 <= i < out.len() implies {
        &&& is_stale(#[trigger] out[i], ips, notes, ipv6_prefix_len)
        &&& out[i].notes == notes
        &&& rules.contains(out[i])
    } by {
        rules.lemma_filter_pred(pred, i);
        assert(out.contains(out[i]));
        rules.lemma_filter_contains_rev(pred, out[i]);
    }
    assert forall|i: int|
        0 <= i < rules.len() && is_stale(rules[i], ips, notes, ipv6_prefix_len) implies #[trigger] out.contains(
        rules[i],
    ) by {
        rules.lemma_filter_contains(pred, i);
    }
}

/// Which rules `find_stale_rules` reports, in plain terms: a rule is
/// reported exactly when it is one of `rules`, carries `notes`, and its
/// `subnet/size` text is neither the current IPv4 address as a `/32` nor
/// the current IPv6 address's `ipv6_prefix_len`-bit network with that
/// length; an address that was not detected matches no rule. In
/// particular, with no IPv6 address detected, every rule with the notes
/// (of either family) is reported unless it is the current IPv4 `/32`.
pub proof fn lemma_stale_rule_criterion(
    rules: Seq<FirewallRuleView>,
    ips: DetectedIps,
    notes: Seq<char>,
    ipv6_prefix_len: u8,
)
    ensures
        forall|r: FirewallRuleView|
            #[trigger] stale_rules(rules, ips, notes, ipv6_prefix_len).contains(r) <==> {
                let text = r.subnet + "/"@ + int_text(r.subnet_size as int);
                &&& rules.contains(r)
                &&& r.notes == notes
                &&& (ips.ipv4 matches Some(a) ==> text != ipv4_text(a) + "/32"@)
                &&& (ips.ipv6 matches Some(b) ==> text != ipv6_text(
                    ipv6_network(b, ipv6_prefix_len),
                ) + "/"@ + dec_text(ipv6_prefix_len as nat))
            },
        ips.ipv6 is None ==> forall|r: FirewallRuleView|
            rules.contains(r) && r.notes == notes && (ips.ipv4 matches Some(a) ==> r.subnet + "/"@
                + int_text(r.subnet_size as int) != ipv4_text(a) + "/32"@)
                ==> #[trigger] stale_rules(rules, ips, notes, ipv6_prefix_len).contains(r),
{
    reveal_strlit("/");
    reveal_strlit("/32");
    let pred = |r: FirewallRuleView| is_stale(r, ips, notes, ipv6_prefix_len);
    let out = rules.filter(pred);
    assert forall|r: FirewallRuleView| #[trigger] out.contains(r) <==> {
        let text = r.subnet + "/"@ + int_text(r.subnet_size as int);
        &&& rules.contains(r)
        &&& r.notes == notes
        &&& (ips.ipv4 matches Some(a) ==> text != ipv4_text(a) + "/32"@)
        &&& (ips.ipv6 matches Some(b) ==> text != ipv6_text(ipv6_network(b, ipv6_prefix_len))
            + "/"@ + dec_text(ipv6_prefix_len as nat))
    } by {
        let text = r.subnet + "/"@ + int_text(r.subnet_size as int);
        assert(text =~= subnet_text(r.subnet, r.subnet_size as int));
        if let Some(a) = ips.ipv4 {
            assert(ipv4_text(a) + "/32"@ =~= ipv4_text(a) + seq!['/', '3', '2']);
        }
        if let Some(b) = ips.ipv6 {
            assert(ipv6_text(ipv6_network(b, ipv6_prefix_len)) + "/"@ + dec_text(
                ipv6_prefix_len as nat,
            ) =~= ipv6_text(ipv6_network(b, ipv6_prefix_len)) + seq!['/'] + dec_text(
                ipv6_prefix_len as nat,
            ));
        }
        if out.contains(r) {
            rules.lemma_filter_contains_rev(pred, r);
        }
        if rules.contains(r) && pred(r) {
            let i = choose|i: int| 0 <= i < rules.len() && rules[i] == r;
            rules.lemma_filter_contains(pred, i);
        }
    }
}

/// Rules created from a plan for the current addresses — IPv4 as single
/// hosts (the /32 that stale detection compares with) and IPv6 with the
/// same prefix length as stale detection uses — are never reported stale,
/// whatever their notes, ids and actions.
pub proof fn lemma_planned_rules_not_stale(
    ips: DetectedIps,
    ports: Seq<PortSpecView>,
    note: Seq<char>,
    ipv6_prefix_len: u8,
    rules: Seq<FirewallRuleView>,
)
    requires
        rules.len() == plan(ips, ports, note, DEFAULT_IPV4_PREFIX_LEN, ipv6_prefix_len).len(),
        forall|i: int|
            0 <= i < rules.len() ==> (#[trigger] rules[i]).subnet == plan(
                ips,
                ports,
                note,
                DEFAULT_IPV4_PREFIX_LEN,
                ipv6_prefix_len,
            )[i].subnet && rules[i].subnet_size == plan(
                ips,
                ports,
                note,
                DEFAULT_IPV4_PREFIX_LEN,
                ipv6_prefix_len,
            )[i].subnet_size,
    ensures
        stale_rules(rules, ips, note, ipv6_prefix_len).len() == 0,
{
    let p = plan(ips, ports, note, DEFAULT_IPV4_PREFIX_LEN, ipv6_prefix_len);
    let n4: int = if ips.ipv4 is Some {
        ports.len() as int
    } else {
        0
    };
    assert(dec_text(3) == seq!['3']);
    assert(dec_text(32) == seq!['3', '2']);
    let pred = |r: FirewallRuleView| is_stale(r, ips, note, ipv6_prefix_len);
    assert forall|i: int| 0 <= i < rules.len() implies !pred(#[trigger] rules[i]) by {
        let r = rules[i];
        if i < n4 {
            let a = ips.ipv4->0;
            assert(a & 0xffff_ffffu32 == a) by (bit_vector);
            assert(ipv4_network(a, DEFAULT_IPV4_PREFIX_LEN) == a);
            assert(p[i].subnet == ipv4_text(a));
            assert(p[i].subnet_size == 32);
            assert(subnet_text(r.subnet, r.subnet_size as int) =~= ipv4_text(a) + seq![
                '/',
                '3',
                '2',
            ]);
        } else {
            let a = ips.ipv6->0;
            assert(p[i].subnet == ipv6_text(ipv6_network(a, ipv6_prefix_len)));
            assert(p[i].subnet_size == ipv6_prefix_len as i64);
            assert(subnet_text(r.subnet, r.subnet_size as int) =~= ipv6_text(
                ipv6_network(a, ipv6_prefix_len),
            ) + seq!['/'] + dec_text(ipv6_prefix_len as nat));
        }
    }
    rules.lemma_all_neg_filter_empty(pred);
}


/// Rules planned for an IPv6 address stay current when the address's host
/// part rotates within the planned prefix (the reason a whole prefix is
/// opened): with the same IPv4 address and an IPv6 address in the same
/// `ipv6_prefix_len`-bit network (for a prefix under 128, one that agrees on
/// the top `ipv6_prefix_len` bits), none of them is reported stale.
pub proof fn lemma_rotated_host_keeps_rules_current(
    before: DetectedIps,
    after: DetectedIps,
    ports: Seq<PortSpecView>,
    note: Seq<char>,
    ipv6_prefix_len: u8,
    rules: Seq<FirewallRuleView>,
)
    requires
        after.ipv4 == before.ipv4,
        before.ipv6 is Some,
        after.ipv6 is Some,
        crate::addr::ipv6_network(before.ipv6->0, ipv6_prefix_len) == crate::addr::ipv6_network(
            after.ipv6->0,
            ipv6_prefix_len,
        ),
        rules.len() == plan(before, ports, note, DEFAULT_IPV4_PREFIX_LEN, ipv6_prefix_len).len(),
        forall|i: int|
            0 <= i < rules.len() ==> (#[trigger] rules[i]).subnet == plan(
                before,
                ports,
                note,
                DEFAULT_IPV4_PREFIX_LEN,
                ipv6_prefix_len,
            )[i].subnet && rules[i].subnet_size == plan(
                before,
                ports,
                note,
                DEFAULT_IPV4_PREFIX_LEN,
                ipv6_prefix_len,
            )[i].subnet_size,
    ensures
        stale_rules(rules, after, note, ipv6_prefix_len).len() == 0,
{
    assert(current_ipv6_subnet(before, ipv6_prefix_len) == current_ipv6_subnet(
        after,
        ipv6_prefix_len,
    ));
    assert(current_ipv4_subnet(before) == current_ipv4_subnet(after));
    lemma_planned_rules_not_stale(before, ports, note, ipv6_prefix_len, rules);
    let p1 = |r: FirewallRuleView| is_stale(r, before, note, ipv6_prefix_len);
    let p2 = |r: FirewallRuleView| is_stale(r, after, note, ipv6_prefix_len);
    assert(p1 =~= p2);
}

} // verus!
