//! The mobile-facing layer: records of plain strings and numbers that a
//! foreign-function binding can carry, the conversions to and from the core
//! types, and the mobile workflow's pure steps (planning rules, finding
//! stale ones, and collecting per-rule outcomes).

use std::sync::Arc;

use vstd::prelude::*;
use crate::addr::roundtrip::{lemma_ipv4_roundtrip, lemma_ipv6_roundtrip};
use crate::addr::{ipv4_text, ipv4_to_string, ipv6_text, ipv6_to_string, parse_ipv4, parse_ipv4_text, parse_ipv6, parse_ipv6_text};
use crate::error::{is_message_of, json_error_text, reqwest_error_text, UpdaterError};
use crate::ip_detect::{restrict_families, restricted, DetectedIps as CoreDetectedIps};
use crate::planner::{self as core_planner, plan, stale_rules, PortSpec, PortSpecView, DEFAULT_IPV4_PREFIX_LEN, DEFAULT_IPV6_PREFIX_LEN, DEFAULT_PORTS};
use crate::text::{dec_text, string_from};
use crate::vultr::client::{ApiRequest, ApiRequestView, Method, VultrClient};
use crate::vultr::requests::{create_firewall_rule, rules_path};
use crate::vultr::models::{
    FirewallGroup as CoreFirewallGroup, FirewallGroupView, FirewallRule as CoreFirewallRule,
    FirewallRuleReq, FirewallRuleReqView, FirewallRuleView, IpType as CoreIpType,
    Protocol as CoreProtocol,
};

verus! {

// ---------------------------------------------------------------------
// Records / enums
// ---------------------------------------------------------------------

/// The public IPv4/IPv6 addresses detected for this device, as text. `ipv6`
/// is `None` when the device has no IPv6 connectivity - a normal condition,
/// not an error.
#[derive(Debug)]
pub struct DetectedIps {
    pub ipv4: Option<String>,
    pub ipv6: Option<String>,
}

/// The contents of a mobile [`DetectedIps`].
pub struct DetectedIpsView {
    pub ipv4: Option<Seq<char>>,
    pub ipv6: Option<Seq<char>>,
}

impl View for DetectedIps {
    type V = DetectedIpsView;

    open spec fn view(&self) -> DetectedIpsView {
        DetectedIpsView {
            ipv4: match self.ipv4 {
                Some(s) => Some(s@),
                None => None,
            },
            ipv6: match self.ipv6 {
                Some(s) => Some(s@),
                None => None,
            },
        }
    }
}

impl Clone for DetectedIps {
    fn clone(&self) -> (r: Self)
        ensures
            r@ == self@,
    {
        DetectedIps {
            ipv4: match &self.ipv4 {
                Some(s) => Some(s.clone()),
                None => None,
            },
            ipv6: match &self.ipv6 {
                Some(s) => Some(s.clone()),
                None => None,
            },
        }
    }
}

/// The text form of detected addresses.
pub open spec fn ips_text(ips: CoreDetectedIps) -> DetectedIpsView {
    DetectedIpsView {
        ipv4: match ips.ipv4 {
            Some(a) => Some(ipv4_text(a)),
            None => None,
        },
        ipv6: match ips.ipv6 {
            Some(a) => Some(ipv6_text(a)),
            None => None,
        },
    }
}

/// The addresses that the texts denote, when each present text denotes one.
pub open spec fn ips_from_text(v: DetectedIpsView) -> Option<CoreDetectedIps> {
    let v4 = match v.ipv4 {
        Some(s) => match parse_ipv4_text(s) {
            Some(a) => Some(Some(a)),
            None => None,
        },
        None => Some(None),
    };
    let v6 = match v.ipv6 {
        Some(s) => match parse_ipv6_text(s) {
            Some(a) => Some(Some(a)),
            None => None,
        },
        None => Some(None),
    };
    match (v4, v6) {
        (Some(a), Some(b)) => Some(CoreDetectedIps { ipv4: a, ipv6: b }),
        _ => None,
    }
}

/// The message for texts that do not denote addresses: the IPv4 text is
/// checked first.
pub open spec fn ips_text_error(v: DetectedIpsView) -> Seq<char> {
    if v.ipv4 matches Some(s) && parse_ipv4_text(s) is None {
        "invalid IPv4 address: invalid IPv4 address syntax"@
    } else {
        "invalid IPv6 address: invalid IPv6 address syntax"@
    }
}

impl From<CoreDetectedIps> for DetectedIps {
    /// The addresses in their standard text forms.
    fn from(ips: CoreDetectedIps) -> (r: Self)
        ensures
            r@ == ips_text(ips),
    {
        let ipv4 = match ips.ipv4 {
            Some(a) => Some(ipv4_to_string(a)),
            None => None,
        };
        let ipv6 = match ips.ipv6 {
            Some(a) => Some(ipv6_to_string(a)),
            None => None,
        };
        DetectedIps { ipv4, ipv6 }
    }
}

impl vstd::std_specs::convert::FromSpecImpl<CoreDetectedIps> for DetectedIps {
    open spec fn obeys_from_spec() -> bool {
        false
    }

    open spec fn from_spec(v: CoreDetectedIps) -> DetectedIps {
        arbitrary()
    }
}

impl DetectedIps {
    /// The addresses that the texts denote; an `IpDetect` error when a
    /// present text is not an address of its family.
    pub fn to_core(&self) -> (r: Result<CoreDetectedIps, MobileError>)
        ensures
            match ips_from_text(self@) {
                Some(c) => r matches Ok(d) && d == c,
                None => r matches Err(MobileError::IpDetect(m)) && m@ == ips_text_error(self@),
            },
    {
        proof {
            reveal_strlit("invalid IPv4 address: invalid IPv4 address syntax");
            reveal_strlit("invalid IPv6 address: invalid IPv6 address syntax");
        }
        let ipv4 = match &self.ipv4 {
            Some(s) => match parse_ipv4(s.as_str()) {
                Some(a) => Some(a),
                None => {
                    return Err(
                        MobileError::IpDetect(
                            string_from("invalid IPv4 address: invalid IPv4 address syntax"),
                        ),
                    );
                },
            },
            None => None,
        };
        let ipv6 = match &self.ipv6 {
            Some(s) => match parse_ipv6(s.as_str()) {
                Some(a) => Some(a),
                None => {
                    return Err(
                        MobileError::IpDetect(
                            string_from("invalid IPv6 address: invalid IPv6 address syntax"),
                        ),
                    );
                },
            },
            None => None,
        };
        Ok(CoreDetectedIps { ipv4, ipv6 })
    }
}

/// Address family of a rule.
#[derive(Clone, Copy, Debug, PartialEq, Eq, Structural)]
pub enum IpType {
    V4,
    V6,
}

/// The core family that a mobile family stands for.
pub open spec fn core_ip_type(t: IpType) -> CoreIpType {
    match t {
        IpType::V4 => CoreIpType::V4,
        IpType::V6 => CoreIpType::V6,
    }
}

/// The mobile family that stands for a core family.
pub open spec fn mobile_ip_type(t: CoreIpType) -> IpType {
    match t {
        CoreIpType::V4 => IpType::V4,
        CoreIpType::V6 => IpType::V6,
    }
}

impl From<CoreIpType> for IpType {
    fn from(t: CoreIpType) -> (r: Self)
        ensures
            r == mobile_ip_type(t),
    {
        match t {
            CoreIpType::V4 => IpType::V4,
            CoreIpType::V6 => IpType::V6,
        }
    }
}

impl vstd::std_specs::convert::FromSpecImpl<CoreIpType> for IpType {
    open spec fn obeys_from_spec() -> bool {
        true
    }

    open spec fn from_spec(v: CoreIpType) -> IpType {
        mobile_ip_type(v)
    }
}

impl From<IpType> for CoreIpType {
    fn from(t: IpType) -> (r: Self)
        ensures
            r == core_ip_type(t),
    {
        match t {
            IpType::V4 => CoreIpType::V4,
            IpType::V6 => CoreIpType::V6,
        }
    }
}

impl vstd::std_specs::convert::FromSpecImpl<IpType> for CoreIpType {
    open spec fn obeys_from_spec() -> bool {
        true
    }

    open spec fn from_spec(v: IpType) -> CoreIpType {
        core_ip_type(v)
    }
}

/// Protocol of a rule.
#[derive(Clone, Copy, Debug, PartialEq, Eq, Structural)]
pub enum Protocol {
    Tcp,
    Udp,
    Icmp,
    Gre,
    Esp,
}

/// The core protocol that a mobile protocol stands for.
pub open spec fn core_protocol(p: Protocol) -> CoreProtocol {
    match p {
        Protocol::Tcp => CoreProtocol::Tcp,
        Protocol::Udp => CoreProtocol::Udp,
        Protocol::Icmp => CoreProtocol::Icmp,
        Protocol::Gre => CoreProtocol::Gre,
        Protocol::Esp => CoreProtocol::Esp,
    }
}

/// The mobile protocol that stands for a core protocol.
pub open spec fn mobile_protocol(p: CoreProtocol) -> Protocol {
    match p {
        CoreProtocol::Tcp => Protocol::Tcp,
        CoreProtocol::Udp => Protocol::Udp,
        CoreProtocol::Icmp => Protocol::Icmp,
        CoreProtocol::Gre => Protocol::Gre,
        CoreProtocol::Esp => Protocol::Esp,
    }
}

impl From<CoreProtocol> for Protocol {
    fn from(p: CoreProtocol) -> (r: Self)
        ensures
            r == mobile_protocol(p),
    {
        match p {
            CoreProtocol::Tcp => Protocol::Tcp,
            CoreProtocol::Udp => Protocol::Udp,
            CoreProtocol::Icmp => Protocol::Icmp,
            CoreProtocol::Gre => Protocol::Gre,
            CoreProtocol::Esp => Protocol::Esp,
        }
    }
}

impl vstd::std_specs::convert::FromSpecImpl<CoreProtocol> for Protocol {
    open spec fn obeys_from_spec() -> bool {
        true
    }

    open spec fn from_spec(v: CoreProtocol) -> Protocol {
        mobile_protocol(v)
    }
}

impl From<Protocol> for CoreProtocol {
    fn from(p: Protocol) -> (r: Self)
        ensures
            r == core_protocol(p),
    {
        match p {
            Protocol::Tcp => CoreProtocol::Tcp,
            Protocol::Udp => CoreProtocol::Udp,
            Protocol::Icmp => CoreProtocol::Icmp,
            Protocol::Gre => CoreProtocol::Gre,
            Protocol::Esp => CoreProtocol::Esp,
        }
    }
}

impl vstd::std_specs::convert::FromSpecImpl<Protocol> for CoreProtocol {
    open spec fn obeys_from_spec() -> bool {
        true
    }

    open spec fn from_spec(v: Protocol) -> CoreProtocol {
        core_protocol(v)
    }
}

/// A Vultr firewall group, as a group picker shows it.
#[derive(Clone, Debug)]
pub struct FirewallGroup {
    pub id: String,
    pub description: String,
    pub date_created: String,
    pub date_modified: String,
    pub instance_count: i64,
    pub rule_count: i64,
    pub max_rule_count: i64,
}

impl View for FirewallGroup {
    type V = FirewallGroupView;

    open spec fn view(&self) -> FirewallGroupView {
        FirewallGroupView {
            id: self.id@,
            description: self.description@,
            date_created: self.date_created@,
            date_modified: self.date_modified@,
            instance_count: self.instance_count,
            rule_count: self.rule_count,
            max_rule_count: self.max_rule_count,
        }
    }
}

impl DeepView for FirewallGroup {
    type V = FirewallGroupView;

    open spec fn deep_view(&self) -> FirewallGroupView {
        self@
    }
}

impl From<CoreFirewallGroup> for FirewallGroup {
    fn from(g: CoreFirewallGroup) -> (r: Self)
        ensures
            r@ == g@,
    {
        FirewallGroup {
            id: g.id,
            description: g.description,
            date_created: g.date_created,
            date_modified: g.date_modified,
            instance_count: g.instance_count,
            rule_count: g.rule_count,
            max_rule_count: g.max_rule_count,
        }
    }
}

impl vstd::std_specs::convert::FromSpecImpl<CoreFirewallGroup> for FirewallGroup {
    open spec fn obeys_from_spec() -> bool {
        true
    }

    open spec fn from_spec(g: CoreFirewallGroup) -> FirewallGroup {
        FirewallGroup {
            id: g.id,
            description: g.description,
            date_created: g.date_created,
            date_modified: g.date_modified,
            instance_count: g.instance_count,
            rule_count: g.rule_count,
            max_rule_count: g.max_rule_count,
        }
    }
}

/// An existing rule within a firewall group.
#[derive(Clone, Debug)]
pub struct FirewallRule {
    pub id: u64,
    pub action: String,
    pub ip_type: IpType,
    pub protocol: Protocol,
    pub port: String,
    pub subnet: String,
    pub subnet_size: i64,
    pub source: String,
    pub notes: String,
}

impl View for FirewallRule {
    type V = FirewallRuleView;

    open spec fn view(&self) -> FirewallRuleView {
        FirewallRuleView {
            id: self.id,
            action: self.action@,
            ip_type: core_ip_type(self.ip_type),
            protocol: core_protocol(self.protocol),
            port: self.port@,
            subnet: self.subnet@,
            subnet_size: self.subnet_size,
            source: self.source@,
            notes: self.notes@,
        }
    }
}

impl DeepView for FirewallRule {
    type V = FirewallRuleView;

    open spec fn deep_view(&self) -> FirewallRuleView {
        self@
    }
}

impl From<CoreFirewallRule> for FirewallRule {
    fn from(r: CoreFirewallRule) -> (m: Self)
        ensures
            m@ == r@,
    {
        FirewallRule {
            id: r.id,
            action: r.action,
            ip_type: r.ip_type.into(),
            protocol: r.protocol.into(),
            port: r.port,
            subnet: r.subnet,
            subnet_size: r.subnet_size,
            source: r.source,
            notes: r.notes,
        }
    }
}

impl vstd::std_specs::convert::FromSpecImpl<CoreFirewallRule> for FirewallRule {
    open spec fn obeys_from_spec() -> bool {
        true
    }

    open spec fn from_spec(r: CoreFirewallRule) -> FirewallRule {
        FirewallRule {
            id: r.id,
            action: r.action,
            ip_type: mobile_ip_type(r.ip_type),
            protocol: mobile_protocol(r.protocol),
            port: r.port,
            subnet: r.subnet,
            subnet_size: r.subnet_size,
            source: r.source,
            notes: r.notes,
        }
    }
}

impl From<FirewallRule> for CoreFirewallRule {
    fn from(r: FirewallRule) -> (c: Self)
        ensures
            c@ == r@,
    {
        CoreFirewallRule {
            id: r.id,
            action: r.action,
            ip_type: r.ip_type.into(),
            protocol: r.protocol.into(),
            port: r.port,
            subnet: r.subnet,
            subnet_size: r.subnet_size,
            source: r.source,
            notes: r.notes,
        }
    }
}

impl vstd::std_specs::convert::FromSpecImpl<FirewallRule> for CoreFirewallRule {
    open spec fn obeys_from_spec() -> bool {
        true
    }

    open spec fn from_spec(r: FirewallRule) -> CoreFirewallRule {
        CoreFirewallRule {
            id: r.id,
            action: r.action,
            ip_type: core_ip_type(r.ip_type),
            protocol: core_protocol(r.protocol),
            port: r.port,
            subnet: r.subnet,
            subnet_size: r.subnet_size,
            source: r.source,
            notes: r.notes,
        }
    }
}

/// A rule that would be created if sent - the mobile equivalent of the
/// CLI's "print the request before sending it" step. Show these to the
/// user for confirmation, then hand the (possibly user-edited) list to
/// `add_rules`.
#[derive(Debug)]
pub struct PlannedRule {
    pub ip_type: IpType,
    pub protocol: Protocol,
    pub subnet: String,
    pub subnet_size: i64,
    pub port: String,
    pub notes: String,
}

/// The contents of a [`PlannedRule`].
pub struct PlannedRuleView {
    pub ip_type: CoreIpType,
    pub protocol: CoreProtocol,
    pub subnet: Seq<char>,
    pub subnet_size: i64,
    pub port: Seq<char>,
    pub notes: Seq<char>,
}

impl View for PlannedRule {
    type V = PlannedRuleView;

    open spec fn view(&self) -> PlannedRuleView {
        PlannedRuleView {
            ip_type: core_ip_type(self.ip_type),
            protocol: core_protocol(self.protocol),
            subnet: self.subnet@,
            subnet_size: self.subnet_size,
            port: self.port@,
            notes: self.notes@,
        }
    }
}

impl DeepView for PlannedRule {
    type V = PlannedRuleView;

    open spec fn deep_view(&self) -> PlannedRuleView {
        self@
    }
}

impl Clone for PlannedRule {
    fn clone(&self) -> (r: Self)
        ensures
            r@ == self@,
    {
        PlannedRule {
            ip_type: self.ip_type,
            protocol: self.protocol,
            subnet: self.subnet.clone(),
            subnet_size: self.subnet_size,
            port: self.port.clone(),
            notes: self.notes.clone(),
        }
    }
}

/// A request as a planned rule: everything but its source.
pub open spec fn planned_view(r: FirewallRuleReqView) -> PlannedRuleView {
    PlannedRuleView {
        ip_type: r.ip_type,
        protocol: r.protocol,
        subnet: r.subnet,
        subnet_size: r.subnet_size,
        port: r.port,
        notes: r.notes,
    }
}

/// A planned rule as a request: with an empty source.
pub open spec fn request_view(p: PlannedRuleView) -> FirewallRuleReqView {
    FirewallRuleReqView {
        ip_type: p.ip_type,
        protocol: p.protocol,
        subnet: p.subnet,
        subnet_size: p.subnet_size,
        port: p.port,
        source: Seq::empty(),
        notes: p.notes,
    }
}

impl From<FirewallRuleReq> for PlannedRule {
    fn from(r: FirewallRuleReq) -> (p: Self)
        ensures
            p@ == planned_view(r@),
    {
        PlannedRule {
            ip_type: r.ip_type.into(),
            protocol: r.protocol.into(),
            subnet: r.subnet,
            subnet_size: r.subnet_size,
            port: r.port,
            notes: r.notes,
        }
    }
}

impl vstd::std_specs::convert::FromSpecImpl<FirewallRuleReq> for PlannedRule {
    open spec fn obeys_from_spec() -> bool {
        true
    }

    open spec fn from_spec(r: FirewallRuleReq) -> PlannedRule {
        PlannedRule {
            ip_type: mobile_ip_type(r.ip_type),
            protocol: mobile_protocol(r.protocol),
            subnet: r.subnet,
            subnet_size: r.subnet_size,
            port: r.port,
            notes: r.notes,
        }
    }
}

impl From<PlannedRule> for FirewallRuleReq {
    fn from(p: PlannedRule) -> (r: Self)
        ensures
            r@ == request_view(p@),
    {
        FirewallRuleReq {
            ip_type: p.ip_type.into(),
            protocol: p.protocol.into(),
            subnet: p.subnet,
            subnet_size: p.subnet_size,
            port: p.port,
            source: String::new(),
            notes: p.notes,
        }
    }
}

impl vstd::std_specs::convert::FromSpecImpl<PlannedRule> for FirewallRuleReq {
    open spec fn obeys_from_spec() -> bool {
        false
    }

    open spec fn from_spec(p: PlannedRule) -> FirewallRuleReq {
        arbitrary()
    }
}

/// Outcome of attempting to create one planned rule. `rule` is populated
/// only on success; `error_message` only on failure - one failing rule
/// never hides the others that succeeded.
#[derive(Clone, Debug)]
pub struct AddRuleResult {
    pub planned: PlannedRule,
    pub rule: Option<FirewallRule>,
    pub error_message: Option<String>,
}

/// Outcome of attempting to delete one rule by ID.
#[derive(Clone, Debug)]
pub struct RemoveRuleResult {
    pub rule_id: u64,
    pub error_message: Option<String>,
}

/// Errors surfaced across the FFI boundary.
#[derive(Debug)]
pub enum MobileError {
    Network(String),
    Api { status: u16, message: String },
    IpDetect(String),
}

impl From<UpdaterError> for MobileError {
    /// Network and decoding failures become `Network` errors carrying their
    /// message; API and address errors keep their details.
    fn from(e: UpdaterError) -> (m: Self)
        ensures
            e is Http ==> m is Network,
            e is Json ==> m is Network,
            e matches UpdaterError::Api { status, message } ==> m matches MobileError::Api {
                status: s2,
                message: m2,
            } && s2 == status && m2 == message,
            e matches UpdaterError::IpDetect(msg) ==> m matches MobileError::IpDetect(m2) && m2
                == msg,
    {
        match e {
            UpdaterError::Http(err) => MobileError::Network(reqwest_error_text(&err)),
            UpdaterError::Json(err) => MobileError::Network(json_error_text(&err)),
            UpdaterError::Api { status, message } => MobileError::Api { status, message },
            UpdaterError::IpDetect(msg) => MobileError::IpDetect(msg),
        }
    }
}

impl vstd::std_specs::convert::FromSpecImpl<UpdaterError> for MobileError {
    open spec fn obeys_from_spec() -> bool {
        false
    }

    open spec fn from_spec(e: UpdaterError) -> MobileError {
        arbitrary()
    }
}

// ---------------------------------------------------------------------
// Free functions
// ---------------------------------------------------------------------

/// Ports opened by default if the caller doesn't specify its own: 22, 80, 443.
pub fn default_ports() -> (ports: Vec<u16>)
    ensures
        ports@ == seq![22u16, 80u16, 443u16],
{
    let mut ports: Vec<u16> = Vec::new();
    ports.push(DEFAULT_PORTS[0]);
    ports.push(DEFAULT_PORTS[1]);
    ports.push(DEFAULT_PORTS[2]);
    assert(ports@ =~= seq![22u16, 80u16, 443u16]);
    ports
}

/// Default IPv6 network prefix length used for generated rules (64):
/// see [`plan_add_rules`] for why a whole prefix rather than a single host
/// address is opened by default.
pub fn default_ipv6_prefix_len() -> (p: u8)
    ensures
        p == 64,
{
    DEFAULT_IPV6_PREFIX_LEN
}

/// One TCP port spec per port, in order.
pub open spec fn tcp_ports(ports: Seq<u16>) -> Seq<PortSpecView> {
    ports.map_values(|p: u16| PortSpecView { port: dec_text(p as nat), protocol: CoreProtocol::Tcp })
}

/// What the mobile `plan_add_rules` returns for addresses that parsed: the
/// core plan for the remaining families, TCP ports and single-host IPv4
/// rules, as planned rules.
pub open spec fn mobile_plan(
    ips: CoreDetectedIps,
    ports: Seq<u16>,
    note: Seq<char>,
    ipv6_prefix_len: u8,
    ipv4_only: bool,
    ipv6_only: bool,
) -> Seq<PlannedRuleView> {
    plan(
        restricted(ips, ipv4_only, ipv6_only),
        tcp_ports(ports),
        note,
        DEFAULT_IPV4_PREFIX_LEN,
        ipv6_prefix_len,
    ).map_values(|r: FirewallRuleReqView| planned_view(r))
}

/// Builds the list of rules that *would* be created for `ports` at the
/// given `ips`, tagged with `note` - pure, no network access. Show this to
/// the user for confirmation before calling `add_rules` with it (or a
/// user-edited subset of it). IPv4 rules cover the single host (/32).
pub fn plan_add_rules(
    ips: DetectedIps,
    ports: Vec<u16>,
    note: String,
    ipv6_prefix_len: u8,
    ipv4_only: bool,
    ipv6_only: bool,
) -> (r: Result<Vec<PlannedRule>, MobileError>)
    ensures
        match ips_from_text(ips@) {
            Some(c) => r matches Ok(planned) && planned.deep_view() == mobile_plan(
                c,
                ports@,
                note@,
                ipv6_prefix_len,
                ipv4_only,
                ipv6_only,
            ),
            None => r matches Err(MobileError::IpDetect(m)) && m@ == ips_text_error(ips@),
        },
{
    let core_ips = match ips.to_core() {
        Ok(c) => c,
        Err(e) => return Err(e),
    };
    let core_ips = restrict_families(core_ips, ipv4_only, ipv6_only);
    let mut specs: Vec<PortSpec> = Vec::new();
    let mut i: usize = 0;
    while i < ports.len()
        invariant
            i <= ports@.len(),
            specs.deep_view() == tcp_ports(ports@).take(i as int),
        decreases ports.len() - i,
    {
        let ghost before = specs.deep_view();
        let spec = PortSpec::tcp(ports[i]);
        assert(spec@ == tcp_ports(ports@)[i as int]);
        specs.push(spec);
        assert(specs.deep_view() =~= before.push(tcp_ports(ports@)[i as int]));
        assert(tcp_ports(ports@).take(i + 1) =~= tcp_ports(ports@).take(i as int).push(
            tcp_ports(ports@)[i as int],
        ));
        i = i + 1;
    }
    assert(tcp_ports(ports@).take(ports@.len() as int) =~= tcp_ports(ports@));
    let planned = core_planner::plan_add_rules(
        &core_ips,
        &specs,
        note.as_str(),
        DEFAULT_IPV4_PREFIX_LEN,
        ipv6_prefix_len,
    );
    let ghost all = planned.deep_view();
    let ghost want = all.map_values(|r: FirewallRuleReqView| planned_view(r));
    let ghost reqs = planned@;
    let mut out: Vec<PlannedRule> = Vec::new();
    for req in it: planned.into_iter()
        invariant
            it.seq() == reqs,
            reqs.len() == all.len(),
            forall|j: int| 0 <= j < reqs.len() ==> #[trigger] reqs[j]@ == all[j],
            want == all.map_values(|r: FirewallRuleReqView| planned_view(r)),
            out.deep_view() == want.take(it.index() as int),
    {
        let ghost k = it.index();
        let ghost before = out.deep_view();
        assert(req == reqs[k]);
        let p: PlannedRule = PlannedRule::from(req);
        assert(p@ == want[k]);
        out.push(p);
        assert(out.deep_view() =~= before.push(want[k]));
        assert(want.take(k + 1) =~= want.take(k).push(want[k]));
    }
    assert(want.take(want.len() as int) =~= want);
    Ok(out)
}

/// The core views of mobile rules.
pub open spec fn core_rules(rules: Seq<FirewallRule>) -> Seq<FirewallRuleView> {
    rules.map_values(|r: FirewallRule| r@)
}

/// Finds rules among `rules` tagged with `notes` whose subnet no longer
/// matches either of `ips`' currently-detected addresses - i.e. rules
/// created for an IP this device no longer has. Pure, no network access;
/// feed the result to `remove_rules`.
pub fn find_stale_rules(
    rules: Vec<FirewallRule>,
    ips: DetectedIps,
    notes: String,
    ipv6_prefix_len: u8,
) -> (r: Result<Vec<FirewallRule>, MobileError>)
    ensures
        match ips_from_text(ips@) {
            Some(c) => r matches Ok(stale) && stale.deep_view() == stale_rules(
                rules.deep_view(),
                c,
                notes@,
                ipv6_prefix_len,
            ),
            None => r matches Err(MobileError::IpDetect(m)) && m@ == ips_text_error(ips@),
        },
{
    let core_ips = match ips.to_core() {
        Ok(c) => c,
        Err(e) => return Err(e),
    };
    let ghost views = rules.deep_view();
    let ghost items = rules@;
    let mut core: Vec<CoreFirewallRule> = Vec::new();
    for rule in it: rules.into_iter()
        invariant
            it.seq() == items,
            items.len() == views.len(),
            forall|j: int| 0 <= j < items.len() ==> #[trigger] items[j]@ == views[j],
            core.deep_view() == views.take(it.index() as int),
    {
        let ghost k = it.index();
        let ghost before = core.deep_view();
        assert(rule == items[k]);
        core.push(CoreFirewallRule::from(rule));
        assert(core.deep_view() =~= before.push(views[k]));
        assert(views.take(k + 1) =~= views.take(k).push(views[k]));
    }
    assert(views.take(views.len() as int) =~= views);
    let stale = core_planner::find_stale_rules(&core, &core_ips, notes.as_str(), ipv6_prefix_len);
    let ghost sv = stale.deep_view();
    let ghost sitems = stale@;
    let mut out: Vec<FirewallRule> = Vec::new();
    for rule in it: stale.into_iter()
        invariant
            it.seq() == sitems,
            sitems.len() == sv.len(),
            forall|j: int| 0 <= j < sitems.len() ==> #[trigger] sitems[j]@ == sv[j],
            out.deep_view() == sv.take(it.index() as int),
    {
        let ghost k = it.index();
        let ghost before = out.deep_view();
        assert(rule == sitems[k]);
        out.push(FirewallRule::from(rule));
        assert(out.deep_view() =~= before.push(sv[k]));
        assert(sv.take(k + 1) =~= sv.take(k).push(sv[k]));
    }
    assert(sv.take(sv.len() as int) =~= sv);
    Ok(out)
}

// ---------------------------------------------------------------------
// Outcomes of sending planned rules and deletions
// ---------------------------------------------------------------------

/// The create request for each planned rule, in order, all to the rules of
/// group `group_id`; each rule goes out with an empty source.
pub fn add_rule_requests(group_id: &str, planned: &[PlannedRule]) -> (reqs: Vec<ApiRequest>)
    ensures
        reqs.deep_view() == planned@.map_values(
            |p: PlannedRule|
                ApiRequestView {
                    method: Method::Post,
                    path: rules_path(group_id@),
                    body: Some(request_view(p@)),
                },
        ),
{
    let ghost want = planned@.map_values(
        |p: PlannedRule|
            ApiRequestView {
                method: Method::Post,
                path: rules_path(group_id@),
                body: Some(request_view(p@)),
            },
    );
    let mut reqs: Vec<ApiRequest> = Vec::new();
    let mut i: usize = 0;
    while i < planned.len()
        invariant
            i <= planned@.len(),
            want == planned@.map_values(
                |p: PlannedRule|
                    ApiRequestView {
                        method: Method::Post,
                        path: rules_path(group_id@),
                        body: Some(request_view(p@)),
                    },
            ),
            reqs.deep_view() == want.take(i as int),
        decreases planned.len() - i,
    {
        let rule = FirewallRuleReq::from(planned[i].clone());
        let ghost before = reqs.deep_view();
        reqs.push(create_firewall_rule(group_id, &rule));
        assert(reqs.deep_view() =~= before.push(want[i as int]));
        assert(want.take(i + 1) =~= want.take(i as int).push(want[i as int]));
        i = i + 1;
    }
    assert(want.take(planned@.len() as int) =~= want);
    reqs
}

/// The result of sending one planned rule: the created rule, or the error's
/// message.
pub fn add_rule_result(planned: PlannedRule, outcome: Result<CoreFirewallRule, UpdaterError>) -> (r:
    AddRuleResult)
    ensures
        r.planned@ == planned@,
        match outcome {
            Ok(rule) => r.rule matches Some(m) && m@ == rule@ && r.error_message is None,
            Err(e) => r.rule is None && (r.error_message matches Some(msg) && is_message_of(msg@, e)),
        },
{
    match outcome {
        Ok(rule) => AddRuleResult {
            planned,
            rule: Some(FirewallRule::from(rule)),
            error_message: None,
        },
        Err(e) => {
            let msg = e.message();
            AddRuleResult { planned, rule: None, error_message: Some(msg) }
        },
    }
}

/// One result per planned rule, in order: the outcome of sending each rule
/// is paired with that rule, so a failing rule never hides the others.
pub fn add_rule_results(
    planned: Vec<PlannedRule>,
    outcomes: Vec<Result<CoreFirewallRule, UpdaterError>>,
) -> (results: Vec<AddRuleResult>)
    requires
        planned@.len() == outcomes@.len(),
    ensures
        results@.len() == planned@.len(),
        forall|i: int|
            0 <= i < results@.len() ==> {
                &&& (#[trigger] results@[i]).planned@ == planned@[i]@
                &&& (outcomes@[i] is Ok <==> results@[i].rule is Some)
                &&& (outcomes@[i] is Ok <==> results@[i].error_message is None)
                &&& (outcomes@[i] matches Ok(rule) ==> results@[i].rule->0@ == rule@)
                &&& (outcomes@[i] matches Err(e) ==> is_message_of(
                    results@[i].error_message->0@,
                    e,
                ))
            },
{
    let ghost ps = planned@;
    let ghost os = outcomes@;
    let mut outcomes = outcomes;
    let mut results: Vec<AddRuleResult> = Vec::new();
    for p in it: planned.into_iter()
        invariant
            it.seq() == ps,
            ps.len() == os.len(),
            outcomes@ == os.subrange(it.index() as int, os.len() as int),
            results@.len() == it.index(),
            forall|i: int|
                0 <= i < it.index() ==> {
                    &&& (#[trigger] results@[i]).planned@ == ps[i]@
                    &&& (os[i] is Ok <==> results@[i].rule is Some)
                    &&& (os[i] is Ok <==> results@[i].error_message is None)
                    &&& (os[i] matches Ok(rule) ==> results@[i].rule->0@ == rule@)
                    &&& (os[i] matches Err(e) ==> is_message_of(
                        results@[i].error_message->0@,
                        e,
                    ))
                },
    {
        let ghost k = it.index();
        let o = outcomes.remove(0);
        assert(o == os[k]);
        results.push(add_rule_result(p, o));
        assert(outcomes@ =~= os.subrange(k + 1, os.len() as int));
    }
    results
}

/// The result of deleting one rule: no message on success, the error's
/// message on failure.
pub fn remove_rule_result(rule_id: u64, outcome: Result<(), UpdaterError>) -> (r: RemoveRuleResult)
    ensures
        r.rule_id == rule_id,
        outcome is Ok <==> r.error_message is None,
        match outcome {
            Ok(_) => true,
            Err(e) => r.error_message matches Some(msg) && is_message_of(msg@, e),
        },
{
    match outcome {
        Ok(()) => RemoveRuleResult { rule_id, error_message: None },
        Err(e) => RemoveRuleResult { rule_id, error_message: Some(e.message()) },
    }
}

/// One result per rule ID, in order: a failure (e.g. a rule already deleted
/// elsewhere) never stops the rest from being reported.
pub fn remove_rule_results(rule_ids: Vec<u64>, outcomes: Vec<Result<(), UpdaterError>>) -> (results:
    Vec<RemoveRuleResult>)
    requires
        rule_ids@.len() == outcomes@.len(),
    ensures
        results@.len() == rule_ids@.len(),
        forall|i: int|
            0 <= i < results@.len() ==> {
                &&& (#[trigger] results@[i]).rule_id == rule_ids@[i]
                &&& (outcomes@[i] is Ok <==> results@[i].error_message is None)
                &&& (outcomes@[i] matches Err(e) ==> is_message_of(
                    results@[i].error_message->0@,
                    e,
                ))
            },
{
    let ghost os = outcomes@;
    let mut outcomes = outcomes;
    let mut results: Vec<RemoveRuleResult> = Vec::new();
    let mut k: usize = 0;
    while k < rule_ids.len()
        invariant
            k <= rule_ids@.len() == os.len(),
            outcomes@ == os.subrange(k as int, os.len() as int),
            results@.len() == k,
            forall|i: int|
                0 <= i < k ==> {
                    &&& (#[trigger] results@[i]).rule_id == rule_ids@[i]
                    &&& (os[i] is Ok <==> results@[i].error_message is None)
                    &&& (os[i] matches Err(e) ==> is_message_of(
                        results@[i].error_message->0@,
                        e,
                    ))
                },
        decreases rule_ids.len() - k,
    {
        let o = outcomes.remove(0);
        assert(o == os[k as int]);
        results.push(remove_rule_result(rule_ids[k], o));
        assert(outcomes@ =~= os.subrange(k + 1, os.len() as int));
        k = k + 1;
    }
    results
}

// ---------------------------------------------------------------------
// MobileClient
// ---------------------------------------------------------------------

/// A Vultr API client for the mobile layer. Sending requests is blocking
/// I/O done by the caller with [`MobileClient::inner`].
pub struct MobileClient {
    inner: VultrClient,
}

impl MobileClient {
    /// Creates a client using the default Vultr API base URL.
    pub fn new(api_key: String) -> (r: Result<Arc<Self>, MobileError>)
        ensures
            r matches Ok(c) ==> c.inner()@.api_key == api_key@ && c.inner()@.base_url
                == crate::vultr::client::default_base_url(),
            r matches Err(e) ==> e is Network,
    {
        match VultrClient::new(api_key) {
            Ok(inner) => Ok(Arc::new(MobileClient { inner })),
            Err(e) => Err(MobileError::from(e)),
        }
    }

    /// Creates a client pointed at a custom base URL (e.g. a test/mock
    /// server).
    pub fn with_base_url(api_key: String, base_url: String) -> (r: Result<Arc<Self>, MobileError>)
        ensures
            r matches Ok(c) ==> c.inner()@.api_key == api_key@ && c.inner()@.base_url
                == crate::text::trim_end_char(base_url@, '/'),
            r matches Err(e) ==> e is Network,
    {
        match VultrClient::with_base_url(api_key, base_url) {
            Ok(inner) => Ok(Arc::new(MobileClient { inner })),
            Err(e) => Err(MobileError::from(e)),
        }
    }

    /// The underlying Vultr client.
    pub closed spec fn inner_spec(&self) -> &VultrClient {
        &self.inner
    }

    /// The underlying Vultr client.
    #[verifier::when_used_as_spec(inner_spec)]
    pub fn inner(&self) -> (c: &VultrClient)
        ensures
            c == self.inner_spec(),
    {
        &self.inner
    }
}


// ---------------------------------------------------------------------
// Laws of the mobile layer
// ---------------------------------------------------------------------

/// Detected addresses handed to the mobile side as text come back as the
/// same addresses: `to_core` undoes `from`.
pub proof fn lemma_detected_ips_text_roundtrip(ips: CoreDetectedIps)
    ensures
        ips_from_text(ips_text(ips)) == Some(ips),
{
    if ips.ipv4 is Some {
        lemma_ipv4_roundtrip(ips.ipv4->0);
    }
    if ips.ipv6 is Some {
        lemma_ipv6_roundtrip(ips.ipv6->0);
    }
}

/// Sending the planned rules as they were planned sends exactly the core
/// plan's requests: turning a planned rule back into a request restores the
/// request it came from (the plan's requests have no source).
pub proof fn lemma_planned_rules_restore_requests(
    ips: CoreDetectedIps,
    ports: Seq<u16>,
    note: Seq<char>,
    ipv6_prefix_len: u8,
    ipv4_only: bool,
    ipv6_only: bool,
)
    ensures
        mobile_plan(ips, ports, note, ipv6_prefix_len, ipv4_only, ipv6_only).map_values(
            |p: PlannedRuleView| request_view(p),
        ) == plan(
            restricted(ips, ipv4_only, ipv6_only),
            tcp_ports(ports),
            note,
            DEFAULT_IPV4_PREFIX_LEN,
            ipv6_prefix_len,
        ),
{
    let core = plan(
        restricted(ips, ipv4_only, ipv6_only),
        tcp_ports(ports),
        note,
        DEFAULT_IPV4_PREFIX_LEN,
        ipv6_prefix_len,
    );
    assert forall|i: int| 0 <= i < core.len() implies (#[trigger] core[i]).source
        =~= Seq::<char>::empty() by {}
    assert(mobile_plan(ips, ports, note, ipv6_prefix_len, ipv4_only, ipv6_only).map_values(
        |p: PlannedRuleView| request_view(p),
    ) =~= core);
}

} // verus!
