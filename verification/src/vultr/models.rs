//! Records exchanged with the Vultr firewall API, and their mathematical
//! views (strings seen as `Seq<char>`).

use vstd::prelude::*;
use crate::text::string_from;

verus! {

/// Address family for a firewall rule, as accepted by the Vultr API.
#[derive(Clone, Copy, Debug, PartialEq, Eq, Structural)]
pub enum IpType {
    V4,
    V6,
}

/// The name the API uses for an address family.
pub open spec fn ip_type_text(t: IpType) -> Seq<char> {
    match t {
        IpType::V4 => seq!['v', '4'],
        IpType::V6 => seq!['v', '6'],
    }
}

impl IpType {
    /// The family's name as the API writes it, `v4` or `v6`.
    pub fn to_string(&self) -> (s: String)
        ensures
            s@ == ip_type_text(*self),
    {
        let t = match self {
            IpType::V4 => "v4",
            IpType::V6 => "v6",
        };
        proof {
            reveal_strlit("v4");
            reveal_strlit("v6");
        }
        string_from(t)
    }
}

/// Protocol for a firewall rule, as accepted by the Vultr API.
#[derive(Clone, Copy, Debug, PartialEq, Eq, Structural)]
pub enum Protocol {
    Tcp,
    Udp,
    Icmp,
    Gre,
    Esp,
}

/// The name the API uses for a protocol.
pub open spec fn protocol_text(p: Protocol) -> Seq<char> {
    match p {
        Protocol::Tcp => seq!['t', 'c', 'p'],
        Protocol::Udp => seq!['u', 'd', 'p'],
        Protocol::Icmp => seq!['i', 'c', 'm', 'p'],
        Protocol::Gre => seq!['g', 'r', 'e'],
        Protocol::Esp => seq!['e', 's', 'p'],
    }
}

impl Protocol {
    /// The protocol's lower-case name as the API writes it.
    pub fn to_string(&self) -> (s: String)
        ensures
            s@ == protocol_text(*self),
    {
        let t = match self {
            Protocol::Tcp => "tcp",
            Protocol::Udp => "udp",
            Protocol::Icmp => "icmp",
            Protocol::Gre => "gre",
            Protocol::Esp => "esp",
        };
        proof {
            reveal_strlit("tcp");
            reveal_strlit("udp");
            reveal_strlit("icmp");
            reveal_strlit("gre");
            reveal_strlit("esp");
        }
        string_from(t)
    }
}

/// A firewall group, as returned by the Vultr API.
#[derive(Debug, PartialEq, Eq)]
pub struct FirewallGroup {
    pub id: String,
    pub description: String,
    pub date_created: String,
    pub date_modified: String,
    pub instance_count: i64,
    pub rule_count: i64,
    pub max_rule_count: i64,
}

/// The contents of a [`FirewallGroup`].
pub struct FirewallGroupView {
    pub id: Seq<char>,
    pub description: Seq<char>,
    pub date_created: Seq<char>,
    pub date_modified: Seq<char>,
    pub instance_count: i64,
    pub rule_count: i64,
    pub max_rule_count: i64,
}

impl View for FirewallGroup {
    type V = FirewallGroupView;

    open spec fn view(&self) -> FirewallGroupView {
        FirewallGroupView {
            id: self.id@,
            description: self.description@,
            date_created: self.date_created@,
            date_modified: self.date_modified@,
            instance_count: self.instance_count,
            rule_count: self.rule_count,
            max_rule_count: self.max_rule_count,
        }
    }
}

impl DeepView for FirewallGroup {
    type V = FirewallGroupView;

    open spec fn deep_view(&self) -> FirewallGroupView {
        self@
    }
}

impl Clone for FirewallGroup {
    fn clone(&self) -> (r: Self)
        ensures
            r@ == self@,
    {
        FirewallGroup {
            id: self.id.clone(),
            description: self.description.clone(),
            date_created: self.date_created.clone(),
            date_modified: self.date_modified.clone(),
            instance_count: self.instance_count,
            rule_count: self.rule_count,
            max_rule_count: self.max_rule_count,
        }
    }
}

/// A single rule within a firewall group, as returned by the Vultr API.
#[derive(Debug, PartialEq, Eq)]
pub struct FirewallRule {
    pub id: u64,
    pub action: String,
    pub ip_type: IpType,
    pub protocol: Protocol,
    pub port: String,
    pub subnet: String,
    pub subnet_size: i64,
    pub source: String,
    pub notes: String,
}

/// The contents of a [`FirewallRule`].
pub struct FirewallRuleView {
    pub id: u64,
    pub action: Seq<char>,
    pub ip_type: IpType,
    pub protocol: Protocol,
    pub port: Seq<char>,
    pub subnet: Seq<char>,
    pub subnet_size: i64,
    pub source: Seq<char>,
    pub notes: Seq<char>,
}

impl View for FirewallRule {
    type V = FirewallRuleView;

    open spec fn view(&self) -> FirewallRuleView {
        FirewallRuleView {
            id: self.id,
            action: self.action@,
            ip_type: self.ip_type,
            protocol: self.protocol,
            port: self.port@,
            subnet: self.subnet@,
            subnet_size: self.subnet_size,
            source: self.source@,
            notes: self.notes@,
        }
    }
}

impl DeepView for FirewallRule {
    type V = FirewallRuleView;

    open spec fn deep_view(&self) -> FirewallRuleView {
        self@
    }
}

impl Clone for FirewallRule {
    fn clone(&self) -> (r: Self)
        ensures
            r@ == self@,
    {
        FirewallRule {
            id: self.id,
            action: self.action.clone(),
            ip_type: self.ip_type,
            protocol: self.protocol,
            port: self.port.clone(),
            subnet: self.subnet.clone(),
            subnet_size: self.subnet_size,
            source: self.source.clone(),
            notes: self.notes.clone(),
        }
    }
}

/// Request body used to create a new firewall rule.
#[derive(Debug, PartialEq, Eq)]
pub struct FirewallRuleReq {
    pub ip_type: IpType,
    pub protocol: Protocol,
    pub subnet: String,
    pub subnet_size: i64,
    pub port: String,
    pub source: String,
    pub notes: String,
}

/// The contents of a [`FirewallRuleReq`].
pub struct FirewallRuleReqView {
    pub ip_type: IpType,
    pub protocol: Protocol,
    pub subnet: Seq<char>,
    pub subnet_size: i64,
    pub port: Seq<char>,
    pub source: Seq<char>,
    pub notes: Seq<char>,
}

impl View for FirewallRuleReq {
    type V = FirewallRuleReqView;

    open spec fn view(&self) -> FirewallRuleReqView {
        FirewallRuleReqView {
            ip_type: self.ip_type,
            protocol: self.protocol,
            subnet: self.subnet@,
            subnet_size: self.subnet_size,
            port: self.port@,
            source: self.source@,
            notes: self.notes@,
        }
    }
}

impl DeepView for FirewallRuleReq {
    type V = FirewallRuleReqView;

    open spec fn deep_view(&self) -> FirewallRuleReqView {
        self@
    }
}

impl Clone for FirewallRuleReq {
    fn clone(&self) -> (r: Self)
        ensures
            r@ == self@,
    {
        FirewallRuleReq {
            ip_type: self.ip_type,
            protocol: self.protocol,
            subnet: self.subnet.clone(),
            subnet_size: self.subnet_size,
            port: self.port.clone(),
            source: self.source.clone(),
            notes: self.notes.clone(),
        }
    }
}

/// Paging metadata of a list response.
#[derive(Clone, Copy, Debug, PartialEq, Eq, Structural)]
pub struct Meta {
    pub total: u64,
}

/// Response body of the "list firewall groups" call.
#[derive(Debug)]
pub struct FirewallGroupsResponse {
    pub firewall_groups: Vec<FirewallGroup>,
    pub meta: Option<Meta>,
}

/// Response body of the "get firewall group" call.
#[derive(Debug)]
pub struct FirewallGroupResponse {
    pub firewall_group: FirewallGroup,
}

/// Response body of the "list firewall rules" call.
#[derive(Debug)]
pub struct FirewallRulesResponse {
    pub firewall_rules: Vec<FirewallRule>,
    pub meta: Option<Meta>,
}

/// Response body of the "create firewall rule" call.
#[derive(Debug)]
pub struct FirewallRuleResponse {
    pub firewall_rule: FirewallRule,
}

} // verus!
