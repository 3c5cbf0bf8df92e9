//! The Vultr firewall API: its records, the requests the library builds,
//! and the client that holds the credentials.

pub mod client;
pub mod models;
pub mod requests;

pub use client::{ApiRequest, Method, VultrClient};
pub use models::{
    FirewallGroup, FirewallGroupResponse, FirewallGroupsResponse, FirewallRule, FirewallRuleReq,
    FirewallRuleResponse, FirewallRulesResponse, IpType, Meta, Protocol,
};
