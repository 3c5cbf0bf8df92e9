//! Request builders. These are pure functions — no client or network access
//! required — so a caller can build, print, and inspect a request before
//! deciding whether to actually send it.

use vstd::prelude::*;
use crate::text::{dec_text, push_dec, push_str, string_from};
use super::client::{ApiRequest, ApiRequestView, Method};
use super::models::FirewallRuleReq;

verus! {

/// Path of the firewall groups collection.
pub open spec fn groups_path() -> Seq<char> {
    "/v2/firewalls"@
}

/// Path of the rules collection of a firewall group.
pub open spec fn rules_path(group_id: Seq<char>) -> Seq<char> {
    "/v2/firewalls/"@ + group_id + "/rules"@
}

/// Path of one rule of a firewall group.
pub open spec fn rule_path(group_id: Seq<char>, rule_id: u64) -> Seq<char> {
    rules_path(group_id) + "/"@ + dec_text(rule_id as nat)
}

fn rules_path_string(group_id: &str) -> (s: String)
    ensures
        s@ == rules_path(group_id@),
{
    proof {
        reveal_strlit("/v2/firewalls/");
        reveal_strlit("/rules");
    }
    let mut s = string_from("/v2/firewalls/");
    push_str(&mut s, group_id);
    push_str(&mut s, "/rules");
    s
}

/// Lists the firewall groups of the account.
pub fn list_firewall_groups() -> (r: ApiRequest)
    ensures
        r@ == (ApiRequestView { method: Method::Get, path: groups_path(), body: None }),
{
    ApiRequest::get(string_from("/v2/firewalls"))
}

/// Lists the rules inside a firewall group.
pub fn list_firewall_rules(group_id: &str) -> (r: ApiRequest)
    ensures
        r@ == (ApiRequestView { method: Method::Get, path: rules_path(group_id@), body: None }),
{
    ApiRequest::get(rules_path_string(group_id))
}

/// Creates `rule` inside a firewall group.
pub fn create_firewall_rule(group_id: &str, rule: &FirewallRuleReq) -> (r: ApiRequest)
    ensures
        r@ == (ApiRequestView {
            method: Method::Post,
            path: rules_path(group_id@),
            body: Some(rule@),
        }),
{
    ApiRequest::post(rules_path_string(group_id), rule.clone())
}

/// Deletes one rule of a firewall group.
pub fn delete_firewall_rule(group_id: &str, rule_id: u64) -> (r: ApiRequest)
    ensures
        r@ == (ApiRequestView {
            method: Method::Delete,
            path: rule_path(group_id@, rule_id),
            body: None,
        }),
{
    proof {
        reveal_strlit("/");
    }
    let mut path = rules_path_string(group_id);
    push_str(&mut path, "/");
    push_dec(&mut path, rule_id as u128);
    ApiRequest::delete(path)
}

} // verus!
