use fwupdater::addr::{parse_ipv4, parse_ipv6};
use fwupdater::host_planner;
use fwupdater::ip_detect::DetectedIps;
use fwupdater::planner::{
    find_stale_rules, ipv4_network_prefix, ipv6_network_prefix, plan_add_rules, PortSpec,
    DEFAULT_IPV4_PREFIX_LEN, DEFAULT_IPV6_PREFIX_LEN, DEFAULT_PORTS,
};
use fwupdater::vultr::models::{FirewallRule, FirewallRuleReq, IpType, Protocol};

fn rule(id: u64, ip_type: IpType, subnet: &str, subnet_size: i64, notes: &str) -> FirewallRule {
    FirewallRule {
        id,
        action: "accept".to_string(),
        ip_type,
        protocol: Protocol::Tcp,
        port: "22".to_string(),
        subnet: subnet.to_string(),
        subnet_size,
        source: String::new(),
        notes: notes.to_string(),
    }
}

fn v4(s: &str) -> u32 {
    parse_ipv4(s).unwrap()
}

fn v6(s: &str) -> u128 {
    parse_ipv6(s).unwrap()
}

#[test]
fn find_stale_rules_keeps_current_ignores_other_notes_flags_the_rest() {
    let ips = DetectedIps { ipv4: Some(v4("1.2.3.4")), ipv6: Some(v6("2607:fb91:4b0c:c2d4::1")) };

    let current_v4 = rule(1, IpType::V4, "1.2.3.4", 32, "framework");
    let current_v6 = rule(2, IpType::V6, "2607:fb91:4b0c:c2d4::", 64, "framework");
    let stale_v4 = rule(3, IpType::V4, "9.9.9.9", 32, "framework");
    let other_notes = rule(4, IpType::V4, "9.9.9.9", 32, "manual-rule");

    let rules = vec![current_v4, current_v6, stale_v4.clone(), other_notes];
    let stale = find_stale_rules(&rules, &ips, "framework", 64);

    assert_eq!(stale, vec![stale_v4]);
}

#[test]
fn defaults_are_ssh_http_https_and_a_slash_64() {
    assert_eq!(DEFAULT_PORTS, [22, 80, 443]);
    assert_eq!(DEFAULT_IPV6_PREFIX_LEN, 64);
    assert_eq!(DEFAULT_IPV4_PREFIX_LEN, 32);
}

#[test]
fn port_spec_tcp_renders_the_port_in_decimal() {
    let spec = PortSpec::tcp(443);
    assert_eq!(spec.port, "443");
    assert_eq!(spec.protocol, Protocol::Tcp);
    assert_eq!(PortSpec::tcp(0).port, "0");
    assert_eq!(PortSpec::tcp(65535).port, "65535");
}

#[test]
fn network_prefixes_clear_host_bits() {
    assert_eq!(ipv4_network_prefix(v4("192.168.17.99"), 24), v4("192.168.17.0"));
    assert_eq!(ipv4_network_prefix(v4("192.168.17.99"), 32), v4("192.168.17.99"));
    assert_eq!(ipv4_network_prefix(v4("192.168.17.99"), 40), v4("192.168.17.99"));
    assert_eq!(ipv4_network_prefix(v4("255.255.255.255"), 1), v4("128.0.0.0"));
    assert_eq!(
        ipv6_network_prefix(v6("2607:fb91:4b0c:c2d4:1234:5678:9abc:def0"), 64),
        v6("2607:fb91:4b0c:c2d4::")
    );
    assert_eq!(ipv6_network_prefix(v6("2001:db8::1"), 128), v6("2001:db8::1"));
    assert_eq!(ipv6_network_prefix(v6("2001:db8::1"), 200), v6("2001:db8::1"));
    assert_eq!(ipv6_network_prefix(v6("ffff::"), 4), v6("f000::"));
}

#[test]
fn network_prefix_is_idempotent() {
    let a = v6("2607:fb91:4b0c:c2d4:aaaa:bbbb:cccc:dddd");
    let n = ipv6_network_prefix(a, 56);
    assert_eq!(ipv6_network_prefix(n, 56), n);
    let b = v4("10.20.30.40");
    let m = ipv4_network_prefix(b, 12);
    assert_eq!(ipv4_network_prefix(m, 12), m);
}

fn req(ip_type: IpType, subnet: &str, size: i64, port: &str, note: &str) -> FirewallRuleReq {
    FirewallRuleReq {
        ip_type,
        protocol: Protocol::Tcp,
        subnet: subnet.to_string(),
        subnet_size: size,
        port: port.to_string(),
        source: String::new(),
        notes: note.to_string(),
    }
}

#[test]
fn plan_add_rules_one_rule_per_family_and_port() {
    let ips = DetectedIps { ipv4: Some(v4("1.2.3.4")), ipv6: Some(v6("2607:fb91:4b0c:c2d4::1")) };
    let ports = vec![PortSpec::tcp(22), PortSpec::tcp(443)];
    let planned = plan_add_rules(&ips, &ports, "laptop", 32, 64);
    assert_eq!(
        planned,
        vec![
            req(IpType::V4, "1.2.3.4", 32, "22", "laptop"),
            req(IpType::V4, "1.2.3.4", 32, "443", "laptop"),
            req(IpType::V6, "2607:fb91:4b0c:c2d4::", 64, "22", "laptop"),
            req(IpType::V6, "2607:fb91:4b0c:c2d4::", 64, "443", "laptop"),
        ]
    );
}

#[test]
fn plan_add_rules_masks_ipv4_to_its_prefix() {
    let ips = DetectedIps { ipv4: Some(v4("10.1.2.3")), ipv6: None };
    let ports = vec![PortSpec { port: "8000:9000".to_string(), protocol: Protocol::Udp }];
    let planned = plan_add_rules(&ips, &ports, "", 16, 64);
    assert_eq!(planned.len(), 1);
    assert_eq!(planned[0].subnet, "10.1.0.0");
    assert_eq!(planned[0].subnet_size, 16);
    assert_eq!(planned[0].port, "8000:9000");
    assert_eq!(planned[0].protocol, Protocol::Udp);
    assert_eq!(planned[0].notes, "");
}

#[test]
fn plan_add_rules_without_addresses_plans_nothing() {
    let ips = DetectedIps { ipv4: None, ipv6: None };
    let ports = vec![PortSpec::tcp(22)];
    assert!(plan_add_rules(&ips, &ports, "x", 32, 64).is_empty());
    let only_v6 = DetectedIps { ipv4: None, ipv6: Some(v6("2001:db8:1:2:3:4:5:6")) };
    let planned = plan_add_rules(&only_v6, &ports, "x", 32, 48);
    assert_eq!(planned, vec![req(IpType::V6, "2001:db8:1::", 48, "22", "x")]);
}

#[test]
fn planned_rules_are_never_stale_for_the_same_addresses() {
    let ips = DetectedIps { ipv4: Some(v4("203.0.113.7")), ipv6: Some(v6("2001:db8:aa:bb:1:2:3:4")) };
    let ports = vec![PortSpec::tcp(22), PortSpec::tcp(80)];
    let planned = plan_add_rules(&ips, &ports, "home", DEFAULT_IPV4_PREFIX_LEN, 64);
    let rules: Vec<FirewallRule> = planned
        .iter()
        .enumerate()
        .map(|(i, r)| FirewallRule {
            id: i as u64,
            action: "accept".to_string(),
            ip_type: r.ip_type,
            protocol: r.protocol,
            port: r.port.clone(),
            subnet: r.subnet.clone(),
            subnet_size: r.subnet_size,
            source: String::new(),
            notes: r.notes.clone(),
        })
        .collect();
    assert!(find_stale_rules(&rules, &ips, "home", 64).is_empty());
    // After the addresses change, every one of them is stale.
    let moved = DetectedIps { ipv4: Some(v4("203.0.113.8")), ipv6: Some(v6("2001:db8:aa:bc::1")) };
    assert_eq!(find_stale_rules(&rules, &moved, "home", 64), rules);
}

#[test]
fn stale_detection_compares_subnet_and_size() {
    let ips = DetectedIps { ipv4: Some(v4("1.2.3.4")), ipv6: None };
    let same_subnet_other_size = rule(7, IpType::V4, "1.2.3.4", 24, "n");
    let negative_size = rule(8, IpType::V4, "1.2.3.4", -32, "n");
    let rules = vec![same_subnet_other_size.clone(), negative_size.clone()];
    assert_eq!(find_stale_rules(&rules, &ips, "n", 64), rules);
    let no_ips = DetectedIps { ipv4: None, ipv6: None };
    let current = rule(9, IpType::V4, "1.2.3.4", 32, "n");
    assert_eq!(find_stale_rules(&[current.clone()], &no_ips, "n", 0), vec![current]);
}

#[test]
fn host_planner_uses_exact_host_addresses() {
    let ips = DetectedIps { ipv4: Some(v4("1.2.3.4")), ipv6: Some(v6("2607:fb91:4b0c:c2d4::1")) };
    let ports = vec![PortSpec::tcp(22)];
    let planned = host_planner::plan_add_rules(&ips, &ports, "n");
    assert_eq!(
        planned,
        vec![
            req(IpType::V4, "1.2.3.4", 32, "22", "n"),
            req(IpType::V6, "2607:fb91:4b0c:c2d4::1", 128, "22", "n"),
        ]
    );
    assert_eq!(planned, plan_add_rules(&ips, &ports, "n", 32, 128));
}

#[test]
fn zero_prefix_keeps_no_bits() {
    assert_eq!(ipv4_network_prefix(v4("192.168.17.99"), 0), 0);
    assert_eq!(ipv4_network_prefix(u32::MAX, 0), 0);
    assert_eq!(ipv6_network_prefix(v6("2607:fb91:4b0c:c2d4::1"), 0), 0);
    assert_eq!(ipv6_network_prefix(u128::MAX, 0), 0);
}

#[test]
fn zero_prefix_plans_the_all_zero_network() {
    let ips = DetectedIps { ipv4: Some(v4("10.1.2.3")), ipv6: Some(v6("2001:db8::1")) };
    let ports = vec![PortSpec::tcp(22)];
    let planned = plan_add_rules(&ips, &ports, "any", 0, 0);
    assert_eq!(
        planned,
        vec![req(IpType::V4, "0.0.0.0", 0, "22", "any"), req(IpType::V6, "::", 0, "22", "any")]
    );
    let open_v6 = rule(1, IpType::V6, "::", 0, "any");
    let host_v6 = rule(2, IpType::V6, "2001:db8::1", 128, "any");
    let stale = find_stale_rules(&[open_v6, host_v6.clone()], &ips, "any", 0);
    assert_eq!(stale, vec![host_v6]);
}
