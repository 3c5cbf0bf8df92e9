use fwupdater::error::UpdaterError;
use fwupdater::ip_detect::DetectedIps as CoreDetectedIps;
use fwupdater::mobile::{
    add_rule_requests, add_rule_results, default_ipv6_prefix_len, default_ports, find_stale_rules, plan_add_rules,
    remove_rule_results, DetectedIps, FirewallRule, IpType, MobileClient, MobileError, PlannedRule,
    Protocol,
};
use fwupdater::vultr::models::{
    FirewallRule as CoreFirewallRule, FirewallRuleReq, IpType as CoreIpType, Protocol as CoreProtocol,
};

fn ips(v4: Option<&str>, v6: Option<&str>) -> DetectedIps {
    DetectedIps { ipv4: v4.map(|s| s.to_string()), ipv6: v6.map(|s| s.to_string()) }
}

fn mobile_rule(id: u64, subnet: &str, size: i64, notes: &str) -> FirewallRule {
    FirewallRule {
        id,
        action: "accept".to_string(),
        ip_type: IpType::V4,
        protocol: Protocol::Tcp,
        port: "22".to_string(),
        subnet: subnet.to_string(),
        subnet_size: size,
        source: String::new(),
        notes: notes.to_string(),
    }
}

#[test]
fn mobile_defaults() {
    assert_eq!(default_ports(), vec![22, 80, 443]);
    assert_eq!(default_ipv6_prefix_len(), 64);
}

#[test]
fn mobile_plan_opens_tcp_ports_for_both_families() {
    let planned = plan_add_rules(ips(Some("1.2.3.4"), Some("2607:fb91:4b0c:c2d4::1")), vec![22, 443], "phone".to_string(), 64, false, false).unwrap();
    assert_eq!(planned.len(), 4);
    assert_eq!(planned[0].ip_type, IpType::V4);
    assert_eq!(planned[0].subnet, "1.2.3.4");
    assert_eq!(planned[0].subnet_size, 32);
    assert_eq!(planned[0].port, "22");
    assert_eq!(planned[1].port, "443");
    assert_eq!(planned[2].ip_type, IpType::V6);
    assert_eq!(planned[2].subnet, "2607:fb91:4b0c:c2d4::");
    assert_eq!(planned[2].subnet_size, 64);
    assert_eq!(planned[3].protocol, Protocol::Tcp);
    assert_eq!(planned[3].notes, "phone");
}

#[test]
fn mobile_plan_family_flags() {
    let only4 = plan_add_rules(ips(Some("1.2.3.4"), Some("::1")), vec![22], "n".to_string(), 64, true, false).unwrap();
    assert_eq!(only4.len(), 1);
    assert_eq!(only4[0].ip_type, IpType::V4);
    let only6 = plan_add_rules(ips(Some("1.2.3.4"), Some("::1")), vec![22], "n".to_string(), 64, false, true).unwrap();
    assert_eq!(only6.len(), 1);
    assert_eq!(only6[0].ip_type, IpType::V6);
    let neither = plan_add_rules(ips(Some("1.2.3.4"), Some("::1")), vec![22], "n".to_string(), 64, true, true).unwrap();
    assert!(neither.is_empty());
}

#[test]
fn mobile_plan_rejects_bad_addresses() {
    match plan_add_rules(ips(Some("1.2.3"), Some("::1")), vec![22], "n".to_string(), 64, false, false) {
        Err(MobileError::IpDetect(m)) => assert_eq!(m, "invalid IPv4 address: invalid IPv4 address syntax"),
        other => panic!("unexpected {other:?}"),
    }
    match plan_add_rules(ips(Some("1.2.3.4"), Some("::g")), vec![22], "n".to_string(), 64, false, false) {
        Err(MobileError::IpDetect(m)) => assert_eq!(m, "invalid IPv6 address: invalid IPv6 address syntax"),
        other => panic!("unexpected {other:?}"),
    }
}

#[test]
fn mobile_find_stale_rules() {
    let rules = vec![
        mobile_rule(1, "1.2.3.4", 32, "phone"),
        mobile_rule(2, "5.6.7.8", 32, "phone"),
        mobile_rule(3, "5.6.7.8", 32, "other"),
    ];
    let stale = find_stale_rules(rules, ips(Some("1.2.3.4"), None), "phone".to_string(), 64).unwrap();
    assert_eq!(stale.len(), 1);
    assert_eq!(stale[0].id, 2);
    assert!(matches!(
        find_stale_rules(vec![], ips(None, Some("nope")), "phone".to_string(), 64),
        Err(MobileError::IpDetect(_))
    ));
}

#[test]
fn detected_ips_text_round_trip() {
    let core = CoreDetectedIps { ipv4: Some(0x0a000001), ipv6: Some(0x2001_0db8_0000_0000_0000_0000_0000_0001) };
    let m = DetectedIps::from(core);
    assert_eq!(m.ipv4.as_deref(), Some("10.0.0.1"));
    assert_eq!(m.ipv6.as_deref(), Some("2001:db8::1"));
    assert_eq!(m.to_core().unwrap(), core);
}

#[test]
fn conversions_between_core_and_mobile_records() {
    let core = CoreFirewallRule {
        id: 5,
        action: "accept".to_string(),
        ip_type: CoreIpType::V6,
        protocol: CoreProtocol::Udp,
        port: "53".to_string(),
        subnet: "::".to_string(),
        subnet_size: 0,
        source: "src".to_string(),
        notes: "n".to_string(),
    };
    let m = FirewallRule::from(core.clone());
    assert_eq!(m.ip_type, IpType::V6);
    assert_eq!(m.protocol, Protocol::Udp);
    assert_eq!(m.source, "src");
    assert_eq!(CoreFirewallRule::from(m), core);

    let planned = PlannedRule {
        ip_type: IpType::V4,
        protocol: Protocol::Tcp,
        subnet: "1.2.3.4".to_string(),
        subnet_size: 32,
        port: "22".to_string(),
        notes: "n".to_string(),
    };
    let req = FirewallRuleReq::from(planned.clone());
    assert_eq!(req.source, "");
    assert_eq!(req.ip_type, CoreIpType::V4);
    let back = PlannedRule::from(req);
    assert_eq!(back.subnet, planned.subnet);
    assert_eq!(back.port, planned.port);
}

#[test]
fn mobile_errors_from_core_errors() {
    match MobileError::from(UpdaterError::Api { status: 500, message: "boom".to_string() }) {
        MobileError::Api { status, message } => {
            assert_eq!(status, 500);
            assert_eq!(message, "boom");
        }
        other => panic!("unexpected {other:?}"),
    }
    assert!(matches!(MobileError::from(UpdaterError::IpDetect("x".to_string())), MobileError::IpDetect(m) if m == "x"));
}

#[test]
fn one_result_per_planned_rule() {
    let planned = vec![
        PlannedRule { ip_type: IpType::V4, protocol: Protocol::Tcp, subnet: "1.2.3.4".to_string(), subnet_size: 32, port: "22".to_string(), notes: "n".to_string() },
        PlannedRule { ip_type: IpType::V4, protocol: Protocol::Tcp, subnet: "1.2.3.4".to_string(), subnet_size: 32, port: "80".to_string(), notes: "n".to_string() },
    ];
    let created = CoreFirewallRule {
        id: 11,
        action: "accept".to_string(),
        ip_type: CoreIpType::V4,
        protocol: CoreProtocol::Tcp,
        port: "22".to_string(),
        subnet: "1.2.3.4".to_string(),
        subnet_size: 32,
        source: String::new(),
        notes: "n".to_string(),
    };
    let outcomes = vec![Ok(created), Err(UpdaterError::Api { status: 400, message: "dup".to_string() })];
    let results = add_rule_results(planned, outcomes);
    assert_eq!(results.len(), 2);
    assert_eq!(results[0].planned.port, "22");
    assert_eq!(results[0].rule.as_ref().map(|r| r.id), Some(11));
    assert!(results[0].error_message.is_none());
    assert_eq!(results[1].planned.port, "80");
    assert!(results[1].rule.is_none());
    assert_eq!(results[1].error_message.as_deref(), Some("Vultr API returned an error (HTTP 400): dup"));
}

#[test]
fn one_result_per_deleted_rule() {
    let results = remove_rule_results(
        vec![1, 2],
        vec![Err(UpdaterError::Api { status: 404, message: "gone".to_string() }), Ok(())],
    );
    assert_eq!(results.len(), 2);
    assert_eq!(results[0].rule_id, 1);
    assert_eq!(results[0].error_message.as_deref(), Some("Vultr API returned an error (HTTP 404): gone"));
    assert_eq!(results[1].rule_id, 2);
    assert!(results[1].error_message.is_none());
}

#[test]
fn mobile_client_construction() {
    let c = MobileClient::with_base_url("k".to_string(), "http://mock/".to_string()).unwrap();
    assert_eq!(c.inner().base_url(), "http://mock");
    let c = MobileClient::new("k".to_string()).unwrap();
    assert_eq!(c.inner().base_url(), "https://api.vultr.com");
}

#[test]
fn network_failures_become_network_errors() {
    let json = serde_json::from_str::<u8>("x").unwrap_err();
    let text = json.to_string();
    match MobileError::from(UpdaterError::Json(json)) {
        MobileError::Network(m) => assert_eq!(m, text),
        other => panic!("unexpected {other:?}"),
    }
    let http = reqwest::blocking::Client::new().get("not a url").send().unwrap_err();
    let text = http.to_string();
    match MobileError::from(UpdaterError::Http(http)) {
        MobileError::Network(m) => assert_eq!(m, text),
        other => panic!("unexpected {other:?}"),
    }
}

#[test]
fn mobile_zero_ipv6_prefix() {
    let planned = plan_add_rules(ips(None, Some("2001:db8::1")), vec![443], "n".to_string(), 0, false, false).unwrap();
    assert_eq!(planned.len(), 1);
    assert_eq!(planned[0].subnet, "::");
    assert_eq!(planned[0].subnet_size, 0);
    let mut open = mobile_rule(4, "::", 0, "n");
    open.ip_type = IpType::V6;
    let stale = find_stale_rules(vec![open], ips(None, Some("2001:db8::1")), "n".to_string(), 0).unwrap();
    assert!(stale.is_empty());
}

#[test]
fn mobile_add_requests_one_per_planned_rule() {
    let planned = plan_add_rules(ips(Some("1.2.3.4"), None), vec![22, 80], "n".to_string(), 64, false, false).unwrap();
    let reqs = add_rule_requests("grp", &planned);
    assert_eq!(reqs.len(), 2);
    for (req, p) in reqs.iter().zip(&planned) {
        assert_eq!(req.method, fwupdater::vultr::Method::Post);
        assert_eq!(req.path, "/v2/firewalls/grp/rules");
        let body = req.body.as_ref().unwrap();
        assert_eq!(body.port, p.port);
        assert_eq!(body.subnet, "1.2.3.4");
        assert_eq!(body.subnet_size, 32);
        assert_eq!(body.source, "");
        assert_eq!(body.notes, "n");
        assert_eq!(body.ip_type, CoreIpType::V4);
    }
    assert!(add_rule_requests("grp", &[]).is_empty());
}

#[test]
fn mobile_records_clone() {
    let r = mobile_rule(5, "1.2.3.4", 32, "n");
    let c = r.clone();
    assert_eq!(c.id, 5);
    assert_eq!(c.subnet, "1.2.3.4");
    let results = remove_rule_results(vec![1], vec![Ok(())]);
    let copy = results[0].clone();
    assert_eq!(copy.rule_id, 1);
    assert!(copy.error_message.is_none());
}
