use fwupdater::cli::{
    create_rule_requests, delete_rule_requests, detected_report, find_groups_by_description,
    group_line, group_match, has_usable_address, is_affirmative, request_report, rule_line,
    select_group, send_step, GroupMatch, GroupSelection, SendAction, SendEvent, SendPlan,
    SendState,
};
use fwupdater::ip_detect::DetectedIps;
use fwupdater::vultr::models::{FirewallGroup, FirewallRule, FirewallRuleReq, IpType, Protocol};
use fwupdater::vultr::{requests, Method};

fn group(id: &str, description: &str) -> FirewallGroup {
    FirewallGroup {
        id: id.to_string(),
        description: description.to_string(),
        date_created: "2024-01-01".to_string(),
        date_modified: "2024-01-02".to_string(),
        instance_count: 2,
        rule_count: 5,
        max_rule_count: 50,
    }
}

#[test]
fn explicit_group_id_wins() {
    assert!(matches!(select_group(Some("g1"), Some("desc")), GroupSelection::Id(id) if id == "g1"));
    assert!(matches!(select_group(None, Some("desc")), GroupSelection::Description(d) if d == "desc"));
    assert!(matches!(select_group(None, None), GroupSelection::Missing));
}

#[test]
fn descriptions_match_ignoring_ascii_case() {
    let groups = vec![group("a", "Home"), group("b", "office"), group("c", "HOME"), group("d", "Homes")];
    let found = find_groups_by_description(&groups, "home");
    let ids: Vec<&str> = found.iter().map(|g| g.id.as_str()).collect();
    assert_eq!(ids, vec!["a", "c"]);
    assert!(find_groups_by_description(&groups, "lab").is_empty());
}

#[test]
fn only_y_or_yes_confirms() {
    for yes in ["y", "Y", "yes", "YES", "Yes", "  yes\n", "y\r\n"] {
        assert!(is_affirmative(yes), "{yes:?}");
    }
    for no in ["", "n", "no", "yess", "ye", "sure", "y e s"] {
        assert!(!is_affirmative(no), "{no:?}");
    }
}

#[test]
fn requests_for_each_rule_and_id() {
    let rule = FirewallRuleReq {
        ip_type: IpType::V4,
        protocol: Protocol::Tcp,
        subnet: "1.2.3.4".to_string(),
        subnet_size: 32,
        port: "22".to_string(),
        source: String::new(),
        notes: "n".to_string(),
    };
    let creates = create_rule_requests("g", &[rule.clone(), rule.clone()]);
    assert_eq!(creates.len(), 2);
    assert!(creates.iter().all(|r| r.method == Method::Post && r.path == "/v2/firewalls/g/rules"));
    let deletes = delete_rule_requests("g", &[3, 4]);
    assert_eq!(deletes.len(), 2);
    assert_eq!(deletes[1].path, "/v2/firewalls/g/rules/4");
}

#[test]
fn request_report_shows_method_url_body_and_curl() {
    let r = requests::list_firewall_groups();
    let text = request_report(&r, "https://api.vultr.com", "");
    assert_eq!(
        text,
        "---\nGET https://api.vultr.com/v2/firewalls\n\nEquivalent curl:\ncurl \"https://api.vultr.com/v2/firewalls\" \\\n  -X GET \\\n  -H \"Authorization: Bearer $VULTR_API_KEY\"\n---\n\n"
    );
}

#[test]
fn group_and_rule_lines() {
    assert_eq!(
        group_line(&group("abc", "Home")),
        "id=abc        description=Home                           instances=2    rules=5/50 created=2024-01-01"
    );
    let r = FirewallRule {
        id: 7,
        action: "accept".to_string(),
        ip_type: IpType::V4,
        protocol: Protocol::Tcp,
        port: "22".to_string(),
        subnet: "1.2.3.4".to_string(),
        subnet_size: 32,
        source: String::new(),
        notes: "n".to_string(),
    };
    assert_eq!(
        rule_line(&r),
        "id=7        action=accept   type=v4 proto=tcp port=22         subnet=1.2.3.4/32  source=-          notes=n"
    );
}

#[test]
fn detected_report_lines() {
    let text = detected_report(&DetectedIps { ipv4: Some(0x01020304), ipv6: None });
    assert_eq!(text, "IPv4: 1.2.3.4\nIPv6: (none / not detected)\n");
    let text = detected_report(&DetectedIps { ipv4: None, ipv6: Some(1) });
    assert_eq!(text, "IPv4: (not detected)\nIPv6: ::1\n");
}

#[test]
fn description_lookup_outcomes() {
    assert!(matches!(group_match(&[]), GroupMatch::NotFound));
    match group_match(&[group("a", "Home")]) {
        GroupMatch::One(g) => {
            assert_eq!(g.id, "a");
            assert_eq!(g.description, "Home");
        }
        other => panic!("unexpected {other:?}"),
    }
    assert!(matches!(group_match(&[group("a", "Home"), group("c", "HOME")]), GroupMatch::Ambiguous));
}

#[test]
fn usable_address_needs_either_family() {
    assert!(!has_usable_address(&DetectedIps { ipv4: None, ipv6: None }));
    assert!(has_usable_address(&DetectedIps { ipv4: Some(1), ipv6: None }));
    assert!(has_usable_address(&DetectedIps { ipv4: None, ipv6: Some(1) }));
    assert!(has_usable_address(&DetectedIps { ipv4: Some(1), ipv6: Some(1) }));
}

fn run(plan: SendPlan, events: Vec<SendEvent>) -> Vec<SendAction> {
    let mut state = SendState::Start;
    let mut actions = Vec::new();
    for e in &events {
        let (next, action) = send_step(plan, state, e);
        state = next;
        actions.push(action);
    }
    actions
}

#[test]
fn dry_run_stops_before_sending() {
    let plan = SendPlan { dry_run: true, yes: true, count: 2 };
    assert_eq!(
        run(plan, vec![SendEvent::Begin, SendEvent::Sent(true), SendEvent::Answer("yes".to_string())]),
        vec![SendAction::StopDryRun, SendAction::Ignore, SendAction::Ignore]
    );
}

#[test]
fn yes_sends_every_request_in_order_past_failures() {
    let plan = SendPlan { dry_run: false, yes: true, count: 3 };
    assert_eq!(
        run(plan, vec![SendEvent::Begin, SendEvent::Sent(false), SendEvent::Sent(true), SendEvent::Sent(false)]),
        vec![SendAction::Send(0), SendAction::Send(1), SendAction::Send(2), SendAction::Finish]
    );
    let none = SendPlan { dry_run: false, yes: true, count: 0 };
    assert_eq!(run(none, vec![SendEvent::Begin]), vec![SendAction::Finish]);
}

#[test]
fn sending_waits_for_a_yes() {
    let plan = SendPlan { dry_run: false, yes: false, count: 2 };
    assert_eq!(
        run(plan, vec![SendEvent::Begin, SendEvent::Answer(" Yes\n".to_string()), SendEvent::Sent(false), SendEvent::Sent(true)]),
        vec![SendAction::AskConfirmation, SendAction::Send(0), SendAction::Send(1), SendAction::Finish]
    );
    assert_eq!(
        run(plan, vec![SendEvent::Begin, SendEvent::Answer("nope".to_string()), SendEvent::Sent(true)]),
        vec![SendAction::AskConfirmation, SendAction::StopAborted, SendAction::Ignore]
    );
    assert_eq!(
        run(plan, vec![SendEvent::Begin, SendEvent::Answer(String::new())]),
        vec![SendAction::AskConfirmation, SendAction::StopAborted]
    );
}
