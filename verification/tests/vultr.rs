use fwupdater::error::UpdaterError;
use fwupdater::vultr::client::is_success_status;
use fwupdater::vultr::models::{FirewallRuleReq, IpType, Protocol};
use fwupdater::vultr::requests;
use fwupdater::vultr::{Method, VultrClient};

fn sample_rule() -> FirewallRuleReq {
    FirewallRuleReq {
        ip_type: IpType::V4,
        protocol: Protocol::Tcp,
        subnet: "1.2.3.4".to_string(),
        subnet_size: 32,
        port: "22".to_string(),
        source: String::new(),
        notes: "laptop".to_string(),
    }
}

#[test]
fn request_builders_name_the_right_paths() {
    let r = requests::list_firewall_groups();
    assert_eq!(r.method, Method::Get);
    assert_eq!(r.path, "/v2/firewalls");
    assert!(r.body.is_none());

    let r = requests::list_firewall_rules("abc");
    assert_eq!(r.method, Method::Get);
    assert_eq!(r.path, "/v2/firewalls/abc/rules");

    let r = requests::create_firewall_rule("abc", &sample_rule());
    assert_eq!(r.method, Method::Post);
    assert_eq!(r.path, "/v2/firewalls/abc/rules");
    assert_eq!(r.body, Some(sample_rule()));

    let r = requests::delete_firewall_rule("abc", 42);
    assert_eq!(r.method, Method::Delete);
    assert_eq!(r.path, "/v2/firewalls/abc/rules/42");
    assert!(r.body.is_none());
}

#[test]
fn method_names() {
    assert_eq!(Method::Get.as_str(), "GET");
    assert_eq!(Method::Post.as_str(), "POST");
    assert_eq!(Method::Delete.as_str(), "DELETE");
}

#[test]
fn url_appends_the_path() {
    let r = requests::list_firewall_groups();
    assert_eq!(r.url("https://api.vultr.com"), "https://api.vultr.com/v2/firewalls");
}

#[test]
fn curl_without_body() {
    let r = requests::delete_firewall_rule("g1", 7);
    assert_eq!(
        r.to_curl("https://api.vultr.com", "ignored"),
        "curl \"https://api.vultr.com/v2/firewalls/g1/rules/7\" \\\n  -X DELETE \\\n  -H \"Authorization: Bearer $VULTR_API_KEY\""
    );
}

#[test]
fn curl_with_body() {
    let r = requests::create_firewall_rule("g1", &sample_rule());
    let body = "{\n  \"ip_type\": \"v4\"\n}";
    assert_eq!(
        r.to_curl("http://localhost:8080", body),
        "curl \"http://localhost:8080/v2/firewalls/g1/rules\" \\\n  -X POST \\\n  -H \"Authorization: Bearer $VULTR_API_KEY\" \\\n  -H \"Content-Type: application/json\" \\\n  --data '{\n  \"ip_type\": \"v4\"\n}'"
    );
}

#[test]
fn client_base_url_loses_trailing_slashes() {
    let c = VultrClient::with_base_url("key".to_string(), "http://localhost:8080///".to_string()).unwrap();
    assert_eq!(c.base_url(), "http://localhost:8080");
    assert_eq!(c.api_key(), "key");
    let c = VultrClient::new("key".to_string()).unwrap();
    assert_eq!(c.base_url(), VultrClient::DEFAULT_BASE_URL);
    assert_eq!(c.base_url(), "https://api.vultr.com");
}

#[test]
fn only_2xx_is_success() {
    assert!(is_success_status(200));
    assert!(is_success_status(204));
    assert!(is_success_status(299));
    assert!(!is_success_status(199));
    assert!(!is_success_status(300));
    assert!(!is_success_status(404));
}

#[test]
fn error_messages() {
    let e = UpdaterError::Api { status: 401, message: "bad key".to_string() };
    assert_eq!(e.message(), "Vultr API returned an error (HTTP 401): bad key");
    let e = UpdaterError::IpDetect("no route".to_string());
    assert_eq!(e.message(), "could not determine public IP address: no route");
}

#[test]
fn type_and_protocol_names() {
    assert_eq!(IpType::V4.to_string(), "v4");
    assert_eq!(IpType::V6.to_string(), "v6");
    assert_eq!(Protocol::Tcp.to_string(), "tcp");
    assert_eq!(Protocol::Udp.to_string(), "udp");
    assert_eq!(Protocol::Icmp.to_string(), "icmp");
    assert_eq!(Protocol::Gre.to_string(), "gre");
    assert_eq!(Protocol::Esp.to_string(), "esp");
}

#[test]
fn network_and_decoding_error_messages_keep_their_prefix() {
    let http = reqwest::blocking::Client::new().get("not a url").send().unwrap_err();
    let e = UpdaterError::Http(http);
    assert!(e.message().starts_with("network request failed: "));
    let json = serde_json::from_str::<u8>("x").unwrap_err();
    let e = UpdaterError::Json(json);
    assert!(e.message().starts_with("failed to parse Vultr response: "));
}
