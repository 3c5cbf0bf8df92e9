use fwupdater::error::UpdaterError;
use fwupdater::ip_detect::{detected_from, ipv4_from_fetch, ipv6_from_fetch, restrict_families, DetectedIps};

#[test]
fn ipv4_reply_is_trimmed_and_parsed() {
    let r = ipv4_from_fetch(Ok("  1.2.3.4\n".to_string()));
    assert_eq!(r.ok(), Some(0x01020304));
}

#[test]
fn unparsable_ipv4_reply_is_an_ip_detect_error() {
    match ipv4_from_fetch(Ok(" <html> \n".to_string())) {
        Err(UpdaterError::IpDetect(m)) => {
            assert_eq!(m, "could not parse IPv4 response '<html>': invalid IPv4 address syntax")
        }
        other => panic!("unexpected {other:?}"),
    }
}

#[test]
fn failed_ipv4_fetch_passes_the_error_on() {
    let r = ipv4_from_fetch(Err(UpdaterError::Api { status: 503, message: "down".to_string() }));
    assert!(matches!(r, Err(UpdaterError::Api { status: 503, .. })));
}

#[test]
fn ipv6_absence_is_not_an_error() {
    let r = ipv6_from_fetch(Err(UpdaterError::IpDetect("offline".to_string())));
    assert_eq!(r.ok(), Some(None));
    let r = ipv6_from_fetch(Ok("2001:db8::1\n".to_string()));
    assert_eq!(r.ok(), Some(Some(0x2001_0db8_0000_0000_0000_0000_0000_0001)));
    match ipv6_from_fetch(Ok("1.2.3.4".to_string())) {
        Err(UpdaterError::IpDetect(m)) => {
            assert_eq!(m, "could not parse IPv6 response '1.2.3.4': invalid IPv6 address syntax")
        }
        other => panic!("unexpected {other:?}"),
    }
}

#[test]
fn detection_keeps_what_succeeded() {
    let ips = detected_from(Ok(7), Err(UpdaterError::IpDetect("x".to_string())));
    assert_eq!(ips, DetectedIps { ipv4: Some(7), ipv6: None });
    let ips = detected_from(Err(UpdaterError::IpDetect("x".to_string())), Ok(Some(9)));
    assert_eq!(ips, DetectedIps { ipv4: None, ipv6: Some(9) });
    assert_eq!(DetectedIps::default(), DetectedIps { ipv4: None, ipv6: None });
}

#[test]
fn family_flags_drop_the_other_family() {
    let ips = DetectedIps { ipv4: Some(1), ipv6: Some(2) };
    assert_eq!(restrict_families(ips, false, false), ips);
    assert_eq!(restrict_families(ips, true, false), DetectedIps { ipv4: Some(1), ipv6: None });
    assert_eq!(restrict_families(ips, false, true), DetectedIps { ipv4: None, ipv6: Some(2) });
    assert_eq!(restrict_families(ips, true, true), DetectedIps { ipv4: None, ipv6: None });
}
