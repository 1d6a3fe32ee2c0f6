//! The fetch guard: literal-address hosts are rejected before any network
//! call; ordinary domains pass.

use media_proxy::addr::{check_fetch_status, check_fetch_target, is_ipv4_literal,
    is_ipv6_literal, is_private_like, UrlHost};
use media_proxy::media::MediaError;

fn host_of(url: &str) -> UrlHost {
    match url::Url::parse(url).unwrap().host() {
        Some(url::Host::Domain(d)) => UrlHost::Domain(d.as_bytes().to_vec()),
        Some(url::Host::Ipv4(_)) => UrlHost::Ipv4,
        Some(url::Host::Ipv6(_)) => UrlHost::Ipv6,
        None => UrlHost::Missing,
    }
}

#[test]
fn loopback_and_literal_hosts_are_rejected() {
    assert!(is_private_like(&host_of("https://127.0.0.1/a.png")));
    assert!(is_private_like(&host_of("https://[::1]/a.png")));
    assert!(is_private_like(&host_of("https://8.8.8.8/a.png")));
    assert!(is_private_like(&host_of("https://[2001:db8::1]/a.png")));
    assert!(is_private_like(&UrlHost::Domain(b"127.0.0.1".to_vec())));
    assert!(is_private_like(&UrlHost::Domain(b"::1".to_vec())));
    assert!(is_private_like(&UrlHost::Missing));
}

#[test]
fn domain_hosts_proceed() {
    assert!(!is_private_like(&host_of("https://example.com/a.png")));
    assert!(!is_private_like(&host_of("https://github.com/tunamaguro.png")));
    assert!(!is_private_like(&UrlHost::Domain(b"localhost".to_vec())));
}

#[test]
fn fetch_target_gate_maps_to_address_rejected() {
    let r = check_fetch_target(&UrlHost::Domain(b"10.0.0.1".to_vec()));
    assert!(matches!(r, Err(MediaError::AddressRejected)));
    assert!(check_fetch_target(&UrlHost::Domain(b"example.org".to_vec())).is_ok());
}

#[test]
fn ipv4_literal_grammar() {
    assert!(is_ipv4_literal(b"0.0.0.0"));
    assert!(is_ipv4_literal(b"255.255.255.255"));
    assert!(is_ipv4_literal(b"192.168.1.10"));
    assert!(!is_ipv4_literal(b"256.0.0.1"));
    assert!(!is_ipv4_literal(b"1.2.3"));
    assert!(!is_ipv4_literal(b"1.2.3.4.5"));
    assert!(!is_ipv4_literal(b"01.2.3.4"));
    assert!(!is_ipv4_literal(b"1.2.3.d"));
    assert!(!is_ipv4_literal(b""));
    assert!(!is_ipv4_literal(b"1..2.3"));
}

#[test]
fn ipv6_literal_grammar() {
    assert!(is_ipv6_literal(b"::"));
    assert!(is_ipv6_literal(b"::1"));
    assert!(is_ipv6_literal(b"1:2:3:4:5:6:7:8"));
    assert!(is_ipv6_literal(b"2001:db8::1"));
    assert!(is_ipv6_literal(b"1:2:3:4:5:6:7::"));
    assert!(is_ipv6_literal(b"::ffff:1.2.3.4"));
    assert!(is_ipv6_literal(b"1:2:3:4:5:6:1.2.3.4"));
    assert!(is_ipv6_literal(b"ABCD:ef01::1"));
    assert!(!is_ipv6_literal(b":"));
    assert!(!is_ipv6_literal(b":::"));
    assert!(!is_ipv6_literal(b":1:2:3"));
    assert!(!is_ipv6_literal(b"1:2:3:"));
    assert!(!is_ipv6_literal(b"1:2:3:4:5:6:7:8:9"));
    assert!(!is_ipv6_literal(b"1:2:3:4:5:6:7:8::"));
    assert!(!is_ipv6_literal(b"12345::"));
    assert!(!is_ipv6_literal(b"g::1"));
    assert!(!is_ipv6_literal(b"1::2::3"));
    assert!(!is_ipv6_literal(b"example.com"));
    assert!(!is_ipv6_literal(b""));
}

#[test]
fn guard_agrees_with_std_parser_examples() {
    // the same strings std's address parser accepts or rejects
    let accepted = [
        "127.0.0.1",
        "::1",
        "2001:db8:0:0:0:0:2:1",
        "::ffff:192.0.2.1",
        "fe80::",
    ];
    for s in accepted {
        assert!(
            is_ipv4_literal(s.as_bytes()) || is_ipv6_literal(s.as_bytes()),
            "expected literal: {s}"
        );
    }
    let rejected = ["localhost", "a.b.c.d", "1.2.3.256", "01.1.1.1", "::g"];
    for s in rejected {
        assert!(
            !is_ipv4_literal(s.as_bytes()) && !is_ipv6_literal(s.as_bytes()),
            "expected non-literal: {s}"
        );
    }
}

#[test]
fn only_success_statuses_pass_the_fetch_gate() {
    assert!(check_fetch_status(200).is_ok());
    assert!(check_fetch_status(204).is_ok());
    assert!(check_fetch_status(299).is_ok());
    assert!(matches!(check_fetch_status(199), Err(MediaError::NetworkFailed(_))));
    assert!(matches!(check_fetch_status(301), Err(MediaError::NetworkFailed(_))));
    assert!(matches!(check_fetch_status(404), Err(MediaError::NetworkFailed(_))));
    assert!(matches!(check_fetch_status(500), Err(MediaError::NetworkFailed(_))));
}
