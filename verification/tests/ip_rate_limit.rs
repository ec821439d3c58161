use bff::config::{AuthRateLimitConfig, IpRateLimitBucket};
use bff::middleware::ip_rate_limit::{
    bucket_key, bucket_lock_key, client_ip, limiter_active, matched_prefix, parse_xff, xff_entries,
};
use bff::middleware::ip_whitelist::{IpAddress, IpNetwork, IpWhitelist};

fn v4(a: u8, b: u8, c: u8, d: u8) -> IpAddress {
    IpAddress::V4(u32::from_be_bytes([a, b, c, d]))
}

fn client(xff: Option<&str>, peer: IpAddress, trusted: usize) -> Option<IpAddress> {
    let ips = xff.and_then(parse_xff);
    client_ip(ips.as_ref(), Some(peer), trusted)
}

#[test]
fn trusted_zero_ignores_xff() {
    assert_eq!(client(Some("1.2.3.4, 10.0.0.5"), v4(127, 0, 0, 1), 0), Some(v4(127, 0, 0, 1)));
}

#[test]
fn trusted_one_uses_left_of_rightmost() {
    assert_eq!(client(Some("1.2.3.4, 10.0.0.5"), v4(127, 0, 0, 1), 1), Some(v4(1, 2, 3, 4)));
}

#[test]
fn trusted_one_insufficient_entries_falls_back() {
    assert_eq!(client(Some("1.2.3.4"), v4(127, 0, 0, 1), 1), Some(v4(127, 0, 0, 1)));
}

#[test]
fn trusted_one_multiple_hops() {
    assert_eq!(client(Some("1.2.3.4, 10.0.0.6, 10.0.0.5"), v4(127, 0, 0, 1), 1), Some(v4(10, 0, 0, 6)));
}

#[test]
fn missing_xff_falls_back_to_peer() {
    assert_eq!(client(None, v4(127, 0, 0, 1), 2), Some(v4(127, 0, 0, 1)));
}

#[test]
fn forwarded_header_entries() {
    assert_eq!(xff_entries(" a , b,c "), vec!["a".to_string(), "b".to_string(), "c".to_string()]);
    assert_eq!(parse_xff("junk, 1.2.3.4 ,::1"), Some(vec![v4(1, 2, 3, 4), IpAddress::V6(1)]));
    assert_eq!(parse_xff("junk, also junk"), None);
    assert_eq!(parse_xff(""), None);
}

#[test]
fn limiter_and_buckets() {
    let mut rl = AuthRateLimitConfig {
        enabled: true,
        trusted_proxies: 0,
        per_ip: IpRateLimitBucket { per_second: 1, burst_size: 5 },
        paths: vec!["/login".into(), "/login/admin".into()],
        log_over_limit: true,
    };
    assert!(limiter_active(&rl));
    assert_eq!(matched_prefix(&rl.paths, "/login/admin/x"), Some(1));
    assert_eq!(matched_prefix(&rl.paths, "/login?x"), Some(0));
    assert_eq!(matched_prefix(&rl.paths, "/logout"), None);
    rl.per_ip.burst_size = 0;
    assert!(!limiter_active(&rl));
    assert_eq!(bucket_key("/login", "1.2.3.4"), "bff:iprl:/login:1.2.3.4");
    assert_eq!(bucket_lock_key("/login", "1.2.3.4"), "bff:iprl:lock:/login:1.2.3.4");
}

#[test]
fn whitelist_parses_cidrs_and_addresses() {
    let w = IpWhitelist::parse(&vec!["127.0.0.1".into(), "10.0.0.0/8".into(), "::1".into()]).unwrap();
    assert!(w.allows(v4(127, 0, 0, 1)));
    assert!(w.allows(v4(10, 200, 3, 4)));
    assert!(!w.allows(v4(11, 0, 0, 1)));
    assert!(w.allows(IpAddress::V6(1)));
    assert!(!w.allows(IpAddress::V6(2)));
    assert_eq!(w.refusal(Some(v4(10, 1, 1, 1))), None);
    assert_eq!(w.refusal(Some(v4(8, 8, 8, 8))), Some("Forbidden: IP 不在白名单"));
    assert_eq!(w.refusal(None), Some("Forbidden: 无法确定来源 IP"));
}

#[test]
fn whitelist_refuses_bad_entries() {
    assert_eq!(IpWhitelist::parse(&vec!["10.0.0.0/33".into()]).unwrap_err(), "非法 CIDR: 10.0.0.0/33");
    assert_eq!(IpWhitelist::parse(&vec!["1.2.3.4".into(), "localhost".into()]).unwrap_err(), "非法 IP: localhost");
    assert!(!IpWhitelist::parse(&vec![]).unwrap().allows(v4(127, 0, 0, 1)));
}

#[test]
fn networks_hold_their_prefix() {
    let n = IpNetwork::V4 { addr: u32::from_be_bytes([192, 168, 1, 77]), prefix: 24 };
    assert!(n.contains(v4(192, 168, 1, 5)));
    assert!(!n.contains(v4(192, 168, 2, 5)));
    assert!(!n.contains(IpAddress::V6(5)));
    let all = IpNetwork::V6 { addr: 0, prefix: 0 };
    assert!(all.contains(IpAddress::V6(u128::MAX)));
    assert_eq!(IpNetwork::host(v4(1, 2, 3, 4)), IpNetwork::V4 { addr: u32::from_be_bytes([1, 2, 3, 4]), prefix: 32 });
    assert!(IpWhitelist::new(vec![IpNetwork::V4 { addr: 0, prefix: 40 }]).is_none());
}
