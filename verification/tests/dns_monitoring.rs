use dneyes::commands::dns::{resolution_event, resolution_jobs};
use dneyes::dns::dns_list_client::{index_by_address, Client};
use dneyes::dns::dns_server::{plan_lookup, DnsServer, ResolvedHost};
use dneyes::errors::DneyesError;
use dneyes::telemetry::models::DnsResolutionEvent;
use dneyes::utils::ip_addr::IpAddress;
use dneyes::utils::time_utils::{TimeSpan, Timestamp};

fn at(secs: i64) -> Timestamp {
    Timestamp { secs, nanos: 0 }
}

fn server(ip: IpAddress, name: &str, country: &str) -> DnsServer {
    let mut s = DnsServer::from_address(ip, at(1), at(2));
    s.name = name.to_string();
    s.country_id = country.to_string();
    s
}

#[test]
fn server_known_by_address_only() {
    let s = DnsServer::from_address(IpAddress::V4([8, 8, 8, 8]), at(10), at(20));
    assert_eq!(s.ip, IpAddress::V4([8, 8, 8, 8]));
    assert_eq!(s.name, "");
    assert_eq!(s.country_id, "us");
    assert_eq!(s.city, "");
    assert!(!s.dnssec);
    assert_eq!(f32::from_bits(s.reliability_bits), 0.5);
    assert_eq!(s.checked_at, at(10));
    assert_eq!(s.created_at, at(20));
    assert_eq!(s.result_name(), None);
}

#[test]
fn lookup_plan_for_a_name() {
    let s = DnsServer::from_address(IpAddress::V4([8, 8, 8, 8]), at(0), at(0));
    let plan = s.prepare_lookup("google.com".to_string(), None).ok().unwrap();
    assert_eq!(plan.server, IpAddress::V4([8, 8, 8, 8]));
    assert_eq!(plan.port, 53);
    assert_eq!(plan.timeout_secs, 5);
    assert_eq!(plan.attempts, 1);
    assert_eq!(plan.qname, b"\x06google\x03com\x00".to_vec());
    assert_eq!(plan.fqdn, "google.com");
    let plan = s.prepare_lookup("example.org.".to_string(), Some(2)).ok().unwrap();
    assert_eq!(plan.timeout_secs, 2);
    assert_eq!(plan.qname, b"\x07example\x03org\x00".to_vec());
}

#[test]
fn refused_names_are_dns_errors() {
    let s = DnsServer::from_address(IpAddress::V4([1, 1, 1, 1]), at(0), at(0));
    match s.prepare_lookup("a..b".to_string(), None) {
        Err(DneyesError::Dns(m)) => assert!(!m.is_empty()),
        _ => panic!("expected a DNS error"),
    }
    match plan_lookup(&s, "x".to_string(), Err("bad name".to_string()), None) {
        Err(DneyesError::Dns(m)) => assert_eq!(m, "bad name"),
        _ => panic!("expected a DNS error"),
    }
}

#[test]
fn resolved_host_keeps_last_canonical_address() {
    let s = server(IpAddress::V4([9, 9, 9, 9]), "Quad9", "ch");
    let found = vec![
        IpAddress::V4([1, 2, 3, 4]),
        IpAddress::V6([0, 0, 0, 0, 0, 0xffff, 0x0506, 0x0708]),
    ];
    let d = TimeSpan::new(0, 12_345_678).unwrap();
    let h = ResolvedHost::create("example.com".to_string(), &s, Ok(found), d, at(100));
    assert_eq!(h.ip, Some(IpAddress::V4([5, 6, 7, 8])));
    assert_eq!(h.dns_server_name, Some("Quad9".to_string()));
    assert_eq!(h.error, None);
    let e: DnsResolutionEvent = h.into_event();
    assert_eq!(e.fqdn, "example.com");
    assert_eq!(e.dns_server_ip, "9.9.9.9");
    assert_eq!(e.dns_server_country, "ch");
    assert_eq!(e.resolved_ip, Some("5.6.7.8".to_string()));
    assert!(e.success);
    assert_eq!(e.duration_ms, 12);
    assert_eq!(e.finished_at, at(100));
}

#[test]
fn lookup_without_addresses_or_with_failure_is_no_success() {
    let s = server(IpAddress::V6([0x2001, 0x4860, 0x4860, 0, 0, 0, 0, 0x8888]), "", "us");
    let d = TimeSpan::microseconds(2_500);
    let empty = ResolvedHost::create("a.test".to_string(), &s, Ok(vec![]), TimeSpan::microseconds(2_500), at(5));
    let e = empty.into_event();
    assert_eq!(e.dns_server_ip, "2001:4860:4860::8888");
    assert_eq!(e.dns_server_name, None);
    assert_eq!(e.resolved_ip, None);
    assert!(!e.success);
    assert_eq!(e.error, None);
    let failed = ResolvedHost::create("a.test".to_string(), &s, Err("timed out".to_string()), d, at(6));
    assert_eq!(failed.ip, None);
    let e = failed.into_event();
    assert!(!e.success);
    assert_eq!(e.error, Some("timed out".to_string()));
    assert_eq!(e.duration_ms, 2);
}

#[test]
fn event_success_requires_address_and_no_error() {
    let ok = DnsResolutionEvent::from_parts(
        "a".into(), "1.1.1.1".into(), None, "de".into(), Some("2.2.2.2".into()), 3, at(0), None,
    );
    assert!(ok.success);
    let no_ip = DnsResolutionEvent::from_parts(
        "a".into(), "1.1.1.1".into(), None, "de".into(), None, 3, at(0), None,
    );
    assert!(!no_ip.success);
    let with_error = DnsResolutionEvent::from_parts(
        "a".into(), "1.1.1.1".into(), None, "de".into(), Some("2.2.2.2".into()), 3, at(0),
        Some("late".into()),
    );
    assert!(!with_error.success);
}

#[test]
fn failed_task_becomes_failed_event() {
    let s = server(IpAddress::V4([8, 8, 4, 4]), "Google", "us");
    let e = resolution_event(
        "example.net".to_string(),
        &s,
        Err(DneyesError::Dns("invalid label".to_string())),
        at(77),
    );
    assert_eq!(e.fqdn, "example.net");
    assert_eq!(e.dns_server_ip, "8.8.4.4");
    assert_eq!(e.dns_server_name, Some("Google".to_string()));
    assert_eq!(e.resolved_ip, None);
    assert!(!e.success);
    assert_eq!(e.duration_ms, 0);
    assert_eq!(e.finished_at, at(77));
    assert_eq!(e.error, Some("dns error: invalid label".to_string()));
    let h = ResolvedHost::create(
        "example.net".to_string(),
        &s,
        Ok(vec![IpAddress::V4([3, 3, 3, 3])]),
        TimeSpan::microseconds(1_000),
        at(78),
    );
    let e = resolution_event("example.net".to_string(), &s, Ok(h), at(79));
    assert!(e.success);
    assert_eq!(e.finished_at, at(78));
}

#[test]
fn every_site_against_every_resolver() {
    let jobs = resolution_jobs(2, 3);
    assert_eq!(jobs, vec![(0, 0), (0, 1), (0, 2), (1, 0), (1, 1), (1, 2)]);
    assert!(resolution_jobs(0, 5).is_empty());
    assert!(resolution_jobs(4, 0).is_empty());
}

#[test]
fn server_list_url_per_country() {
    let c = Client::new("https://public-dns.info/nameserver");
    assert_eq!(c.server_list_url("de"), "https://public-dns.info/nameserver/de.json");
}

#[test]
fn catalogue_keeps_last_resolver_per_address() {
    let a = IpAddress::V4([1, 1, 1, 1]);
    let b = IpAddress::V4([2, 2, 2, 2]);
    let list = vec![
        server(a, "first a", "de"),
        server(b, "only b", "de"),
        server(a, "second a", "de"),
    ];
    let indexed = index_by_address(&list);
    assert_eq!(indexed.len(), 2);
    assert_eq!(indexed[0].0, "2.2.2.2");
    assert_eq!(indexed[0].1.ip, b);
    assert_eq!(indexed[0].1.name, "only b");
    assert_eq!(indexed[1].0, "1.1.1.1");
    assert_eq!(indexed[1].1.ip, a);
    assert_eq!(indexed[1].1.name, "second a");
    assert!(index_by_address(&vec![]).is_empty());
}
