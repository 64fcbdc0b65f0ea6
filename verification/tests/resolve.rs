use fourth::config::ProxyToUpstream;
use fourth::servers::upstream_address::{
    ResolutionMode, ResolveAction, ResolveEvent, SocketAddress, UpstreamAddress, NEGATIVE_TTL,
    POSITIVE_TTL,
};

const SECOND: u64 = 1_000_000_000;

fn v4(last: u32, port: u16) -> SocketAddress {
    SocketAddress::V4 { ip: 0x0a00_0000 + last, port }
}

fn v6(last: u128, port: u16) -> SocketAddress {
    SocketAddress::V6 { ip: (0x2001_0db8u128 << 96) + last, port, flowinfo: 0, scope_id: 0 }
}

fn mixed() -> Vec<SocketAddress> {
    vec![v6(1, 80), v4(1, 80), v4(2, 80), v6(2, 80), v4(3, 80)]
}

/// Stands for the name service: counts the lookups and answers each with
/// what it was told to.
struct Lookups {
    count: usize,
    answer: Option<Vec<SocketAddress>>,
}

/// Runs one whole call against the cache, as a caller that holds the lock
/// would: reports the arrival, performs the lookup if asked to, and reports
/// its outcome.
fn call(
    cache: &mut UpstreamAddress,
    mode: ResolutionMode,
    lookups: &mut Lookups,
    now: u64,
) -> Result<Vec<SocketAddress>, ()> {
    match cache.resolve(mode, ResolveEvent::Start { now }) {
        ResolveAction::Answer(list) => Ok(list),
        ResolveAction::Lookup(address) => {
            assert_eq!(address, cache.to_string());
            lookups.count += 1;
            let event = match &lookups.answer {
                Some(found) => ResolveEvent::LookupSucceeded { now, found: found.clone() },
                None => ResolveEvent::LookupFailed { now },
            };
            match cache.resolve(mode, event) {
                ResolveAction::Answer(list) => Ok(list),
                ResolveAction::Fail => Err(()),
                ResolveAction::Lookup(_) => panic!("a lookup was asked for twice"),
            }
        }
        ResolveAction::Fail => panic!("a call failed without a lookup"),
    }
}

#[test]
fn ttl_constants() {
    assert_eq!(NEGATIVE_TTL, 3 * SECOND);
    assert_eq!(POSITIVE_TTL, 60 * SECOND);
}

#[test]
fn new_cache_is_empty_and_invalid() {
    let cache = UpstreamAddress::new("host:5432".to_string());
    assert_eq!(cache.to_string(), "host:5432");
    assert!(!cache.is_resolved());
    assert!(!cache.is_valid(0));
    assert!(!cache.is_valid(u64::MAX));
    assert_eq!(cache.time_remaining(0), 0);
}

#[test]
fn first_call_asks_for_a_lookup_of_the_address() {
    let mut cache = UpstreamAddress::new("host:5432".to_string());
    assert_eq!(
        cache.resolve(ResolutionMode::Ipv4AndIpv6, ResolveEvent::Start { now: 17 }),
        ResolveAction::Lookup("host:5432".to_string())
    );
}

#[test]
fn answer_is_cached_for_sixty_seconds() {
    let mut cache = UpstreamAddress::new("host:80".to_string());
    let mut lookups = Lookups { count: 0, answer: Some(mixed()) };
    let start = 5 * SECOND;
    let first = call(&mut cache, ResolutionMode::Ipv4AndIpv6, &mut lookups, start).unwrap();
    assert_eq!(first, mixed());
    assert_eq!(lookups.count, 1);
    assert!(cache.is_resolved());
    assert_eq!(cache.time_remaining(start), 60 * SECOND);

    let second = call(&mut cache, ResolutionMode::Ipv4AndIpv6, &mut lookups, start + 10 * SECOND).unwrap();
    assert_eq!(second, first);
    assert_eq!(lookups.count, 1);
    assert_eq!(cache.time_remaining(start + 10 * SECOND), 50 * SECOND);

    let last = call(&mut cache, ResolutionMode::Ipv4AndIpv6, &mut lookups, start + 60 * SECOND - 1).unwrap();
    assert_eq!(last, first);
    assert_eq!(lookups.count, 1);
    assert_eq!(cache.time_remaining(start + 60 * SECOND - 1), 1);
}

#[test]
fn answer_expires_after_sixty_seconds() {
    let mut cache = UpstreamAddress::new("host:80".to_string());
    let mut lookups = Lookups { count: 0, answer: Some(vec![v4(1, 80)]) };
    call(&mut cache, ResolutionMode::Ipv4, &mut lookups, 0).unwrap();
    assert!(cache.is_valid(60 * SECOND - 1));
    assert!(!cache.is_valid(60 * SECOND));
    assert_eq!(cache.time_remaining(60 * SECOND), 0);
    lookups.answer = Some(vec![v4(2, 80)]);
    let renewed = call(&mut cache, ResolutionMode::Ipv4, &mut lookups, 60 * SECOND).unwrap();
    assert_eq!(renewed, vec![v4(2, 80)]);
    assert_eq!(lookups.count, 2);
    assert!(cache.is_valid(119 * SECOND));
}

#[test]
fn cached_answer_ignores_the_mode_of_a_later_call() {
    let mut cache = UpstreamAddress::new("host:80".to_string());
    let mut lookups = Lookups { count: 0, answer: Some(mixed()) };
    let first = call(&mut cache, ResolutionMode::Ipv4, &mut lookups, 0).unwrap();
    let second = call(&mut cache, ResolutionMode::Ipv6, &mut lookups, SECOND).unwrap();
    assert_eq!(second, first);
    assert_eq!(lookups.count, 1);
}

#[test]
fn failure_is_reported_and_remembered_for_three_seconds() {
    let mut cache = UpstreamAddress::new("nowhere.invalid:80".to_string());
    assert_eq!(
        cache.resolve(ResolutionMode::Ipv4AndIpv6, ResolveEvent::LookupFailed { now: 7 * SECOND }),
        ResolveAction::Fail
    );
    assert!(!cache.is_resolved());
    assert!(cache.is_valid(7 * SECOND));
    assert!(cache.is_valid(8 * SECOND));
    assert!(cache.is_valid(10 * SECOND - 1));
    assert!(!cache.is_valid(10 * SECOND));
    assert!(!cache.is_valid(11 * SECOND));
    assert_eq!(cache.time_remaining(8 * SECOND), 2 * SECOND);
    assert_eq!(cache.time_remaining(11 * SECOND), 0);
}

#[test]
fn retry_after_the_failure_expired_looks_up_again() {
    let mut cache = UpstreamAddress::new("nowhere.invalid:80".to_string());
    let mut lookups = Lookups { count: 0, answer: None };
    assert_eq!(call(&mut cache, ResolutionMode::Ipv4AndIpv6, &mut lookups, 0), Err(()));
    assert_eq!(lookups.count, 1);
    assert_eq!(call(&mut cache, ResolutionMode::Ipv4AndIpv6, &mut lookups, 4 * SECOND), Err(()));
    assert_eq!(lookups.count, 2);
}

#[test]
fn empty_cache_looks_up_again_while_the_failure_is_remembered() {
    let mut cache = UpstreamAddress::new("nowhere.invalid:80".to_string());
    let mut lookups = Lookups { count: 0, answer: None };
    assert_eq!(call(&mut cache, ResolutionMode::Ipv4AndIpv6, &mut lookups, 0), Err(()));
    assert!(cache.is_valid(SECOND));
    assert_eq!(call(&mut cache, ResolutionMode::Ipv4AndIpv6, &mut lookups, SECOND), Err(()));
    assert_eq!(lookups.count, 2);
}

#[test]
fn failure_keeps_the_addresses_and_serves_them_while_remembered() {
    let mut cache = UpstreamAddress::new("host:80".to_string());
    let mut lookups = Lookups { count: 0, answer: Some(vec![v4(1, 80), v4(2, 80)]) };
    let held = call(&mut cache, ResolutionMode::Ipv4AndIpv6, &mut lookups, 0).unwrap();
    lookups.answer = None;
    assert_eq!(call(&mut cache, ResolutionMode::Ipv4AndIpv6, &mut lookups, 61 * SECOND), Err(()));
    assert_eq!(lookups.count, 2);
    assert!(cache.is_resolved());
    assert_eq!(
        call(&mut cache, ResolutionMode::Ipv4AndIpv6, &mut lookups, 62 * SECOND),
        Ok(held)
    );
    assert_eq!(lookups.count, 2);
    assert_eq!(call(&mut cache, ResolutionMode::Ipv4AndIpv6, &mut lookups, 64 * SECOND), Err(()));
    assert_eq!(lookups.count, 3);
}

#[test]
fn modes_filter_a_mixed_answer() {
    let found = mixed();
    assert_eq!(ResolutionMode::Ipv4.filter(&found), vec![v4(1, 80), v4(2, 80), v4(3, 80)]);
    assert_eq!(ResolutionMode::Ipv6.filter(&found), vec![v6(1, 80), v6(2, 80)]);
    assert_eq!(ResolutionMode::Ipv4AndIpv6.filter(&found), found);
    assert_eq!(ResolutionMode::Ipv4.filter(&Vec::new()), Vec::new());
}

#[test]
fn answer_is_filtered_before_it_is_stored() {
    let mut cache = UpstreamAddress::new("host:80".to_string());
    assert_eq!(
        cache.resolve(ResolutionMode::Ipv6, ResolveEvent::LookupSucceeded { now: 0, found: mixed() }),
        ResolveAction::Answer(vec![v6(1, 80), v6(2, 80)])
    );
    assert_eq!(
        cache.resolve(ResolutionMode::Ipv4AndIpv6, ResolveEvent::Start { now: 1 }),
        ResolveAction::Answer(vec![v6(1, 80), v6(2, 80)])
    );
}

#[test]
fn answer_without_a_match_is_an_empty_list_and_no_error() {
    let mut cache = UpstreamAddress::new("host:80".to_string());
    let mut lookups = Lookups { count: 0, answer: Some(vec![v6(1, 80), v6(2, 80)]) };
    assert_eq!(call(&mut cache, ResolutionMode::Ipv4, &mut lookups, 0), Ok(vec![]));
    assert!(!cache.is_resolved());
    assert!(cache.is_valid(59 * SECOND));
    // nothing was kept, so the next call looks up again
    assert_eq!(call(&mut cache, ResolutionMode::Ipv4, &mut lookups, SECOND), Ok(vec![]));
    assert_eq!(lookups.count, 2);
}

#[test]
fn calls_that_follow_the_first_share_its_lookup() {
    let mut cache = UpstreamAddress::new("host:80".to_string());
    let mut lookups = Lookups { count: 0, answer: Some(mixed()) };
    let mut answers = Vec::new();
    for i in 0..16u64 {
        answers.push(call(&mut cache, ResolutionMode::Ipv4, &mut lookups, 100 + i).unwrap());
    }
    assert_eq!(lookups.count, 1);
    for a in &answers {
        assert_eq!(a, &vec![v4(1, 80), v4(2, 80), v4(3, 80)]);
    }
}

#[test]
fn clock_reading_before_the_recorded_one_counts_as_no_time() {
    let mut cache = UpstreamAddress::new("host:80".to_string());
    cache.resolve(ResolutionMode::Ipv4, ResolveEvent::LookupSucceeded { now: 100, found: vec![v4(1, 1)] });
    assert!(cache.is_valid(50));
    assert_eq!(cache.time_remaining(50), POSITIVE_TTL);
    assert_eq!(cache.time_remaining(100), POSITIVE_TTL);
    assert_eq!(cache.time_remaining(101), POSITIVE_TTL - 1);
}

#[test]
fn readings_near_the_end_of_the_range() {
    let mut cache = UpstreamAddress::new("host:80".to_string());
    cache.resolve(ResolutionMode::Ipv4, ResolveEvent::LookupSucceeded { now: u64::MAX - 5, found: vec![v4(1, 1)] });
    assert!(cache.is_valid(u64::MAX));
    assert_eq!(cache.time_remaining(u64::MAX), POSITIVE_TTL - 5);
    cache.resolve(ResolutionMode::Ipv4, ResolveEvent::LookupFailed { now: 0 });
    assert!(!cache.is_valid(u64::MAX));
}

#[test]
fn protocol_tags_and_modes() {
    assert_eq!(ResolutionMode::from("tcp"), ResolutionMode::Ipv4AndIpv6);
    assert_eq!(ResolutionMode::from("tcp4"), ResolutionMode::Ipv4);
    assert_eq!(ResolutionMode::from("tcp6"), ResolutionMode::Ipv6);
    assert!(ResolutionMode::recognizes_tag("tcp"));
    assert!(ResolutionMode::recognizes_tag("tcp4"));
    assert!(ResolutionMode::recognizes_tag("tcp6"));
    assert!(!ResolutionMode::recognizes_tag("TCP"));
    assert!(!ResolutionMode::recognizes_tag("udp"));
    assert!(!ResolutionMode::recognizes_tag(""));
    assert!(!ResolutionMode::recognizes_tag("tcp46"));
    assert_eq!(ResolutionMode::default(), ResolutionMode::Ipv4AndIpv6);
}

#[test]
fn mode_names() {
    assert_eq!(ResolutionMode::Ipv4.to_string(), "IPv4Only");
    assert_eq!(ResolutionMode::Ipv6.to_string(), "IPv6Only");
    assert_eq!(ResolutionMode::Ipv4AndIpv6.to_string(), "IPv4 and IPv6");
}

#[test]
fn address_families() {
    assert!(v4(1, 1).is_ipv4());
    assert!(!v4(1, 1).is_ipv6());
    assert!(v6(1, 1).is_ipv6());
    assert!(!v6(1, 1).is_ipv4());
}

#[test]
fn upstream_resolves_in_the_mode_of_its_protocol() {
    let mut proxy = ProxyToUpstream::new("web".to_string(), "host:80".to_string(), "tcp4".to_string());
    assert_eq!(
        proxy.resolve_addresses(ResolveEvent::Start { now: 0 }),
        ResolveAction::Lookup("host:80".to_string())
    );
    assert_eq!(
        proxy.resolve_addresses(ResolveEvent::LookupSucceeded { now: 1, found: mixed() }),
        ResolveAction::Answer(vec![v4(1, 80), v4(2, 80), v4(3, 80)])
    );
    assert_eq!(
        proxy.resolve_addresses(ResolveEvent::Start { now: 2 }),
        ResolveAction::Answer(vec![v4(1, 80), v4(2, 80), v4(3, 80)])
    );
    assert_eq!((proxy.name.as_str(), proxy.addr.as_str(), proxy.protocol.as_str()), ("web", "host:80", "tcp4"));
}

#[test]
fn copy_of_an_upstream_has_a_cache_of_its_own() {
    let mut proxy = ProxyToUpstream::new("web".to_string(), "host:80".to_string(), "tcp".to_string());
    proxy.resolve_addresses(ResolveEvent::LookupSucceeded { now: 0, found: vec![v4(1, 80)] });
    let mut copy = proxy.clone();
    copy.resolve_addresses(ResolveEvent::LookupSucceeded { now: 1, found: vec![v4(9, 80)] });
    assert_eq!(
        proxy.resolve_addresses(ResolveEvent::Start { now: 2 }),
        ResolveAction::Answer(vec![v4(1, 80)])
    );
    assert_eq!(
        copy.resolve_addresses(ResolveEvent::Start { now: 2 }),
        ResolveAction::Answer(vec![v4(9, 80)])
    );
}

#[test]
fn upstream_with_an_unknown_protocol_is_left_alone() {
    let mut odd = ProxyToUpstream::new("web".to_string(), "host:80".to_string(), "udp".to_string());
    assert_eq!(odd.checked_resolve_addresses(ResolveEvent::LookupSucceeded { now: 0, found: mixed() }), None);
    assert_eq!(odd.checked_resolve_addresses(ResolveEvent::Start { now: 1 }), None);
    assert_eq!((odd.name.as_str(), odd.addr.as_str(), odd.protocol.as_str()), ("web", "host:80", "udp"));

    let mut known = ProxyToUpstream::new("web".to_string(), "host:80".to_string(), "tcp6".to_string());
    assert_eq!(
        known.checked_resolve_addresses(ResolveEvent::LookupSucceeded { now: 0, found: mixed() }),
        Some(ResolveAction::Answer(vec![v6(1, 80), v6(2, 80)]))
    );
    assert_eq!(
        known.checked_resolve_addresses(ResolveEvent::LookupFailed { now: 1 }),
        Some(ResolveAction::Fail)
    );
}

#[test]
fn upstream_hands_out_what_it_was_built_from() {
    let proxy = ProxyToUpstream::new("web".to_string(), "host:80".to_string(), "tcp4".to_string());
    assert_eq!(proxy.name(), "web");
    assert_eq!(proxy.addr(), "host:80");
    assert_eq!(proxy.protocol(), "tcp4");
    assert_eq!(proxy.name(), &proxy.name);
    assert_eq!(proxy.addr(), &proxy.addr);
    assert_eq!(proxy.protocol(), &proxy.protocol);
}

#[test]
fn upstream_tells_how_long_its_cache_stays_valid() {
    let mut proxy = ProxyToUpstream::new("web".to_string(), "host:80".to_string(), "tcp".to_string());
    assert_eq!(proxy.time_remaining(0), 0);
    proxy.resolve_addresses(ResolveEvent::LookupSucceeded { now: SECOND, found: vec![v4(1, 80)] });
    assert_eq!(proxy.time_remaining(11 * SECOND), 50 * SECOND);
    proxy.resolve_addresses(ResolveEvent::LookupFailed { now: 100 * SECOND });
    assert_eq!(proxy.time_remaining(101 * SECOND), 2 * SECOND);
    assert_eq!(proxy.time_remaining(103 * SECOND), 0);
}
