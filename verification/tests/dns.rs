use availcheck::dns::{
    lookup_result, DnsAction, DnsResolverServerState, Exchange, ServiceWrapper,
};
use availcheck::errors::DnsError;
use availcheck::net::{IpAddr, SocketAddr};
use availcheck::time::{Duration, Instant};

fn at(secs: u64) -> Instant {
    Instant { nanos: secs as u128 * 1_000_000_000 }
}

#[test]
fn a_new_server_looks_every_host_up() {
    let state = DnsResolverServerState::new(Duration::from_secs(120));
    assert_eq!(state.take_question("example.com", at(0)), DnsAction::Resolve);
}

#[test]
fn an_address_is_kept_until_the_refresh_time_is_over() {
    let mut state = DnsResolverServerState::new(Duration::from_secs(120));
    let addr = IpAddr::V4(0x7f00_0001);
    let answer = state.take_lookup("example.com".to_string(), Ok(addr), at(10));
    assert_eq!(answer, Ok(addr));
    assert_eq!(state.take_question("example.com", at(10)), DnsAction::Answer(addr));
    assert_eq!(state.take_question("example.com", at(129)), DnsAction::Answer(addr));
    assert_eq!(state.take_question("example.com", at(130)), DnsAction::Resolve);
    assert_eq!(state.take_question("example.org", at(10)), DnsAction::Resolve);
}

#[test]
fn a_later_lookup_replaces_an_address() {
    let mut state = DnsResolverServerState::new(Duration::from_secs(10));
    let first = IpAddr::V4(1);
    let second = IpAddr::V4(2);
    let _ = state.take_lookup("h".to_string(), Ok(first), at(0));
    let _ = state.take_lookup("h".to_string(), Ok(second), at(8));
    assert_eq!(state.take_question("h", at(17)), DnsAction::Answer(second));
}

#[test]
fn a_failed_lookup_keeps_the_known_address() {
    let mut state = DnsResolverServerState::new(Duration::from_secs(10));
    let addr = IpAddr::V4(1);
    let _ = state.take_lookup("h".to_string(), Ok(addr), at(0));
    let answer = state.take_lookup("h".to_string(), Err(DnsError::DnsResolution), at(5));
    assert_eq!(answer, Err(DnsError::DnsResolution));
    assert_eq!(state.take_question("h", at(9)), DnsAction::Answer(addr));
    assert_eq!(state.take_question("h", at(10)), DnsAction::Resolve);
}

#[test]
fn without_a_refresh_time_nothing_is_kept() {
    let mut state = DnsResolverServerState::new(Duration::from_secs(0));
    let _ = state.take_lookup("h".to_string(), Ok(IpAddr::V4(1)), at(0));
    assert_eq!(state.take_question("h", at(0)), DnsAction::Resolve);
}

#[test]
fn the_first_address_of_a_lookup_counts() {
    assert_eq!(lookup_result("h", Some(vec![3, 4])), Ok(IpAddr::V4(3)));
    assert_eq!(lookup_result("h", Some(vec![])), Err(DnsError::NoDNSEntry("h".to_string())));
    assert_eq!(lookup_result("h", None), Err(DnsError::DnsResolution));
}

#[test]
fn questions_and_answers() {
    let service = ServiceWrapper(());
    let ip = IpAddr::V6(1);
    assert_eq!(
        service.answer(Exchange::Answered(Ok(ip))),
        Ok(SocketAddr { ip, port: 0 })
    );
    assert_eq!(
        service.answer(Exchange::Answered(Err(DnsError::DnsResolution))),
        Err(DnsError::DnsResolution)
    );
    assert_eq!(service.answer(Exchange::NotSent), Err(DnsError::SendQuery));
    assert_eq!(service.answer(Exchange::NotAnswered), Err(DnsError::Recv));
}
