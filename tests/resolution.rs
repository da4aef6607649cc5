use mc_status::race::{ConnectFailure, ConnectRace, RaceDecision};
use mc_status::resolve::{
    lowest_priority_targets, srv_query_name, strip_trailing_dot, CandidateSearch, IpAddress, ResolveAction,
    ResolveError, SearchStage, SocketCandidate, SrvRecord,
};

fn v4(a: u8, b: u8, c: u8, d: u8) -> IpAddress {
    IpAddress::V4(u32::from_be_bytes([a, b, c, d]))
}

fn srv(priority: u16, port: u16, target: &str) -> SrvRecord {
    SrvRecord { priority, weight: 0, port, target: target.to_string() }
}

fn lookup_name(a: &ResolveAction) -> String {
    match a {
        ResolveAction::LookupIp(n) => n.clone(),
        other => panic!("expected an address lookup, got {:?}", other),
    }
}

fn finished(a: ResolveAction) -> Result<Vec<SocketCandidate>, ResolveError> {
    match a {
        ResolveAction::Finish(r) => r,
        other => panic!("expected the end, got {:?}", other),
    }
}

#[test]
fn srv_with_fallback_port() {
    let (mut search, action) = CandidateSearch::new("play.example.com", None, false);
    match &action {
        ResolveAction::LookupSrv(n) => assert_eq!(n, "_minecraft._tcp.play.example.com."),
        other => panic!("expected an SRV lookup, got {:?}", other),
    }
    let action = search.on_srv(Some(vec![srv(10, 25570, "mc1.example.com.")]));
    assert_eq!(lookup_name(&action), "mc1.example.com");
    let done = finished(search.on_ips(Some(vec![v4(203, 0, 113, 5)])));
    assert_eq!(done, Ok(vec![SocketCandidate { ip: v4(203, 0, 113, 5), port: 25570 }]));
    assert_eq!(search.stage(), SearchStage::Done);
}

#[test]
fn explicit_port_skips_srv() {
    let (mut search, action) = CandidateSearch::new("play.example.com", Some(12345), false);
    assert_eq!(lookup_name(&action), "play.example.com");
    assert_eq!(search.stage(), SearchStage::Direct);
    let done = finished(search.on_ips(Some(vec![v4(198, 51, 100, 7)])));
    assert_eq!(done, Ok(vec![SocketCandidate { ip: v4(198, 51, 100, 7), port: 12345 }]));
}

#[test]
fn empty_srv_falls_back_to_default_port() {
    let (mut search, _) = CandidateSearch::new("mc.example.org", None, true);
    let action = search.on_srv(Some(vec![]));
    assert_eq!(lookup_name(&action), "mc.example.org");
    let ips = vec![v4(192, 0, 2, 1), IpAddress::V6(1), v4(192, 0, 2, 2)];
    let done = finished(search.on_ips(Some(ips)));
    assert_eq!(
        done,
        Ok(vec![
            SocketCandidate { ip: v4(192, 0, 2, 1), port: 25565 },
            SocketCandidate { ip: v4(192, 0, 2, 2), port: 25565 },
        ])
    );
}

#[test]
fn failed_srv_falls_back_and_keeps_ipv6() {
    let (mut search, _) = CandidateSearch::new("mc.example.org", None, false);
    let action = search.on_srv(None);
    assert_eq!(lookup_name(&action), "mc.example.org");
    let done = finished(search.on_ips(Some(vec![IpAddress::V6(7)])));
    assert_eq!(done, Ok(vec![SocketCandidate { ip: IpAddress::V6(7), port: 25565 }]));
}

#[test]
fn lowest_priority_group_is_tried_whole() {
    let records = vec![srv(20, 1, "c.example."), srv(10, 2, "a.example."), srv(10, 3, "b.example")];
    let targets = lowest_priority_targets(&records);
    assert_eq!(targets, vec![("a.example".to_string(), 2), ("b.example".to_string(), 3)]);

    let (mut search, _) = CandidateSearch::new("h", None, false);
    let a = search.on_srv(Some(records));
    assert_eq!(lookup_name(&a), "a.example");
    let a = search.on_ips(Some(vec![v4(10, 0, 0, 1)]));
    assert_eq!(lookup_name(&a), "b.example");
    let done = finished(search.on_ips(Some(vec![v4(10, 0, 0, 2)])));
    assert_eq!(
        done,
        Ok(vec![SocketCandidate { ip: v4(10, 0, 0, 1), port: 2 }, SocketCandidate { ip: v4(10, 0, 0, 2), port: 3 }])
    );
}

#[test]
fn targets_without_addresses_fall_back() {
    let (mut search, _) = CandidateSearch::new("h.example", None, false);
    search.on_srv(Some(vec![srv(0, 7, "t.example.")]));
    let a = search.on_ips(Some(vec![]));
    assert_eq!(lookup_name(&a), "h.example");
    assert_eq!(search.stage(), SearchStage::Fallback);
    let done = finished(search.on_ips(Some(vec![v4(1, 2, 3, 4)])));
    assert_eq!(done, Ok(vec![SocketCandidate { ip: v4(1, 2, 3, 4), port: 25565 }]));
}

#[test]
fn no_usable_address_is_an_error() {
    let (mut search, _) = CandidateSearch::new("v6.example", Some(25565), true);
    assert_eq!(finished(search.on_ips(Some(vec![IpAddress::V6(1)]))), Err(ResolveError::NoCandidates));
    let (mut search, _) = CandidateSearch::new("gone.example", Some(25565), false);
    assert_eq!(finished(search.on_ips(None)), Err(ResolveError::LookupFailed));
}

#[test]
fn name_helpers() {
    assert_eq!(srv_query_name("a.b"), "_minecraft._tcp.a.b.");
    assert_eq!(strip_trailing_dot("mc1.example.com."), "mc1.example.com");
    assert_eq!(strip_trailing_dot("mc1.example.com"), "mc1.example.com");
    assert_eq!(strip_trailing_dot(""), "");
}

#[test]
fn failed_target_lookup_falls_back_to_host() {
    let (mut search, _) = CandidateSearch::new("play.example.com", None, false);
    let a = search.on_srv(Some(vec![srv(10, 25570, "mc1.example.com.")]));
    assert_eq!(lookup_name(&a), "mc1.example.com");
    let a = search.on_ips(None);
    assert_eq!(lookup_name(&a), "play.example.com");
    assert_eq!(search.stage(), SearchStage::Fallback);
    let done = finished(search.on_ips(Some(vec![v4(198, 51, 100, 9)])));
    assert_eq!(done, Ok(vec![SocketCandidate { ip: v4(198, 51, 100, 9), port: 25565 }]));
}

#[test]
fn failed_target_lookup_moves_to_next_target() {
    let (mut search, _) = CandidateSearch::new("h", None, false);
    search.on_srv(Some(vec![srv(1, 30001, "a.example."), srv(1, 30002, "b.example.")]));
    let a = search.on_ips(None);
    assert_eq!(lookup_name(&a), "b.example");
    let done = finished(search.on_ips(Some(vec![v4(10, 0, 0, 2)])));
    assert_eq!(done, Ok(vec![SocketCandidate { ip: v4(10, 0, 0, 2), port: 30002 }]));
}

#[test]
fn first_success_wins_the_race() {
    let a = SocketCandidate { ip: v4(192, 0, 2, 10), port: 25565 };
    let b = SocketCandidate { ip: v4(192, 0, 2, 11), port: 25565 };
    let mut race = ConnectRace::new(&vec![a, b]);
    assert_eq!(race.attempts(), 2);
    assert_eq!(race.on_outcome(Ok(1)), RaceDecision::Won(b));
    assert_eq!(race.pending_attempts(), 0);
    let mut race = ConnectRace::new(&vec![a, b]);
    assert_eq!(race.on_outcome(Err(ConnectFailure::TimedOut)), RaceDecision::Wait);
    assert_eq!(race.on_outcome(Ok(0)), RaceDecision::Won(a));
}

#[test]
fn all_failures_report_the_last() {
    let c = SocketCandidate { ip: v4(192, 0, 2, 12), port: 25565 };
    let mut race = ConnectRace::new(&vec![c, c, c]);
    assert_eq!(race.on_outcome(Err(ConnectFailure::TimedOut)), RaceDecision::Wait);
    assert_eq!(race.on_outcome(Err(ConnectFailure::Other)), RaceDecision::Wait);
    assert_eq!(race.on_outcome(Err(ConnectFailure::Refused)), RaceDecision::AllFailed(ConnectFailure::Refused));
}
