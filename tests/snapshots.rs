use std::sync::Arc;

use mc_status::resolve::{IpAddress, SocketCandidate};
use mc_status::service::{
    build_statuses, server_status, to_server, ApiServer, MinecraftServerInfo, MinecraftServerStatus, Ordering,
    ServerConfig, Service, Snapshots, API,
};
use mc_status::status::{PlayersInfo, StatusResponse, VersionInfo};

fn config(ip: &str, name: &str, port: Option<u16>) -> ServerConfig {
    ServerConfig {
        ip: ip.to_string(),
        port,
        icon: format!("{name}_icon"),
        name: name.to_string(),
        description: format!("{name} server"),
    }
}

fn info(host: &str, port: u16, online: i32, max: i32) -> MinecraftServerInfo {
    let status = StatusResponse {
        version: VersionInfo { name: "1.20.1".to_string(), protocol: 763 },
        players: PlayersInfo { max, online },
        motd: "motd".to_string(),
    };
    let resolved = SocketCandidate { ip: IpAddress::V4(0xc0000201), port };
    MinecraftServerInfo::from_status(host, resolved, 12, 34, status)
}

fn names(list: &[MinecraftServerStatus]) -> Vec<String> {
    list.iter().map(|s| s.name.clone()).collect()
}

#[test]
fn probe_result_takes_the_winning_port() {
    let i = info("play.example.com", 25570, 3, 10);
    assert_eq!(i.port_effective, 25570);
    assert_eq!(i.host, "play.example.com");
    assert_eq!((i.connect_ms, i.rtt_ms), (12, 34));
    assert_eq!((i.players_online, i.players_max), (3, 10));
    assert_eq!(i.version_name, "1.20.1");
    assert_eq!(i.version_protocol, 763);
    assert_eq!(i.motd, "motd");
}

#[test]
fn failed_probe_is_offline() {
    let cfg = config("down.example", "down", Some(30000));
    let st = server_status(&cfg, &None);
    assert!(!st.is_online);
    assert_eq!(st.players_online, 0);
    assert_eq!(st.players_max, 0);
    assert_eq!(st.port, 25565);
    assert_eq!(st.version_name, "");
    assert_eq!(st.ip, "down.example");
    assert_eq!(st.name, "down");
    assert_eq!(st.icon, "down_icon");
    assert_eq!(st.description, "down server");
}

#[test]
fn successful_probe_is_online() {
    let cfg = config("up.example", "up", None);
    let st = server_status(&cfg, &Some(info("up.example", 25570, 5, 20)));
    assert!(st.is_online);
    assert_eq!((st.port, st.players_online, st.players_max), (25570, 5, 20));
    assert_eq!(st.version_name, "1.20.1");
    let sv = to_server(&st);
    assert_eq!((sv.port, sv.players_online, sv.players_max), (25570, 5, 20));
    assert_eq!((sv.ip.as_str(), sv.name.as_str(), sv.icon.as_str()), ("up.example", "up", "up_icon"));
}

#[test]
fn snapshots_are_sorted_stably_and_reversed() {
    let servers = vec![
        config("a", "a", None),
        config("b", "b", None),
        config("c", "c", None),
        config("d", "d", None),
        config("e", "e", None),
    ];
    let outcomes = vec![Some(info("a", 1, 5, 9)), None, Some(info("c", 1, 2, 9)), Some(info("d", 1, 5, 9)), Some(info("e", 1, 0, 9))];
    let statuses = build_statuses(&servers, &outcomes);
    let snaps = Snapshots::from_statuses(&statuses);
    assert_eq!(names(snaps.ascending()), vec!["b", "e", "c", "a", "d"]);
    assert_eq!(names(snaps.descending()), vec!["d", "a", "c", "e", "b"]);
    let mut rev = names(snaps.ascending());
    rev.reverse();
    assert_eq!(names(snaps.descending()), rev);
}

#[test]
fn ordering_endpoint_contract() {
    let servers = vec![config("b.example", "B", None), config("a.example", "A", None)];
    let outcomes = vec![Some(info("b.example", 25565, 3, 10)), Some(info("a.example", 25565, 12, 20))];
    let service = Arc::new(Service::new());
    let api = ApiServer::new(service.clone());
    assert!(api.get_server_list(Ordering::Player).is_empty());
    assert!(api.get_server_list(Ordering::PlayerReverse).is_empty());
    service.publish_cycle(&servers, &outcomes);
    let player: Vec<String> = api.get_server_list(Ordering::Player).into_iter().map(|s| s.name).collect();
    let reverse: Vec<String> = api.get_server_list(Ordering::PlayerReverse).into_iter().map(|s| s.name).collect();
    assert_eq!(player, vec!["A", "B"]);
    assert_eq!(reverse, vec!["B", "A"]);
    let top = &api.get_server_list(Ordering::Player)[0];
    assert_eq!((top.players_online, top.players_max, top.port), (12, 20, 25565));
}

#[test]
fn a_new_cycle_replaces_both_snapshots() {
    let service = Service::new();
    service.publish_cycle(&vec![config("x", "x", None)], &vec![None]);
    let first = service.current();
    assert_eq!(first.ascending().len(), 1);
    let stored = service.publish_cycle(&vec![config("y", "y", None), config("z", "z", None)], &vec![None, None]);
    assert_eq!(names(stored.ascending()), vec!["y", "z"]);
    let second = service.current();
    assert_eq!(first.ascending().len(), 1);
    assert_eq!(names(second.ascending()), vec!["y", "z"]);
    assert_eq!(names(second.descending()), vec!["z", "y"]);
}

#[test]
fn empty_snapshots() {
    let s = Snapshots::empty();
    assert!(s.ascending().is_empty());
    assert!(s.descending().is_empty());
    assert!(s.server_list(Ordering::Player).is_empty());
}
