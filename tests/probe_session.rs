use mc_status::packet::Packet;
use mc_status::probe::{ProbeStage, StatusProbe};
use mc_status::resolve::{IpAddress, SocketCandidate};
use mc_status::status::JsonValue;
use mc_status::varint::{write_mc_string, ProtocolError};

fn s(t: &str) -> JsonValue {
    JsonValue::Str(t.to_string())
}

fn obj(members: Vec<(&str, JsonValue)>) -> JsonValue {
    JsonValue::Object(members.into_iter().map(|(k, v)| (k.to_string(), v)).collect())
}

fn winner() -> SocketCandidate {
    SocketCandidate { ip: IpAddress::V4(u32::from_be_bytes([203, 0, 113, 5])), port: 25570 }
}

fn status_doc() -> JsonValue {
    obj(vec![
        ("version", obj(vec![("name", s("1.20.1")), ("protocol", JsonValue::Int(763))])),
        ("players", obj(vec![("max", JsonValue::Int(100)), ("online", JsonValue::Int(7))])),
        ("description", obj(vec![("text", s("Hello, ")), ("extra", JsonValue::Array(vec![obj(vec![("text", s("World"))])]))])),
    ])
}

#[test]
fn full_exchange() {
    let (mut probe, opening) = StatusProbe::begin("play.example.com", winner(), 40);
    let mut expected = vec![22u8, 0x00, 47, 16];
    expected.extend_from_slice(b"play.example.com");
    expected.extend_from_slice(&[0x63, 0xe2, 0x01, 0x01, 0x00]);
    assert_eq!(opening, expected);
    assert_eq!(probe.stage(), ProbeStage::AwaitStatus);

    let mut payload = Vec::new();
    write_mc_string("{}", &mut payload);
    let json = probe.on_status_reply(&Packet { id: 0, payload }).unwrap();
    assert_eq!(json, b"{}".to_vec());
    assert_eq!(probe.raw_reply(), &b"{}".to_vec());
    assert_eq!(probe.stage(), ProbeStage::AwaitDocument);

    let ping = probe.on_status_document(&status_doc()).unwrap();
    assert_eq!(ping, vec![9, 1, 0, 0, 0, 0, 0, 0, 0, 0]);
    assert_eq!(probe.stage(), ProbeStage::AwaitPong);

    let info = probe.on_pong(&Packet { id: 1, payload: vec![0; 8] }, 15).unwrap();
    assert_eq!(probe.stage(), ProbeStage::Done);
    assert_eq!(info.host, "play.example.com");
    assert_eq!(info.port_effective, 25570);
    assert_eq!(info.resolved, winner());
    assert_eq!((info.connect_ms, info.rtt_ms), (40, 15));
    assert_eq!(info.motd, "Hello, World");
    assert_eq!((info.players_online, info.players_max), (7, 100));
    assert_eq!((info.version_name.as_str(), info.version_protocol), ("1.20.1", 763));
}

#[test]
fn wrong_reply_id_fails_the_probe() {
    let (mut probe, _) = StatusProbe::begin("h", winner(), 0);
    assert_eq!(probe.on_status_reply(&Packet { id: 1, payload: vec![0] }), Err(ProtocolError::UnexpectedPacketId));
    assert_eq!(probe.stage(), ProbeStage::Failed);
}

#[test]
fn bad_document_fails_the_probe() {
    let (mut probe, _) = StatusProbe::begin("h", winner(), 0);
    let mut payload = Vec::new();
    write_mc_string("null", &mut payload);
    probe.on_status_reply(&Packet { id: 0, payload }).unwrap();
    assert_eq!(probe.on_status_document(&JsonValue::Null), Err(ProtocolError::BadJson));
    assert_eq!(probe.raw_reply(), &b"null".to_vec());
    assert_eq!(probe.stage(), ProbeStage::Failed);
}

#[test]
fn wrong_pong_fails_the_probe() {
    let (mut probe, _) = StatusProbe::begin("h", winner(), 0);
    probe.on_status_reply(&Packet { id: 0, payload: vec![0] }).unwrap();
    probe.on_status_document(&status_doc()).unwrap();
    assert_eq!(probe.on_pong(&Packet { id: 0, payload: vec![0; 8] }, 1).unwrap_err(), ProtocolError::UnexpectedPacketId);
    assert_eq!(probe.stage(), ProbeStage::Failed);
}
