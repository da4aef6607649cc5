use mc_status::status::{description_to_text, extract_text, status_from_json, JsonValue};
use mc_status::varint::ProtocolError;

fn s(t: &str) -> JsonValue {
    JsonValue::Str(t.to_string())
}

fn obj(members: Vec<(&str, JsonValue)>) -> JsonValue {
    JsonValue::Object(members.into_iter().map(|(k, v)| (k.to_string(), v)).collect())
}

fn reply(description: JsonValue) -> JsonValue {
    obj(vec![
        ("version", obj(vec![("name", s("1.20.1")), ("protocol", JsonValue::Int(763))])),
        ("players", obj(vec![("max", JsonValue::Int(100)), ("online", JsonValue::Int(7))])),
        ("description", description),
    ])
}

#[test]
fn chat_component_motd() {
    let desc = obj(vec![("text", s("Hello, ")), ("extra", JsonValue::Array(vec![obj(vec![("text", s("World"))])]))]);
    let status = status_from_json(&reply(desc)).unwrap();
    assert_eq!(status.motd, "Hello, World");
    assert_eq!(status.players.online, 7);
    assert_eq!(status.players.max, 100);
    assert_eq!(status.version.name, "1.20.1");
    assert_eq!(status.version.protocol, 763);
}

#[test]
fn bare_string_description_is_kept() {
    assert_eq!(description_to_text(&s("A Minecraft Server")), "A Minecraft Server");
    let status = status_from_json(&reply(s("§aGreen"))).unwrap();
    assert_eq!(status.motd, "§aGreen");
}

#[test]
fn flattening_is_preorder() {
    let tree = obj(vec![
        ("extra", JsonValue::Array(vec![
            obj(vec![("text", s("b")), ("extra", JsonValue::Array(vec![s("c"), obj(vec![("text", s("d"))])]))]),
            JsonValue::Int(5),
            s("e"),
        ])),
        ("bold", JsonValue::Bool(true)),
        ("text", s("a")),
    ]);
    assert_eq!(extract_text(&tree), "abcde");
    assert_eq!(extract_text(&JsonValue::Array(vec![s("x"), JsonValue::Null, s("y")])), "xy");
    assert_eq!(extract_text(&JsonValue::Null), "");
    assert_eq!(extract_text(&JsonValue::Int(3)), "");
    assert_eq!(extract_text(&obj(vec![("text", JsonValue::Int(1)), ("extra", s("no"))])), "");
}

#[test]
fn malformed_replies_are_bad_json() {
    let missing_desc = obj(vec![
        ("version", obj(vec![("name", s("1.20.1")), ("protocol", JsonValue::Int(763))])),
        ("players", obj(vec![("max", JsonValue::Int(100)), ("online", JsonValue::Int(7))])),
    ]);
    assert_eq!(status_from_json(&missing_desc).unwrap_err(), ProtocolError::BadJson);
    let too_big = obj(vec![
        ("version", obj(vec![("name", s("x")), ("protocol", JsonValue::Int(1 << 40))])),
        ("players", obj(vec![("max", JsonValue::Int(1)), ("online", JsonValue::Int(0))])),
        ("description", s("")),
    ]);
    assert_eq!(status_from_json(&too_big).unwrap_err(), ProtocolError::BadJson);
    assert_eq!(status_from_json(&s("hi")).unwrap_err(), ProtocolError::BadJson);
}

#[test]
fn player_sample_must_be_well_formed() {
    let with_sample = |sample: JsonValue| {
        obj(vec![
            ("version", obj(vec![("name", s("1.8")), ("protocol", JsonValue::Int(47))])),
            ("players", obj(vec![("max", JsonValue::Int(20)), ("online", JsonValue::Int(1)), ("sample", sample)])),
            ("description", s("d")),
        ])
    };
    let good = JsonValue::Array(vec![obj(vec![("name", s("steve")), ("id", s("0000"))])]);
    assert!(status_from_json(&with_sample(good)).is_ok());
    assert!(status_from_json(&with_sample(JsonValue::Null)).is_ok());
    let bad = JsonValue::Array(vec![obj(vec![("name", s("steve"))])]);
    assert_eq!(status_from_json(&with_sample(bad)).unwrap_err(), ProtocolError::BadJson);
}
