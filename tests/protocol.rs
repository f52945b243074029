use udp_world::packet::{BasePacket, DirectionalPacket, LoginCommand, PlayerCommandPacket};
use udp_world::json::{integer_member, string_member};

#[test]
fn envelope_text_is_a_flat_object() {
    let e = BasePacket::new("state".to_string(), String::new());
    assert_eq!(e.to_string(), "{\"kind\":\"state\",\"data\":\"\"}");
}

#[test]
fn envelope_round_trip() {
    let e = BasePacket::new("command".to_string(), "payload".to_string());
    let back = BasePacket::from_string(&e.to_string()).unwrap();
    assert_eq!(back.packet_type, "command");
    assert_eq!(back.packet_data, "payload");
}

#[test]
fn envelope_round_trip_with_escapes() {
    let data = "{\"a\":\"b\\\\c\"}\n\t";
    let e = BasePacket::new("command".to_string(), data.to_string());
    let text = e.to_string();
    assert_ne!(text.len(), 0);
    let back = BasePacket::from_string(&text).unwrap();
    assert_eq!(back.packet_data, data);
}

#[test]
fn envelope_members_in_any_order_and_spacing() {
    let back = BasePacket::from_string(" { \"data\" : \"x\" , \"kind\" : \"state\" } ").unwrap();
    assert_eq!(back.packet_type, "state");
    assert_eq!(back.packet_data, "x");
}

#[test]
fn malformed_envelopes_are_refused() {
    assert!(BasePacket::from_string("not json").is_none());
    assert!(BasePacket::from_string("").is_none());
    assert!(BasePacket::from_string("{\"kind\":\"state\"}").is_none());
    assert!(BasePacket::from_string("{\"kind\":1,\"data\":\"x\"}").is_none());
    assert!(BasePacket::from_string("[\"state\",\"x\"]").is_none());
}

#[test]
fn command_packet_round_trip() {
    let c = PlayerCommandPacket::new("directional".to_string(), "{\"x\":1,\"y\":0}".to_string());
    let text = c.to_string();
    assert_eq!(text, "{\"command_kind\":\"directional\",\"command_data\":\"{\\\"x\\\":1,\\\"y\\\":0}\"}");
    let back = PlayerCommandPacket::from_string(&text).unwrap();
    assert_eq!(back.command_type, "directional");
    assert_eq!(back.command_data, "{\"x\":1,\"y\":0}");
}

#[test]
fn logout_command_round_trip() {
    let c = PlayerCommandPacket::new("logout".to_string(), String::new());
    let back = PlayerCommandPacket::from_string(&c.to_string()).unwrap();
    assert_eq!(back.command_type, "logout");
    assert_eq!(back.command_data, "");
}

#[test]
fn login_round_trip() {
    let l = LoginCommand { username: "alice".to_string(), password: "p\"1".to_string() };
    let text = l.to_string();
    assert_eq!(text, "{\"username\":\"alice\",\"credential\":\"p\\\"1\"}");
    let back = LoginCommand::from_string(&text).unwrap();
    assert_eq!(back.username, "alice");
    assert_eq!(back.password, "p\"1");
}

#[test]
fn login_without_credential_is_refused() {
    assert!(LoginCommand::from_string("{\"username\":\"alice\"}").is_none());
}

#[test]
fn directional_round_trip() {
    let d = DirectionalPacket { x: -5, y: 12 };
    let text = d.to_string();
    assert_eq!(text, "{\"x\":-5,\"y\":12}");
    assert_eq!(DirectionalPacket::from_string(&text), Some(d));
}

#[test]
fn directional_extremes_round_trip() {
    let d = DirectionalPacket { x: i64::MIN, y: i64::MAX };
    assert_eq!(d.to_string(), "{\"x\":-9223372036854775808,\"y\":9223372036854775807}");
    assert_eq!(DirectionalPacket::from_string(&d.to_string()), Some(d));
}

#[test]
fn directional_with_fraction_is_refused() {
    assert_eq!(DirectionalPacket::from_string("{\"x\":1.5,\"y\":0}"), None);
    assert_eq!(DirectionalPacket::from_string("{\"x\":1}"), None);
}

#[test]
fn member_lookup_takes_the_named_member() {
    let ms = vec![
        ("a".to_string(), Some("1".to_string())),
        ("b".to_string(), Some("2".to_string())),
        ("n".to_string(), None),
    ];
    assert_eq!(string_member(&ms, "b"), Some("2".to_string()));
    assert_eq!(string_member(&ms, "c"), None);
    assert_eq!(string_member(&ms, "n"), None);
    let ns = vec![("x".to_string(), 3i64), ("y".to_string(), -4i64)];
    assert_eq!(integer_member(&ns, "y"), Some(-4));
    assert_eq!(integer_member(&ns, "z"), None);
}

#[test]
fn envelope_ignores_members_of_other_kinds() {
    let back = BasePacket::from_string("{\"kind\":\"state\",\"data\":\"\",\"seq\":7,\"meta\":{\"a\":[1]}}").unwrap();
    assert_eq!(back.packet_type, "state");
    assert_eq!(back.packet_data, "");
}

#[test]
fn control_characters_are_escaped_as_serde_json_does() {
    let e = BasePacket::new("a\u{1}b\u{8}".to_string(), "\u{7f}".to_string());
    assert_eq!(e.to_string(), "{\"kind\":\"a\\u0001b\\b\",\"data\":\"\u{7f}\"}");
}
