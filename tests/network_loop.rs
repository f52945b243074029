use udp_world::game::{CommandOutcome, Game, PlayerCommand};
use udp_world::network::Server;
use udp_world::orchestrator::{
    accept_datagram, route_datagram, route_packet, touch_session, CommandQueue, NetworkAction,
    COMMAND_QUEUE_CAPACITY, MAX_DATAGRAM_LEN,
};
use udp_world::packet::{BasePacket, LoginCommand, PlayerCommandPacket};
use udp_world::packets;

fn envelope(kind: &str, data: &str) -> String {
    BasePacket::new(kind.to_string(), data.to_string()).to_string()
}

fn command_envelope(kind: &str, data: &str) -> String {
    envelope("command", &PlayerCommandPacket::new(kind.to_string(), data.to_string()).to_string())
}

#[test]
fn state_request_asks_for_a_reply() {
    let mut server = Server::new("s");
    let text = envelope("state", "");
    match route_datagram(&mut server, "a", text.len(), &text, 5) {
        NetworkAction::SendState(id) => assert_eq!(id, 1),
        _ => panic!("expected a snapshot reply"),
    }
    assert_eq!(server.get_client_count(), 1);
}

#[test]
fn command_is_forwarded_with_its_session() {
    let mut server = Server::new("s");
    let login = LoginCommand { username: "al".to_string(), password: "x".to_string() }.to_string();
    let text = command_envelope("login", &login);
    match route_datagram(&mut server, "a", text.len(), &text, 5) {
        NetworkAction::Forward(c) => {
            assert_eq!(c.client_id, 1);
            assert_eq!(c.command_type, "login");
            assert_eq!(c.command_data, login);
        }
        _ => panic!("expected a forwarded command"),
    }
    let text2 = envelope("state", "");
    match route_datagram(&mut server, "a", text2.len(), &text2, 9) {
        NetworkAction::SendState(id) => assert_eq!(id, 1),
        _ => panic!("expected a snapshot reply"),
    }
    assert_eq!(server.get_client(1).unwrap().0.last_packet_time, 9);
}

#[test]
fn oversized_datagram_is_dropped() {
    let mut server = Server::new("s");
    let text = envelope("state", "");
    assert!(matches!(route_datagram(&mut server, "a", MAX_DATAGRAM_LEN + 1, &text, 0), NetworkAction::Ignore));
    assert_eq!(server.get_client_count(), 0);
    assert!(accept_datagram("a", MAX_DATAGRAM_LEN, &text).is_some());
}

#[test]
fn malformed_datagram_is_dropped_without_a_session() {
    let mut server = Server::new("s");
    for bad in ["", "{", "{\"kind\":\"state\"}", "\u{fffd}\u{fffd}"] {
        assert!(matches!(route_datagram(&mut server, "a", bad.len(), bad, 0), NetworkAction::Ignore));
    }
    assert_eq!(server.get_client_count(), 0);
}

#[test]
fn malformed_command_inside_a_good_envelope_is_dropped() {
    let mut server = Server::new("s");
    let text = envelope("command", "oops");
    assert!(matches!(route_datagram(&mut server, "a", text.len(), &text, 0), NetworkAction::Ignore));
    assert_eq!(server.get_client_count(), 1);
}

#[test]
fn unknown_envelope_kind_is_ignored() {
    let mut server = Server::new("s");
    let p = packets::BasePacket::new("chat".to_string(), "a".to_string(), "hi".to_string());
    assert!(matches!(route_packet(&mut server, &p, 0), NetworkAction::Ignore));
    assert_eq!(server.get_client_count(), 1);
}

#[test]
fn session_ids_exhausted_drops_new_addresses() {
    let mut server = Server::new("s");
    server.client_id_counter = u64::MAX;
    assert_eq!(touch_session(&mut server, "a", 0), None);
    assert_eq!(server.get_client_count(), 0);
}

#[test]
fn evicted_session_logs_its_player_out() {
    let mut server = Server::new("s");
    let mut game = Game::new();
    let login = LoginCommand { username: "alice".to_string(), password: "p1".to_string() }.to_string();
    let text = command_envelope("login", &login);
    let cmd = match route_datagram(&mut server, "addr", text.len(), &text, 0) {
        NetworkAction::Forward(c) => c,
        _ => panic!("expected a forwarded command"),
    };
    assert_eq!(game.handle_command(&cmd), CommandOutcome::LoggedIn(1));
    let evicted = server.check_clients_for_timeout(5001);
    assert_eq!(evicted, vec![1]);
    for id in evicted {
        let logout = PlayerCommand::new(id, "logout".to_string(), String::new());
        assert_eq!(game.handle_command(&logout), CommandOutcome::LoggedOut(1));
    }
    assert!(!game.players[0].active);
    let cmd = match route_datagram(&mut server, "addr", text.len(), &text, 6000) {
        NetworkAction::Forward(c) => c,
        _ => panic!("expected a forwarded command"),
    };
    assert_eq!(cmd.client_id, 2);
    assert_eq!(game.handle_command(&cmd), CommandOutcome::LoggedIn(1));
}

#[test]
fn command_burst_is_bounded() {
    let mut queue = CommandQueue::new(COMMAND_QUEUE_CAPACITY);
    let mut accepted = 0usize;
    for k in 0..(COMMAND_QUEUE_CAPACITY * 4) {
        if queue.offer(PlayerCommand::new(k as u64, "logout".to_string(), String::new())) {
            accepted += 1;
        }
        assert!(queue.len() <= COMMAND_QUEUE_CAPACITY);
    }
    assert_eq!(accepted, COMMAND_QUEUE_CAPACITY);
    let drained = queue.drain();
    assert_eq!(drained.len(), COMMAND_QUEUE_CAPACITY);
    assert_eq!(drained[0].client_id, 0);
    assert_eq!(drained[COMMAND_QUEUE_CAPACITY - 1].client_id, COMMAND_QUEUE_CAPACITY as u64 - 1);
    assert_eq!(queue.len(), 0);
    assert!(queue.offer(PlayerCommand::new(0, "logout".to_string(), String::new())));
}
