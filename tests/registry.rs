use udp_world::network::{Client, Server, DEFAULT_TIMEOUT_MS};

#[test]
fn unseen_addresses_get_new_sessions() {
    let mut server = Server::new("127.0.0.1:5000");
    assert_eq!(server.timeout_duration_ms, DEFAULT_TIMEOUT_MS);
    let a = server.create_client("10.0.0.1:1".to_string(), 0);
    let b = server.create_client("10.0.0.2:1".to_string(), 0);
    assert_eq!((a.id, b.id), (1, 2));
    assert_eq!(server.get_client_count(), 2);
    assert_eq!(server.check_for_addr("10.0.0.2:1").unwrap().id, 2);
    assert!(server.check_for_addr("10.0.0.3:1").is_none());
}

#[test]
fn idle_session_is_evicted_after_the_timeout() {
    let mut server = Server::new("127.0.0.1:5000");
    server.create_client("a".to_string(), 1000);
    server.create_client("b".to_string(), 3000);
    assert_eq!(server.check_clients_for_timeout(6000), Vec::<u64>::new());
    assert_eq!(server.check_clients_for_timeout(6001), vec![1]);
    assert_eq!(server.get_client_count(), 1);
    assert!(server.check_for_addr("a").is_none());
    let again = server.create_client("a".to_string(), 6002);
    assert_eq!(again.id, 3);
}

#[test]
fn refreshed_session_is_kept() {
    let mut server = Server::new("s");
    server.create_client("a".to_string(), 0);
    assert!(server.reset_client_timeout(1, 4000));
    assert_eq!(server.check_clients_for_timeout(8000), Vec::<u64>::new());
    assert_eq!(server.get_client(1).unwrap().0.last_packet_time, 4000);
    assert!(!server.reset_client_timeout(9, 4000));
}

#[test]
fn clock_going_back_evicts_nothing() {
    let mut server = Server::new("s");
    server.create_client("a".to_string(), 9000);
    assert_eq!(server.check_clients_for_timeout(10), Vec::<u64>::new());
}

#[test]
fn remove_and_lookup() {
    let mut server = Server::new("s");
    server.create_client("a".to_string(), 0);
    server.create_client("b".to_string(), 0);
    assert!(server.remove_client(1));
    assert!(!server.remove_client(1));
    assert!(server.get_client(1).is_none());
    let (c, i) = server.get_client(2).unwrap();
    assert_eq!((c.addr.as_str(), i), ("b", 0));
    assert!(!server.client_logged_in(2));
    assert!(!server.client_logged_in(7));
}

#[test]
fn send_targets() {
    let mut server = Server::new("s");
    server.create_client("a".to_string(), 0);
    server.create_client("b".to_string(), 0);
    assert_eq!(server.client_address(2), Some("b".to_string()));
    assert_eq!(server.client_address(3), None);
    assert_eq!(server.broadcast_addresses(), vec!["a".to_string(), "b".to_string()]);
    assert_eq!(server.generate_client_id(), 3);
}

#[test]
fn client_starts_unbound() {
    let c = Client::new(4, "x".to_string(), 77);
    assert_eq!((c.id, c.last_packet_time, c.player_id), (4, 77, None));
}

#[test]
fn bindings_from_the_world_are_recorded() {
    let mut server = Server::new("s");
    server.create_client("a".to_string(), 0);
    server.create_client("b".to_string(), 0);
    server.record_bindings(&vec![(2, 7), (9, 8)]);
    assert!(!server.client_logged_in(1));
    assert!(server.client_logged_in(2));
    assert_eq!(server.get_client(2).unwrap().0.player_id, Some(7));
    server.record_bindings(&Vec::new());
    assert!(!server.client_logged_in(2));
}
