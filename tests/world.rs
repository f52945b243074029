use udp_world::game::{CommandOutcome, Game, LoginError, Player, PlayerCommand, Vector2};
use udp_world::packet::{DirectionalPacket, LoginCommand};

fn login_data(user: &str, pass: &str) -> String {
    LoginCommand { username: user.to_string(), password: pass.to_string() }.to_string()
}

fn directional_data(x: i64, y: i64) -> String {
    DirectionalPacket { x, y }.to_string()
}

fn login(game: &mut Game, session: u64, user: &str, pass: &str) -> Result<Player, LoginError> {
    game.login_player(session, &login_data(user, pass))
}

fn command(session: u64, kind: &str, data: &str) -> PlayerCommand {
    PlayerCommand::new(session, kind.to_string(), data.to_string())
}

#[test]
fn example_session_reattaches_after_eviction() {
    let mut game = Game::new();
    let p = login(&mut game, 1, "alice", "p1").unwrap();
    assert_eq!(p.id, 1);
    assert_eq!(p.client_id, Some(1));
    assert!(p.active);
    assert_eq!(p.position, Vector2 { x: 0, y: 0 });
    assert_eq!(game.set_player_directional(1, &directional_data(1, 0)), CommandOutcome::DirectionSet);
    game.game_tick();
    assert_eq!(game.players[0].position, Vector2 { x: 1, y: 0 });
    assert_eq!(game.logout_player(1), Some(1));
    assert_eq!(game.players.len(), 1);
    assert!(!game.players[0].active);
    assert_eq!(game.players[0].client_id, None);
    assert_eq!(game.players[0].position, Vector2 { x: 1, y: 0 });
    let again = login(&mut game, 2, "alice", "p1").unwrap();
    assert_eq!(again.id, 1);
    assert_eq!(again.position, Vector2 { x: 1, y: 0 });
    assert_eq!(again.client_id, Some(2));
    assert_eq!(game.players.len(), 1);
    assert_eq!(game.id_counter, 1);
}

#[test]
fn fresh_logins_get_increasing_ids() {
    let mut game = Game::new();
    let names = ["bob", "carol", "dave", "erin"];
    let mut last = 0u64;
    for (k, name) in names.iter().enumerate() {
        let p = login(&mut game, 10 + k as u64, name, "pw").unwrap();
        assert_eq!(p.id, k as u64 + 1);
        assert!(p.id > last);
        last = p.id;
    }
    assert_eq!(game.players.len(), 4);
    assert_eq!(game.get_players_online(), 4);
}

#[test]
fn second_login_of_a_bound_session_is_refused() {
    let mut game = Game::new();
    login(&mut game, 1, "alice", "p1").unwrap();
    assert_eq!(login(&mut game, 1, "bob", "p2").err(), Some(LoginError::DuplicateLogin));
    assert_eq!(game.players.len(), 1);
    assert_eq!(game.id_counter, 1);
}

#[test]
fn wrong_credential_is_refused_without_change() {
    let mut game = Game::new();
    login(&mut game, 1, "alice", "p1").unwrap();
    game.logout_player(1);
    assert_eq!(login(&mut game, 2, "alice", "nope").err(), Some(LoginError::CredentialMismatch));
    assert_eq!(game.players[0].client_id, None);
    assert!(!game.already_logged_in(2));
}

#[test]
fn login_payload_that_cannot_be_read_is_refused() {
    let mut game = Game::new();
    assert_eq!(game.login_player(1, "{\"username\":").err(), Some(LoginError::MalformedPayload));
    assert_eq!(game.players.len(), 0);
    assert_eq!(game.id_counter, 0);
}

#[test]
fn ids_run_out_at_the_largest_counter() {
    let mut game = Game::new();
    game.id_counter = u64::MAX;
    assert_eq!(login(&mut game, 1, "zed", "z").err(), Some(LoginError::IdsExhausted));
    assert_eq!(game.players.len(), 0);
}

#[test]
fn player_at_rest_does_not_stop_the_others() {
    let mut game = Game::new();
    login(&mut game, 1, "still", "a").unwrap();
    login(&mut game, 2, "mover", "b").unwrap();
    game.set_player_directional(2, &directional_data(2, -3));
    for _ in 0..5 {
        game.game_tick();
    }
    assert_eq!(game.players[0].position, Vector2 { x: 0, y: 0 });
    assert_eq!(game.players[1].position, Vector2 { x: 10, y: -15 });
}

#[test]
fn movement_is_scaled_by_speed() {
    let mut game = Game::new();
    login(&mut game, 1, "fast", "f").unwrap();
    game.players[0].stats.speed = 3;
    game.set_player_directional(1, &directional_data(1, 2));
    game.move_players();
    assert_eq!(game.players[0].position, Vector2 { x: 3, y: 6 });
}

#[test]
fn movement_stops_at_the_edge_of_the_grid() {
    let mut game = Game::new();
    login(&mut game, 1, "edge", "e").unwrap();
    game.players[0].position = Vector2 { x: i64::MAX - 1, y: i64::MIN + 1 };
    game.set_player_directional(1, &directional_data(5, -5));
    game.game_tick();
    assert_eq!(game.players[0].position, Vector2 { x: i64::MAX, y: i64::MIN });
}

#[test]
fn new_player_has_default_stats() {
    let p = Player::new(7, "n".to_string(), "p".to_string());
    assert_eq!(p.stats.health, 10);
    assert_eq!(p.stats.speed, 1);
    assert_eq!(p.direction, Vector2::new());
    assert_eq!(p.client_id, None);
}

#[test]
fn commands_are_dispatched_by_kind() {
    let mut game = Game::new();
    assert_eq!(game.handle_command(&command(1, "login", &login_data("al", "x"))), CommandOutcome::LoggedIn(1));
    assert_eq!(game.handle_command(&command(1, "directional", &directional_data(0, 1))), CommandOutcome::DirectionSet);
    assert_eq!(game.players[0].direction, Vector2 { x: 0, y: 1 });
    assert_eq!(game.handle_command(&command(1, "login", &login_data("al", "x"))), CommandOutcome::LoginRejected(LoginError::DuplicateLogin));
    assert_eq!(game.handle_command(&command(1, "dance", "")), CommandOutcome::Unknown);
    assert_eq!(game.handle_command(&command(1, "logout", "")), CommandOutcome::LoggedOut(1));
    assert_eq!(game.handle_command(&command(1, "logout", "")), CommandOutcome::NotLoggedIn);
    assert_eq!(game.handle_command(&command(1, "directional", &directional_data(1, 1))), CommandOutcome::NotLoggedIn);
}

#[test]
fn malformed_payload_leaves_the_world_unchanged() {
    let mut game = Game::new();
    login(&mut game, 1, "al", "x").unwrap();
    game.set_player_directional(1, &directional_data(4, 4));
    assert_eq!(game.handle_command(&command(1, "directional", "{\"x\":\"fast\"}")), CommandOutcome::Malformed);
    assert_eq!(game.handle_command(&command(2, "login", "garbage")), CommandOutcome::Malformed);
    assert_eq!(game.players.len(), 1);
    assert_eq!(game.players[0].direction, Vector2 { x: 4, y: 4 });
    assert_eq!(game.id_counter, 1);
    assert!(!game.already_logged_in(2));
}

#[test]
fn lookups_find_one_player() {
    let mut game = Game::new();
    login(&mut game, 5, "al", "x").unwrap();
    login(&mut game, 6, "bo", "y").unwrap();
    let (p, i) = game.get_player(2).unwrap();
    assert_eq!((p.username.as_str(), i), ("bo", 1));
    let (p, i) = game.get_player_by_client(5).unwrap();
    assert_eq!((p.id, i), (1, 0));
    let (p, _) = game.get_player_by_username("bo").unwrap();
    assert_eq!(p.client_id, Some(6));
    assert!(game.get_player(3).is_none());
    assert!(game.get_player_by_client(7).is_none());
    assert!(game.get_player_by_username("cy").is_none());
}

#[test]
fn run_step_moves_then_applies_every_queued_command() {
    let mut game = Game::new();
    login(&mut game, 1, "al", "x").unwrap();
    game.set_player_directional(1, &directional_data(1, 0));
    let cmds = vec![
        command(1, "directional", &directional_data(0, 5)),
        command(2, "login", &login_data("bo", "y")),
        command(3, "login", &login_data("cy", "z")),
    ];
    game.run_step(&cmds);
    assert_eq!(game.players[0].position, Vector2 { x: 1, y: 0 });
    assert_eq!(game.players[0].direction, Vector2 { x: 0, y: 5 });
    assert_eq!(game.players.len(), 3);
    game.run_step(&Vec::new());
    assert_eq!(game.players[0].position, Vector2 { x: 1, y: 5 });
}

#[test]
fn create_and_attach_bind_a_session() {
    let mut game = Game::new();
    let p = game.create_player(4, "al".to_string(), "x".to_string());
    assert_eq!(p.id, 1);
    assert_eq!(p.client_id, None);
    assert!(!p.active);
    assert_eq!(game.players[0].client_id, None);
    assert!(!game.already_logged_in(4));
    assert_eq!(game.get_players_online(), 0);
    assert_eq!(game.generate_player_id(), 2);
    game.attach_client_to_player(0, 9);
    assert_eq!(game.players[0].client_id, Some(9));
    assert!(game.players[0].active);
    assert_eq!(game.get_players_online(), 1);
}

#[test]
fn login_by_value_matches_login_by_payload() {
    let mut game = Game::new();
    let cmd = LoginCommand { username: "al".to_string(), password: "x".to_string() };
    assert_eq!(game.login(3, &cmd).unwrap().id, 1);
}

#[test]
fn bindings_list_bound_players_only() {
    let mut game = Game::new();
    login(&mut game, 4, "al", "x").unwrap();
    login(&mut game, 5, "bo", "y").unwrap();
    game.logout_player(4);
    assert_eq!(game.session_bindings(), vec![(5, 2)]);
}
