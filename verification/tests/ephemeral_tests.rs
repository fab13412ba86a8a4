use yomiduel::ephemeral::EphemeralPlayer;
use yomiduel::ephemeral::EphemeralState;
use yomiduel::ephemeral::PendingGame;

#[test]
fn ephemeral_player_has_id_and_display_name() {
    let player = EphemeralPlayer::new("Alice");
    assert!(!player.id.is_empty());
    assert_eq!(player.display_name, "Alice");
}

#[test]
fn each_player_gets_unique_id() {
    let p1 = EphemeralPlayer::new("Alice");
    let p2 = EphemeralPlayer::new("Bob");
    assert_ne!(p1.id, p2.id);
}

#[test]
fn pending_game_stores_host_info() {
    let host = EphemeralPlayer::new("Alice");
    let pending = PendingGame::new("abc123".to_string(), host, 0);

    assert_eq!(pending.game_id, "abc123");
    assert_eq!(pending.host.display_name, "Alice");
}

#[test]
fn pending_game_tracks_creation_time() {
    let host = EphemeralPlayer::new("Alice");
    let before: u64 = 41_999;
    let pending = PendingGame::new("abc123".to_string(), host, 42_000);
    let after: u64 = 42_001;

    assert!(pending.created_at_ms >= before);
    assert!(pending.created_at_ms <= after);
}

#[test]
fn create_game_returns_game_id_and_waits() {
    let mut state = EphemeralState::new();

    let code = state.create_game("Alice".to_string(), 0);

    assert_eq!(code.chars().count(), 6);
    // The game is pending, not active: nobody is playing yet.
    assert!(state.registry.game_id_of("Alice").is_none());
    let lobby = state.list_pending_games(0, 300);
    assert_eq!(lobby.games.len(), 1);
    assert_eq!(lobby.games[0].game_id, code);
}

#[test]
fn join_game_starts_match() {
    let mut state = EphemeralState::new();
    let code = state.create_game("Alice".to_string(), 0);

    let joined = state.join_game(&code, "Bob".to_string()).unwrap();

    assert_eq!(joined.game_id, code);
    assert_eq!(joined.host_name, "Alice");
    assert_eq!(joined.guest_name, "Bob");
    let players = state.registry.players_of_game(&code).unwrap();
    assert_eq!(players, ("Alice".to_string(), "Bob".to_string()));
}

#[test]
fn join_nonexistent_game_returns_not_found() {
    let mut state = EphemeralState::new();

    assert!(state.join_game("xyz999", "Bob".to_string()).is_none());
}

#[test]
fn duplicate_names_get_discriminator() {
    let mut state = EphemeralState::new();
    let code = state.create_game("Alice".to_string(), 0);

    let joined = state.join_game(&code, "Alice".to_string()).unwrap();

    assert_eq!(joined.host_name, "Alice");
    assert_eq!(joined.guest_name, "Alice (2)");
}

#[test]
fn ephemeral_disconnect_is_idempotent() {
    let mut state = EphemeralState::new();
    let code = state.create_game("Alice".to_string(), 0);
    state.join_game(&code, "Bob".to_string()).unwrap();

    let info = state.handle_disconnect("Bob").unwrap();
    assert_eq!(info.opponent_id, "Alice");
    assert_eq!(info.game_id, code);

    assert!(state.handle_disconnect("Bob").is_none());
    assert!(state.handle_disconnect("Alice").is_none());
}

#[test]
fn lobby_returns_empty_when_no_games() {
    let state = EphemeralState::new();
    let lobby = state.list_pending_games(0, 300);
    assert!(lobby.games.is_empty());
}

#[test]
fn lobby_returns_pending_game() {
    let mut state = EphemeralState::new();
    let code = state.create_game("Alice".to_string(), 10_000);

    let lobby = state.list_pending_games(25_000, 300);

    assert_eq!(lobby.games.len(), 1);
    assert_eq!(lobby.games[0].game_id, code);
    assert_eq!(lobby.games[0].host_name, "Alice");
    assert_eq!(lobby.games[0].created_at_secs, 15);
}

#[test]
fn lobby_excludes_game_after_join() {
    let mut state = EphemeralState::new();
    let code = state.create_game("Alice".to_string(), 0);
    state.join_game(&code, "Bob".to_string()).unwrap();

    let lobby = state.list_pending_games(0, 300);
    assert!(lobby.games.is_empty());
}

#[test]
fn lobby_excludes_games_past_max_age() {
    let mut state = EphemeralState::new();
    state.create_game("Alice".to_string(), 0);
    let fresh = state.create_game("Bob".to_string(), 400_000);

    // At 301 s the first game is over the 300 s limit, the second is not.
    let lobby = state.list_pending_games(301_000, 300);

    assert_eq!(lobby.games.len(), 1);
    assert_eq!(lobby.games[0].game_id, fresh);
    assert_eq!(lobby.games[0].host_name, "Bob");
}
