use yomiduel::matchmaking::JoinResult;
use yomiduel::matchmaking::Lobby;
use yomiduel::matchmaking::MatchOutcome;
use yomiduel::matchmaking::MatchmakingState;

#[test]
fn test_first_player_waits() {
    let mut lobby = Lobby::new();

    let result = lobby.try_match("alice".to_string());

    assert_eq!(result, MatchOutcome::Waiting);
}

#[test]
fn test_second_player_matches_with_first() {
    let mut lobby = Lobby::new();

    lobby.try_match("alice".to_string());
    let result = lobby.try_match("bob".to_string());

    assert_eq!(result, MatchOutcome::Matched { opponent_id: "alice".to_string() });
}

#[test]
fn test_third_player_waits_after_match() {
    let mut lobby = Lobby::new();

    lobby.try_match("alice".to_string());
    lobby.try_match("bob".to_string()); // matches with alice

    let result = lobby.try_match("charlie".to_string());
    assert_eq!(result, MatchOutcome::Waiting);
}

#[test]
fn test_remove_waiting_clears_queue() {
    let mut lobby = Lobby::new();

    lobby.try_match("alice".to_string());
    lobby.remove_waiting("alice");

    // bob should wait, not match
    let result = lobby.try_match("bob".to_string());
    assert_eq!(result, MatchOutcome::Waiting);
}

#[test]
fn remove_waiting_ignores_other_player() {
    let mut lobby = Lobby::new();

    lobby.try_match("alice".to_string());
    lobby.remove_waiting("bob");

    // alice still waits, so bob matches with her
    let result = lobby.try_match("bob".to_string());
    assert_eq!(result, MatchOutcome::Matched { opponent_id: "alice".to_string() });
}

#[test]
fn two_players_join_and_game_starts() {
    let mut state = MatchmakingState::new();

    assert!(matches!(state.try_join("user-1".to_string()), JoinResult::Waiting));

    match state.try_join("user-2".to_string()) {
        JoinResult::Matched { opponent_id, game_id } => {
            assert_eq!(opponent_id, "user-1");
            let players = state.registry.players_of_game(&game_id).unwrap();
            assert_eq!(players, ("user-1".to_string(), "user-2".to_string()));
            assert_eq!(state.registry.game_id_of("user-1"), Some(game_id.clone()));
            assert_eq!(state.registry.game_id_of("user-2"), Some(game_id));
        },
        JoinResult::Waiting => panic!("second player should have been matched"),
    }
}

#[test]
fn opponent_disconnect_notifies_remaining_player() {
    let mut state = MatchmakingState::new();
    state.try_join("user-1".to_string());
    state.try_join("user-2".to_string());

    // First removal returns the opponent to notify, exactly once.
    let info = state.handle_disconnect("user-1").unwrap();
    assert_eq!(info.opponent_id, "user-2");

    // Second removal of the same player is a no-op.
    assert!(state.handle_disconnect("user-1").is_none());

    // The opponent was removed along with the game.
    assert!(state.registry.game_id_of("user-2").is_none());
    assert!(state.handle_disconnect("user-2").is_none());
}

#[test]
fn disconnect_while_waiting_clears_slot() {
    let mut state = MatchmakingState::new();
    state.try_join("user-1".to_string());

    assert!(state.handle_disconnect("user-1").is_none());

    // The slot is free again: the next joiner waits.
    assert!(matches!(state.try_join("user-2".to_string()), JoinResult::Waiting));
}
