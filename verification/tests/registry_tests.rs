use yomiduel::matchmaking::JoinResult;
use yomiduel::matchmaking::MatchmakingState;
use yomiduel::messages::ServerMessage;
use yomiduel::registry::ContinueDecision;
use yomiduel::registry::GameRegistry;
use yomiduel::session::Word;

fn word(kanji: &str, reading: &str) -> Word {
    Word { kanji: kanji.to_string(), reading: reading.to_string() }
}

fn paired_registry() -> (GameRegistry, String) {
    let mut registry = GameRegistry::new();
    let game_id = registry
        .create_session("alice".to_string(), "bob".to_string())
        .expect("a fresh game identifier");
    (registry, game_id)
}

#[test]
fn create_session_maps_both_players() {
    let (registry, game_id) = paired_registry();

    assert_eq!(registry.game_id_of("alice"), Some(game_id.clone()));
    assert_eq!(registry.game_id_of("bob"), Some(game_id.clone()));
    assert_eq!(
        registry.players_of_game(&game_id),
        Some(("alice".to_string(), "bob".to_string()))
    );
    assert_eq!(registry.scores_of("alice"), Some((0, 0)));
}

#[test]
fn correct_answer_wins_round() {
    let (mut registry, game_id) = paired_registry();
    assert!(registry.start_round(&game_id, 1, word("日本", "にほん")));

    // A wrong answer changes nothing.
    assert!(registry.submit_answer("alice", "にっぽん").is_none());

    let result = registry.submit_answer("alice", "にほん").unwrap();
    assert_eq!(
        result.round_result,
        ServerMessage::RoundResult {
            winner: Some("alice".to_string()),
            correct_reading: "にほん".to_string(),
        }
    );
    assert_eq!(result.game_winner, None);
    assert_eq!(result.round_number, 1);
    assert_eq!(registry.scores_of("alice"), Some((1, 0)));
}

#[test]
fn answer_with_no_game_is_ignored() {
    let mut registry = GameRegistry::new();
    assert!(registry.submit_answer("nobody", "にほん").is_none());
}

#[test]
fn round_times_out_with_no_winner() {
    let (mut registry, game_id) = paired_registry();
    registry.start_round(&game_id, 1, word("日本", "にほん"));

    let result = registry.handle_round_timeout(&game_id, 1).unwrap();
    assert_eq!(
        result.round_result,
        ServerMessage::RoundResult { winner: None, correct_reading: "にほん".to_string() }
    );
    assert_eq!(result.game_winner, None);
    assert_eq!(result.round_number, 1);
    assert_eq!(registry.scores_of("alice"), Some((0, 0)));
}

#[test]
fn stale_timeout_is_suppressed() {
    let (mut registry, game_id) = paired_registry();
    registry.start_round(&game_id, 1, word("日本", "にほん"));

    // Round 1 resolves via the correct answer, and round 2 begins.
    assert!(registry.submit_answer("bob", "にほん").is_some());
    assert!(registry.start_round(&game_id, 2, word("学校", "がっこう")));

    // The round-1 timer now fires: it must produce nothing and must
    // not touch round 2.
    assert!(registry.handle_round_timeout(&game_id, 1).is_none());

    let result = registry.submit_answer("alice", "がっこう").unwrap();
    assert_eq!(result.round_number, 2);
}

#[test]
fn timeout_after_game_removed_is_inert() {
    let (mut registry, game_id) = paired_registry();
    registry.start_round(&game_id, 1, word("日本", "にほん"));
    registry.remove_player_from_game("alice");

    assert!(registry.handle_round_timeout(&game_id, 1).is_none());
}

#[test]
fn remove_player_twice_is_noop() {
    let (mut registry, game_id) = paired_registry();

    let info = registry.remove_player_from_game("alice").unwrap();
    assert_eq!(info.opponent_id, "bob");
    assert_eq!(info.game_id, game_id);
    assert!(info.session.has_player("alice"));
    assert!(info.session.has_player("bob"));

    // The second call is a no-op: the opponent cannot be notified twice.
    assert!(registry.remove_player_from_game("alice").is_none());
    assert!(registry.remove_player_from_game("bob").is_none());
    assert!(!registry.has_game(&game_id));
}

#[test]
fn cleanup_game_clears_both_maps() {
    let (mut registry, game_id) = paired_registry();

    registry.cleanup_game(&game_id);

    assert!(!registry.has_game(&game_id));
    assert!(registry.game_id_of("alice").is_none());
    assert!(registry.game_id_of("bob").is_none());

    // Cleaning an already-removed game is a no-op.
    registry.cleanup_game(&game_id);
}

#[test]
fn continue_decision_prefers_scored_winner() {
    let (registry, game_id) = paired_registry();

    let decision =
        registry.continue_or_end_game(&game_id, Some("alice".to_string()), 7);
    assert_eq!(
        decision,
        ContinueDecision::Ended { winner: Some("alice".to_string()) }
    );
}

#[test]
fn continue_decision_starts_next_round() {
    let (registry, game_id) = paired_registry();

    let decision = registry.continue_or_end_game(&game_id, None, 7);
    assert_eq!(decision, ContinueDecision::NextRound { number: 8 });
}

#[test]
fn continue_decision_draws_at_round_cap() {
    let (registry, game_id) = paired_registry();

    // Round 30 is the cap; equal scores end the game in a draw.
    let decision = registry.continue_or_end_game(&game_id, None, 30);
    assert_eq!(decision, ContinueDecision::Ended { winner: None });
}

#[test]
fn continue_decision_compares_scores_at_round_cap() {
    let (mut registry, game_id) = paired_registry();
    registry.start_round(&game_id, 30, word("日本", "にほん"));
    registry.submit_answer("bob", "にほん");

    let decision = registry.continue_or_end_game(&game_id, None, 30);
    assert_eq!(
        decision,
        ContinueDecision::Ended { winner: Some("bob".to_string()) }
    );
}

#[test]
fn continue_decision_on_missing_game_ends_chain() {
    let registry = GameRegistry::new();

    let decision = registry.continue_or_end_game("gone", None, 3);
    assert_eq!(decision, ContinueDecision::GameGone);
}

#[test]
fn game_start_is_followed_by_round_start() {
    // Two players join; a session forms; round one starts for both.
    let mut state = MatchmakingState::new();
    assert!(matches!(state.try_join("user-1".to_string()), JoinResult::Waiting));
    let game_id = match state.try_join("user-2".to_string()) {
        JoinResult::Matched { game_id, .. } => game_id,
        JoinResult::Waiting => panic!("players should have been matched"),
    };

    assert!(state.registry.start_round(&game_id, 1, word("日本", "にほん")));

    // Player 1 answers correctly: both learn the outcome, the game
    // goes on, and round two begins, since the threshold is unmet.
    let result = state.registry.submit_answer("user-1", "にほん").unwrap();
    assert_eq!(
        result.round_result,
        ServerMessage::RoundResult {
            winner: Some("user-1".to_string()),
            correct_reading: "にほん".to_string(),
        }
    );
    assert_eq!(result.game_winner, None);

    let decision =
        state.registry.continue_or_end_game(&game_id, result.game_winner, result.round_number);
    assert_eq!(decision, ContinueDecision::NextRound { number: 2 });
    assert!(state.registry.start_round(&game_id, 2, word("学校", "がっこう")));
}
