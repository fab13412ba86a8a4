use yomiduel::session::GameSession;
use yomiduel::session::SkipResult;
use yomiduel::session::Word;

fn word(kanji: &str, reading: &str) -> Word {
    Word { kanji: kanji.to_string(), reading: reading.to_string() }
}

#[test]
fn test_game_session_tracks_players() {
    let session = GameSession::new("alice".to_string(), "bob".to_string());

    assert!(session.has_player("alice"));
    assert!(session.has_player("bob"));
    assert!(!session.has_player("charlie"));
}

#[test]
fn test_opponent_of_returns_other_player() {
    let session = GameSession::new("alice".to_string(), "bob".to_string());

    assert_eq!(session.opponent_of("alice"), Some("bob"));
    assert_eq!(session.opponent_of("bob"), Some("alice"));
    assert_eq!(session.opponent_of("charlie"), None);
}

#[test]
fn test_correct_answer_wins_round() {
    let mut session = GameSession::new("alice".to_string(), "bob".to_string());

    session.start_round(1, word("日本", "にほん"));

    // Wrong answer - round continues
    let result = session.submit_answer("alice", "にっぽん");
    assert!(result.is_none());

    // Correct answer - round ends
    let result = session.submit_answer("bob", "にほん");
    assert!(result.is_some());

    let outcome = result.unwrap();
    assert_eq!(outcome.winner, Some("bob".to_string()));
    assert_eq!(outcome.correct_reading, "にほん");
}

#[test]
fn test_timeout_round_ends_with_no_winner() {
    let mut session = GameSession::new("alice".to_string(), "bob".to_string());

    session.start_round(1, word("日本", "にほん"));

    let result = session.timeout_round();
    assert!(result.is_some());

    let outcome = result.unwrap();
    assert_eq!(outcome.winner, None);
    assert_eq!(outcome.correct_reading, "にほん");
}

#[test]
fn test_timeout_round_returns_none_if_no_active_round() {
    let mut session = GameSession::new("alice".to_string(), "bob".to_string());

    let result = session.timeout_round();
    assert!(result.is_none());
}

#[test]
fn test_skip_requires_both_players() {
    let mut session = GameSession::new("alice".to_string(), "bob".to_string());

    session.start_round(1, word("日本", "にほん"));

    // First player skips - should wait for opponent
    let result = session.record_skip("alice");
    assert_eq!(result, Some(SkipResult::WaitingForOpponent));

    // Same player skips again - already skipped
    let result = session.record_skip("alice");
    assert_eq!(result, Some(SkipResult::AlreadySkipped));

    // Second player skips - round ends
    let result = session.record_skip("bob");
    assert!(matches!(result, Some(SkipResult::BothSkipped(_))));

    if let Some(SkipResult::BothSkipped(outcome)) = result {
        assert_eq!(outcome.winner, None);
        assert_eq!(outcome.correct_reading, "にほん");
    }
}

#[test]
fn test_first_to_fifteen_wins_game() {
    let mut session = GameSession::new("alice".to_string(), "bob".to_string());

    assert_eq!(session.scores(), (0, 0));
    assert_eq!(session.game_winner(), None);

    // Record 14 wins for alice - should not trigger game end yet
    for i in 1..=14 {
        session.record_win("alice");
        assert_eq!(session.scores(), (i, 0));
        assert_eq!(session.game_winner(), None);
    }

    // Bob gets some wins but alice is still ahead
    session.record_win("bob");
    assert_eq!(session.scores(), (14, 1));
    assert_eq!(session.game_winner(), None);

    // 15th win for alice triggers game end
    session.record_win("alice");
    assert_eq!(session.scores(), (15, 1));
    assert_eq!(session.game_winner(), Some("alice"));
}

#[test]
fn start_round_keeps_live_round() {
    let mut session = GameSession::new("alice".to_string(), "bob".to_string());

    session.start_round(1, word("日本", "にほん"));
    // A second start without an intervening resolution must not
    // overwrite the live round.
    session.start_round(2, word("学校", "がっこう"));

    assert_eq!(session.current_round_number(), Some(1));
    assert_eq!(session.current_kanji(), Some("日本"));

    // The original round still resolves with its own word.
    let outcome = session.submit_answer("alice", "にほん").unwrap();
    assert_eq!(outcome.correct_reading, "にほん");
}

#[test]
fn round_resolves_exactly_once() {
    let mut session = GameSession::new("alice".to_string(), "bob".to_string());

    session.start_round(1, word("日本", "にほん"));

    // The correct answer resolves the round.
    assert!(session.submit_answer("alice", "にほん").is_some());

    // Every later path on the same round yields nothing.
    assert!(session.timeout_round().is_none());
    assert!(session.record_skip("bob").is_none());
    assert!(session.submit_answer("bob", "にほん").is_none());
}

#[test]
fn skip_by_unknown_player_is_ignored() {
    let mut session = GameSession::new("alice".to_string(), "bob".to_string());

    session.start_round(1, word("日本", "にほん"));

    assert_eq!(session.record_skip("charlie"), None);
    assert_eq!(session.current_round_number(), Some(1));
}

#[test]
fn accept_correct_answer_resolves_round() {
    let mut session = GameSession::new("alice".to_string(), "bob".to_string());

    session.start_round(3, word("日本", "にほん"));

    let outcome = session.accept_correct_answer("bob").unwrap();
    assert_eq!(outcome.winner, Some("bob".to_string()));
    assert_eq!(outcome.correct_reading, "にほん");
    assert!(session.accept_correct_answer("alice").is_none());
}
