use std::cell::Cell;
use std::collections::HashSet;

use yomiduel::game_id::generate_game_id;
use yomiduel::game_id::generate_unique_game_id;

#[test]
fn generates_six_character_code() {
    let id = generate_game_id();
    assert_eq!(id.len(), 6);
}

#[test]
fn contains_only_allowed_characters() {
    let allowed = "abcdefghjkmnpqrstuvwxyz23456789"; // no 0, o, l, 1
    for _ in 0..100 {
        let id = generate_game_id();
        assert!(id.chars().all(|c| allowed.contains(c)));
    }
}

#[test]
fn generates_unique_ids() {
    let ids: HashSet<_> = (0..1000).map(|_| generate_game_id()).collect();
    assert_eq!(ids.len(), 1000); // all unique
}

#[test]
fn retries_on_collision() {
    let existing = HashSet::from(["abc123".to_string()]);
    let attempts = Cell::new(0);

    let id = generate_unique_game_id(|id| {
        attempts.set(attempts.get() + 1);
        // First attempt returns "collision" if it happens to be abc123
        existing.contains(id)
    });

    assert_ne!(id, "abc123");
    assert!(attempts.get() >= 1);
}

#[test]
fn returns_immediately_when_no_collision() {
    let id = generate_unique_game_id(|_| false); // nothing exists
    assert_eq!(id.len(), 6);
}

#[test]
fn unique_id_avoids_forced_collisions() {
    // Force retries until a code outside the "starts with a" set comes up.
    let id = generate_unique_game_id(|id| id.starts_with('a'));
    assert!(!id.starts_with('a'));
}

#[test]
fn exhausted_retries_still_yield_a_code() {
    // A predicate that rejects everything exhausts the defensive
    // bound; the last checked draw still comes back well-formed.
    let allowed = "abcdefghjkmnpqrstuvwxyz23456789";
    let id = generate_unique_game_id(|_| true);
    assert_eq!(id.len(), 6);
    assert!(id.chars().all(|c| allowed.contains(c)));
}
