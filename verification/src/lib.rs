//! Core engine for a two-player timed question-and-answer duel.
//!
//! The crate covers the matching and session-lifecycle logic: the
//! single-slot matchmaking lobby, the registry that maps players to
//! games, the per-game round state machine, the decision logic behind
//! the round-timeout scheduler, and the short invite-code allocator.
//! Transport, persistence and timers live outside; they hand plain
//! values in and take plain values back.

pub mod assoc;
pub mod ephemeral;
pub mod game_id;
pub mod matchmaking;
pub mod messages;
pub mod registry;
pub mod session;
pub mod text;
