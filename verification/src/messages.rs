//! The logical message vocabulary between client and server.
//!
//! These are transport-agnostic values: the wire encoding and the
//! per-player fan-out channels live outside the engine, which only
//! constructs and inspects the variants.

use vstd::prelude::*;

verus! {

/// Messages a client sends to the server.
#[derive(Debug, Clone, PartialEq)]
pub enum ClientMessage {
    /// Anonymous matchmaking.
    Join { user_id: String },
    /// Ephemeral host creates an invite-code game.
    CreateGame { player_name: String },
    /// Ephemeral guest joins by invite code.
    JoinGame { game_id: String, player_name: String },
    /// Answer to the live round's prompt.
    Answer { answer: String },
    /// Ask to skip the live round.
    Skip,
    /// Ask for a rematch after game end.
    RequestRematch,
}

/// Messages the server sends to a client.
#[derive(Debug, Clone, PartialEq)]
pub enum ServerMessage {
    Waiting,
    GameCreated { game_id: String },
    WaitingForOpponent,
    OpponentJoined { opponent_name: String },
    GameFull,
    GameNotFound,
    GameStart { opponent: String },
    RoundStart { kanji: String, round: u32 },
    RoundResult { winner: Option<String>, correct_reading: String },
    WrongAnswer,
    SkipWaiting,
    RematchWaiting,
    OpponentDisconnected,
    GameEnd { winner: Option<String> },
    Error { message: String },
}

} // verus!
