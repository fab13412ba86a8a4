//! Single-slot anonymous matchmaking lobby.
//!
//! At most one player waits at any instant. The first caller occupies
//! the empty slot and waits; the next caller takes the occupant and is
//! matched with them. The caller serializes access (the transport
//! layer holds one lock around the slot), so the operations here are
//! plain state transitions.

use vstd::prelude::*;

use crate::registry::DisconnectInfo;
use crate::registry::GameRegistry;
use crate::session::GameSession;

verus! {

/// Result of attempting to join matchmaking.
#[derive(Debug, PartialEq)]
pub enum MatchOutcome {
    Waiting,
    Matched { opponent_id: String },
}

/// The matchmaking queue: one optional waiting player.
pub struct Lobby {
    waiting: Option<String>,
}

/// One lobby transition: the slot before the call and the caller's
/// identifier give the slot after the call and the matched opponent
/// (`None` means the caller now waits).
pub open spec fn lobby_step(slot: Option<Seq<char>>, id: Seq<char>) -> (
    Option<Seq<char>>,
    Option<Seq<char>>,
) {
    match slot {
        None => (Some(id), None),
        Some(op) => (None, Some(op)),
    }
}

/// The slot's occupant after a sequence of `try_match` calls on an
/// initially empty lobby.
pub open spec fn slot_after(ids: Seq<Seq<char>>) -> Option<Seq<char>>
    decreases ids.len(),
{
    if ids.len() == 0 {
        None
    } else {
        lobby_step(slot_after(ids.drop_last()), ids.last()).0
    }
}

/// The opponent matched by the nth call (1-based) of a sequence of
/// `try_match` calls on an initially empty lobby; `None` means that
/// call received `Waiting`.
pub open spec fn match_of_nth_call(ids: Seq<Seq<char>>, n: int) -> Option<Seq<char>>
    recommends
        1 <= n <= ids.len(),
{
    lobby_step(slot_after(ids.take(n - 1)), ids[n - 1]).1
}

/// After a sequence of calls the slot is empty exactly when their
/// number is even, and otherwise holds the last caller.
pub proof fn lemma_slot_parity(ids: Seq<Seq<char>>)
    ensures
        slot_after(ids) == (if ids.len() % 2 == 0 {
            None
        } else {
            Some(ids.last())
        }),
    decreases ids.len(),
{
    if ids.len() > 0 {
        lemma_slot_parity(ids.drop_last());
    }
}

/// Lobby pairing is first-in-first-out: in any sequence of `try_match`
/// calls on an initially empty lobby, every odd-numbered call waits
/// and every even-numbered call is matched with the caller just
/// before it.
pub proof fn lemma_lobby_fifo(ids: Seq<Seq<char>>, n: int)
    requires
        1 <= n <= ids.len(),
    ensures
        n % 2 == 1 ==> match_of_nth_call(ids, n) is None,
        n % 2 == 0 ==> match_of_nth_call(ids, n) == Some(ids[n - 2]),
{
    lemma_slot_parity(ids.take(n - 1));
    assert(ids.take(n - 1).len() == n - 1);
    if n % 2 == 0 {
        assert(ids.take(n - 1).last() == ids[n - 2]);
    }
}

impl Lobby {
    /// The waiting player's identifier, if one is waiting.
    pub closed spec fn spec_waiting(&self) -> Option<Seq<char>> {
        match self.waiting {
            None => None,
            Some(w) => Some(w@),
        }
    }

    pub fn new() -> (r: Self)
        ensures
            r.spec_waiting() is None,
    {
        Self { waiting: None }
    }

    /// Try to match a player: occupy the empty slot and wait, or take
    /// the occupant and be matched with them.
    pub fn try_match(&mut self, user_id: String) -> (r: MatchOutcome)
        ensures
            final(self).spec_waiting() == lobby_step(old(self).spec_waiting(), user_id@).0,
            (match r {
                MatchOutcome::Waiting => None::<Seq<char>>,
                MatchOutcome::Matched { opponent_id } => Some(opponent_id@),
            }) == lobby_step(old(self).spec_waiting(), user_id@).1,
    {
        match self.waiting.take() {
            None => {
                self.waiting = Some(user_id);
                MatchOutcome::Waiting
            },
            Some(opponent_id) => MatchOutcome::Matched { opponent_id },
        }
    }

    /// Clear the slot, but only if it holds exactly this player: a
    /// safe no-op when the player was already matched concurrently.
    pub fn remove_waiting(&mut self, user_id: &str)
        ensures
            final(self).spec_waiting() == (if old(self).spec_waiting() == Some(user_id@) {
                None::<Seq<char>>
            } else {
                old(self).spec_waiting()
            }),
    {
        let clear = match &self.waiting {
            Some(w) => crate::text::string_eq_str(w, user_id),
            None => false,
        };
        if clear {
            self.waiting = None;
        }
    }
}

/// Result of a join attempt after matching.
pub enum JoinResult {
    Waiting,
    Matched { opponent_id: String, game_id: String },
}

/// State of the anonymous-matchmaking mode: the lobby slot plus the
/// registry of active games.
pub struct MatchmakingState {
    pub lobby: Lobby,
    pub registry: GameRegistry,
}

impl MatchmakingState {
    /// Well-formed state: the registry invariant holds and a waiting
    /// player is never already in a game.
    pub open spec fn wf(&self) -> bool {
        &&& self.registry.wf()
        &&& (self.lobby.spec_waiting() matches Some(w) ==> !self.registry.players_map(
        ).contains_key(w))
    }

    pub fn new() -> (r: Self)
        ensures
            r.wf(),
            r.lobby.spec_waiting() is None,
            r.registry.games_map() =~= Map::<Seq<char>, GameSession>::empty(),
            r.registry.players_map() =~= Map::<Seq<char>, Seq<char>>::empty(),
    {
        Self { lobby: Lobby::new(), registry: GameRegistry::new() }
    }

    /// Join matchmaking: the caller either waits in the empty slot or
    /// is paired with the waiting player, in which case a session for
    /// the two is created under a fresh game identifier. (Only the
    /// statistically negligible exhaustion of identifier draws makes
    /// a paired caller wait instead, with the slot left empty.)
    pub fn try_join(&mut self, user_id: String) -> (r: JoinResult)
        requires
            old(self).wf(),
            !old(self).registry.players_map().contains_key(user_id@),
        ensures
            final(self).wf(),
            old(self).lobby.spec_waiting() is None ==> (r == JoinResult::Waiting && final(self).lobby.spec_waiting() == Some(user_id@) && final(self).registry == old(self).registry),
            old(self).lobby.spec_waiting() matches Some(opp) ==> (final(self).lobby.spec_waiting()
                is None && {
                ||| (r matches JoinResult::Matched { opponent_id, game_id } && ({
                    &&& opponent_id@ == opp
                    &&& !old(self).registry.games_map().contains_key(game_id@)
                    &&& final(self).registry.games_map() =~= old(self).registry.games_map().insert(
                        game_id@,
                        (GameSession {
                            player1: opponent_id,
                            player2: user_id,
                            scores: (0u32, 0u32),
                            current_round: None,
                        }),
                    )
                    &&& final(self).registry.players_map() =~= old(self).registry.players_map().insert(opp, game_id@).insert(user_id@, game_id@)
                }))
                ||| (r == JoinResult::Waiting && final(self).registry == old(self).registry)
            }),
    {
        match self.lobby.try_match(user_id.clone()) {
            MatchOutcome::Waiting => JoinResult::Waiting,
            MatchOutcome::Matched { opponent_id } => {
                match self.registry.create_session(opponent_id.clone(), user_id) {
                    None => JoinResult::Waiting,
                    Some(game_id) => JoinResult::Matched { opponent_id, game_id },
                }
            },
        }
    }

    /// Handle a player's disconnect: clear their lobby slot if they
    /// were waiting, and remove them from their game, handing back
    /// the opponent to notify. Safe to call twice: the second call
    /// finds nothing.
    pub fn handle_disconnect(&mut self, user_id: &str) -> (r: Option<DisconnectInfo>)
        requires
            old(self).wf(),
        ensures
            final(self).wf(),
            final(self).lobby.spec_waiting() == (if old(self).lobby.spec_waiting() == Some(
                user_id@,
            ) {
                None::<Seq<char>>
            } else {
                old(self).lobby.spec_waiting()
            }),
            !old(self).registry.players_map().contains_key(user_id@) ==> (r is None && final(self).registry == old(self).registry),
            old(self).registry.players_map().contains_key(user_id@) ==> ({
                let gid = old(self).registry.player_gid(user_id@);
                let s = old(self).registry.games_map()[gid];
                let opp = if s.player1@ == user_id@ {
                    s.player2@
                } else {
                    s.player1@
                };
                &&& r matches Some(info) && info.game_id@ == gid && info.session == s
                    && info.opponent_id@ == opp
                &&& final(self).registry.games_map() =~= old(self).registry.games_map().remove(gid)
                &&& final(self).registry.players_map() =~= old(self).registry.players_map().remove(user_id@).remove(opp)
            }),
    {
        self.lobby.remove_waiting(user_id);
        self.registry.remove_player_from_game(user_id)
    }

    /// Remove a finished game and its players' mappings.
    pub fn cleanup_game(&mut self, game_id: &str)
        requires
            old(self).wf(),
        ensures
            final(self).wf(),
            final(self).lobby == old(self).lobby,
            !old(self).registry.games_map().contains_key(game_id@) ==> final(self).registry == old(self).registry,
            old(self).registry.games_map().contains_key(game_id@) ==> ({
                let s = old(self).registry.games_map()[game_id@];
                &&& final(self).registry.games_map() =~= old(self).registry.games_map().remove(
                    game_id@,
                )
                &&& final(self).registry.players_map() =~= old(self).registry.players_map().remove(s.player1@).remove(s.player2@)
            }),
    {
        self.registry.cleanup_game(game_id);
    }
}

} // verus!
