//! Invite-code (ephemeral) game flow.
//!
//! A host creates a pending game under a short generated code; a
//! guest joins by code, at which point the pending entry becomes an
//! active session in the registry. Guests that reuse the host's
//! display name get a discriminator so the two identifiers stay
//! distinct. A read-only snapshot of pending games, filtered by age,
//! feeds the public lobby listing.

use vstd::prelude::*;

use crate::assoc::assoc_find;
use crate::assoc::assoc_fold;
use crate::assoc::distinct_keys;
use crate::assoc::lemma_assoc_contains;
use crate::assoc::lemma_assoc_index;
use crate::assoc::lemma_assoc_push;
use crate::assoc::lemma_assoc_remove;
use crate::game_id::code_wf;
use crate::game_id::generate_game_id;
use crate::registry::DisconnectInfo;
use crate::registry::GameRegistry;
use crate::session::GameSession;
use crate::text::string_eq_str;

verus! {

/// A player in the invite-code flow: a generated identifier plus the
/// chosen display name.
pub struct EphemeralPlayer {
    pub id: String,
    pub display_name: String,
}

impl EphemeralPlayer {
    pub fn new(display_name: &str) -> (r: Self)
        ensures
            r.display_name@ == display_name@,
            r.id@.len() == 36,
    {
        Self { id: crate::registry::fresh_uuid(), display_name: display_name.to_owned() }
    }
}

/// A created-but-not-yet-joined game: the code, the host, and when it
/// was created (milliseconds on the caller's clock).
pub struct PendingGame {
    pub game_id: String,
    pub host: EphemeralPlayer,
    pub created_at_ms: u64,
}

impl PendingGame {
    pub fn new(game_id: String, host: EphemeralPlayer, created_at_ms: u64) -> (r: Self)
        ensures
            r.game_id == game_id,
            r.host == host,
            r.created_at_ms == created_at_ms,
    {
        Self { game_id, host, created_at_ms }
    }
}

/// What a successful join hands back: the game and both final names.
pub struct JoinedGame {
    pub game_id: String,
    pub host_name: String,
    pub guest_name: String,
}

/// A game visible in the lobby (pending, waiting for an opponent).
#[derive(Debug, PartialEq)]
pub struct LobbyGame {
    pub game_id: String,
    pub host_name: String,
    /// Seconds since the game was created.
    pub created_at_secs: u64,
}

/// List of games available to join.
#[derive(Debug, PartialEq)]
pub struct LobbyList {
    pub games: Vec<LobbyGame>,
}

/// The guest's final identifier: the chosen name, or the name with a
/// discriminator when it collides with the host's.
pub open spec fn discriminated(name: Seq<char>, host: Seq<char>) -> Seq<char> {
    if name == host {
        name + " (2)"@
    } else {
        name
    }
}

/// A pending entry's age in whole seconds at the given clock reading.
pub open spec fn age_secs(e: PendingGame, now_ms: u64) -> u64 {
    if e.created_at_ms <= now_ms {
        (((now_ms - e.created_at_ms) as u64) / 1000u64) as u64
    } else {
        0
    }
}

/// The lobby projection over a sequence of pending entries: one line
/// per entry no older than the maximum age, in creation order.
pub open spec fn lobby_snapshot(
    s: Seq<(String, PendingGame)>,
    now_ms: u64,
    max_age_secs: u64,
) -> Seq<LobbyGame>
    decreases s.len(),
{
    if s.len() == 0 {
        Seq::empty()
    } else {
        let e = s.last().1;
        lobby_snapshot(s.drop_last(), now_ms, max_age_secs) + (if age_secs(e, now_ms)
            <= max_age_secs {
            seq![
                (LobbyGame {
                    game_id: e.game_id,
                    host_name: e.host.display_name,
                    created_at_secs: age_secs(e, now_ms),
                }),
            ]
        } else {
            Seq::empty()
        })
    }
}

/// State of the invite-code mode: the pending games and the registry
/// of active games.
pub struct EphemeralState {
    pub registry: GameRegistry,
    pub pending: Vec<(String, PendingGame)>,
}

impl EphemeralState {
    /// Map from invite code to the pending game under it.
    pub open spec fn pending_map(&self) -> Map<Seq<char>, PendingGame> {
        assoc_fold(self.pending@)
    }

    /// The pending entries in creation order.
    pub open spec fn pending_seq(&self) -> Seq<(String, PendingGame)> {
        self.pending@
    }

    /// Well-formed state: the registry invariant holds, codes are
    /// distinct, and each pending entry is stored under its own code.
    pub open spec fn wf(&self) -> bool {
        &&& self.registry.wf()
        &&& distinct_keys(self.pending@)
        &&& forall|i: int| 0 <= i < self.pending@.len() ==> (#[trigger] self.pending@[i]).1.game_id@
            == self.pending@[i].0@
    }

    pub fn new() -> (r: Self)
        ensures
            r.wf(),
            r.pending_map() =~= Map::<Seq<char>, PendingGame>::empty(),
            r.registry.games_map() =~= Map::<Seq<char>, GameSession>::empty(),
            r.registry.players_map() =~= Map::<Seq<char>, Seq<char>>::empty(),
    {
        Self { registry: GameRegistry::new(), pending: Vec::new() }
    }

    /// Create a pending game for the host and return its fresh code.
    /// Codes are drawn until one no pending game uses; only the
    /// (statistically negligible) exhaustion of the bounded retries
    /// lets a drawn code replace the pending game that held it.
    pub fn create_game(&mut self, player_name: String, now_ms: u64) -> (r: String)
        requires
            old(self).wf(),
        ensures
            final(self).wf(),
            final(self).registry == old(self).registry,
            code_wf(r@),
            final(self).pending_map().contains_key(r@),
            ({
                let e = final(self).pending_map()[r@];
                e.game_id@ == r@ && e.host.display_name@ == player_name@ && e.created_at_ms
                    == now_ms
            }),
            final(self).pending_map().remove(r@) =~= old(self).pending_map().remove(r@),
    {
        let ghost old_pending = self.pending@;
        let mut code = generate_game_id();
        let mut attempt: usize = 0;
        let mut taken = assoc_find(&self.pending, code.as_str()).is_some();
        while taken && attempt < 10000
            invariant
                *self == *old(self),
                code_wf(code@),
            decreases 10000 - attempt,
        {
            code = generate_game_id();
            taken = assoc_find(&self.pending, code.as_str()).is_some();
            attempt = attempt + 1;
        }
        proof {
            lemma_assoc_contains(old_pending);
        }
        match assoc_find(&self.pending, code.as_str()) {
            None => {
                proof {
                    assert(!assoc_fold(old_pending).contains_key(code@));
                    assert(assoc_fold(old_pending).remove(code@) =~= assoc_fold(old_pending));
                }
            },
            Some(i) => {
                proof {
                    lemma_assoc_remove(old_pending, i as int);
                }
                self.pending.remove(i);
            },
        }
        let host = EphemeralPlayer::new(player_name.as_str());
        let entry = PendingGame::new(code.clone(), host, now_ms);
        proof {
            lemma_assoc_contains(self.pending@);
        }
        let ghost pre_push = self.pending@;
        self.pending.push((code.clone(), entry));
        proof {
            lemma_assoc_push(pre_push, self.pending@.last());
            assert(self.pending_map().remove(code@) =~= assoc_fold(old_pending).remove(code@));
            assert forall|i: int| 0 <= i < self.pending@.len() implies (#[trigger]
            self.pending@[i]).1.game_id@ == self.pending@[i].0@ by {
                if i < self.pending@.len() - 1 {
                    assert(exists|j: int|
                        0 <= j < old_pending.len() && old_pending[j] == self.pending@[i]) by {
                        if pre_push.len() == old_pending.len() {
                            assert(old_pending[i] == self.pending@[i]);
                        } else {
                            let k = choose|k: int|
                                0 <= k < old_pending.len() && old_pending.remove(k)
                                    =~= pre_push;
                            assert(old_pending.remove(k)[i] == self.pending@[i]);
                        }
                    }
                }
            }
        }
        code
    }

    /// Join a pending game by its code: the pending entry becomes an
    /// active session between host and guest, the guest's name
    /// discriminated on a collision with the host's. Yields `None`
    /// when no pending game holds the code, and leaves everything
    /// unchanged; likewise, defensively, when either final name is
    /// already playing or the code already names an active game.
    pub fn join_game(&mut self, game_id: &str, player_name: String) -> (r: Option<JoinedGame>)
        requires
            old(self).wf(),
        ensures
            final(self).wf(),
            !old(self).pending_map().contains_key(game_id@) ==> (r is None && *final(self) == *old(self)),
            old(self).pending_map().contains_key(game_id@) ==> ({
                let host = old(self).pending_map()[game_id@].host.display_name@;
                let guest = discriminated(player_name@, host);
                &&& ((old(self).registry.players_map().contains_key(host) || old(self).registry.players_map().contains_key(guest) || old(self).registry.games_map().contains_key(game_id@)) ==> (r is None && *final(self)
                    == *old(self)))
                &&& ((!old(self).registry.players_map().contains_key(host) && !old(self).registry.players_map().contains_key(guest) && !old(self).registry.games_map().contains_key(game_id@)) ==> ({
                    &&& r matches Some(joined) && joined.game_id@ == game_id@
                        && joined.host_name@ == host && joined.guest_name@ == guest
                    &&& final(self).pending_map() =~= old(self).pending_map().remove(game_id@)
                    &&& final(self).registry.games_map().contains_key(game_id@)
                    &&& ({
                        let s = final(self).registry.games_map()[game_id@];
                        s.player1@ == host && s.player2@ == guest && s.scores == (0u32, 0u32)
                            && s.current_round is None
                    })
                    &&& final(self).registry.games_map().remove(game_id@) =~= old(self).registry.games_map()
                    &&& final(self).registry.players_map() =~= old(self).registry.players_map().insert(host, game_id@).insert(guest, game_id@)
                }))
            }),
    {
        let ghost old_pending = self.pending@;
        proof {
            lemma_assoc_contains(old_pending);
        }
        let i = match assoc_find(&self.pending, game_id) {
            None => {
                return None;
            },
            Some(i) => i,
        };
        proof {
            lemma_assoc_index(old_pending, i as int);
        }
        let host_name = self.pending[i].1.host.display_name.clone();
        let same = string_eq_str(&host_name, player_name.as_str());
        let guest_name = if same {
            proof {
                reveal_strlit(" (2)");
            }
            player_name.concat(" (2)")
        } else {
            player_name
        };
        if self.registry.game_id_of(host_name.as_str()).is_some() {
            return None;
        }
        if self.registry.game_id_of(guest_name.as_str()).is_some() {
            return None;
        }
        if self.registry.has_game(game_id) {
            return None;
        }
        proof {
            lemma_assoc_remove(old_pending, i as int);
            assert(guest_name@ != host_name@) by {
                reveal_strlit(" (2)");
            }
        }
        let entry = self.pending.remove(i);
        let code_key = entry.0;
        let out = JoinedGame {
            game_id: code_key.clone(),
            host_name: host_name.clone(),
            guest_name: guest_name.clone(),
        };
        self.registry.create_session_with_id(code_key, host_name, guest_name);
        Some(out)
    }

    /// Handle a player's disconnect: remove them from their active
    /// game (pending games are untouched) and hand back the opponent
    /// to notify. Safe to call twice: the second call finds nothing.
    pub fn handle_disconnect(&mut self, user_id: &str) -> (r: Option<DisconnectInfo>)
        requires
            old(self).wf(),
        ensures
            final(self).wf(),
            final(self).pending_map() == old(self).pending_map(),
            final(self).pending_seq() == old(self).pending_seq(),
            !old(self).registry.players_map().contains_key(user_id@) ==> (r is None && final(self).registry == old(self).registry),
            old(self).registry.players_map().contains_key(user_id@) ==> ({
                let gid = old(self).registry.player_gid(user_id@);
                let s = old(self).registry.games_map()[gid];
                let opp = if s.player1@ == user_id@ {
                    s.player2@
                } else {
                    s.player1@
                };
                &&& r matches Some(info) && info.game_id@ == gid && info.session == s
                    && info.opponent_id@ == opp
                &&& final(self).registry.games_map() =~= old(self).registry.games_map().remove(gid)
                &&& final(self).registry.players_map() =~= old(self).registry.players_map().remove(user_id@).remove(opp)
            }),
    {
        self.registry.remove_player_from_game(user_id)
    }

    /// A read-only snapshot of the pending games no older than the
    /// maximum age: pure projection, no mutation.
    pub fn list_pending_games(&self, now_ms: u64, max_age_secs: u64) -> (r: LobbyList)
        ensures
            r.games@ == lobby_snapshot(self.pending_seq(), now_ms, max_age_secs),
    {
        let mut games: Vec<LobbyGame> = Vec::new();
        let mut i: usize = 0;
        while i < self.pending.len()
            invariant
                i <= self.pending@.len(),
                games@ == lobby_snapshot(self.pending@.take(i as int), now_ms, max_age_secs),
            decreases self.pending@.len() - i,
        {
            let entry = &self.pending[i].1;
            let age: u64 = if entry.created_at_ms <= now_ms {
                (now_ms - entry.created_at_ms) / 1000
            } else {
                0
            };
            proof {
                assert(self.pending@.take(i + 1).drop_last() =~= self.pending@.take(i as int));
                assert(self.pending@.take(i + 1).last() == self.pending@[i as int]);
            }
            if age <= max_age_secs {
                games.push(
                    LobbyGame {
                        game_id: entry.game_id.clone(),
                        host_name: entry.host.display_name.clone(),
                        created_at_secs: age,
                    },
                );
            }
            proof {
                assert(games@ =~= lobby_snapshot(
                    self.pending@.take(i + 1),
                    now_ms,
                    max_age_secs,
                ));
            }
            i = i + 1;
        }
        proof {
            assert(self.pending@.take(self.pending@.len() as int) =~= self.pending@);
        }
        LobbyList { games }
    }
}

} // verus!
