//! Registry of active games.
//!
//! The registry owns the authoritative pair of maps: game identifier
//! to session, and player identifier to game identifier. The two maps
//! are kept mutually consistent: every mapped player's game exists
//! and lists that player, and both of a session's players map to the
//! same game identifier. Creation and removal update both maps as one
//! step. The caller serializes access (the transport layer guards the
//! registry); the operations here are plain state transitions.

use vstd::prelude::*;

use crate::assoc::assoc_find;
use crate::assoc::assoc_fold;
use crate::assoc::distinct_keys;
use crate::assoc::lemma_assoc_contains;
use crate::assoc::lemma_assoc_index;
use crate::assoc::lemma_assoc_push;
use crate::assoc::lemma_assoc_remove;
use crate::messages::ServerMessage;
use crate::session::GameSession;
use crate::session::OutcomeModel;
use crate::session::WINS_NEEDED;
use crate::session::SkipResult;
use crate::session::skip_view;
use crate::session::Round;
use crate::session::Word;
use crate::text::string_eq_str;

verus! {

/// Rounds played before the game is decided by score comparison.
pub const MAX_ROUNDS: u32 = 30;

/// The player map a sequence of keyed entries represents.
pub open spec fn players_fold(s: Seq<(String, String)>) -> Map<Seq<char>, Seq<char>>
    decreases s.len(),
{
    if s.len() == 0 {
        Map::empty()
    } else {
        players_fold(s.drop_last()).insert(s.last().0@, s.last().1@)
    }
}

proof fn lemma_players_contains_key(s: Seq<(String, String)>, k: Seq<char>)
    ensures
        players_fold(s).contains_key(k) <==> exists|i: int|
            0 <= i < s.len() && (#[trigger] s[i]).0@ == k,
    decreases s.len(),
{
    if s.len() > 0 {
        lemma_players_contains_key(s.drop_last(), k);
        if k == s.last().0@ {
            assert((s[s.len() - 1]).0@ == k);
        } else {
            if players_fold(s).contains_key(k) {
                let i = choose|i: int|
                    0 <= i < s.drop_last().len() && (#[trigger] s.drop_last()[i]).0@ == k;
                assert((s[i]).0@ == k);
            }
            if exists|i: int| 0 <= i < s.len() && (#[trigger] s[i]).0@ == k {
                let i = choose|i: int| 0 <= i < s.len() && (#[trigger] s[i]).0@ == k;
                assert((s.drop_last()[i]).0@ == k);
            }
        }
    }
}

proof fn lemma_players_contains(s: Seq<(String, String)>)
    ensures
        forall|k: Seq<char>| #[trigger]
            players_fold(s).contains_key(k) <==> exists|i: int|
                0 <= i < s.len() && (#[trigger] s[i]).0@ == k,
{
    assert forall|k: Seq<char>| #[trigger]
        players_fold(s).contains_key(k) <==> exists|i: int|
            0 <= i < s.len() && (#[trigger] s[i]).0@ == k by {
        lemma_players_contains_key(s, k);
    }
}

proof fn lemma_players_index(s: Seq<(String, String)>, i: int)
    requires
        distinct_keys(s),
        0 <= i < s.len(),
    ensures
        players_fold(s).contains_key(s[i].0@),
        players_fold(s)[s[i].0@] == s[i].1@,
    decreases s.len(),
{
    if i < s.len() - 1 {
        lemma_players_index(s.drop_last(), i);
        assert(s.drop_last()[i] == s[i]);
    }
}

proof fn lemma_players_remove(s: Seq<(String, String)>, i: int)
    requires
        distinct_keys(s),
        0 <= i < s.len(),
    ensures
        distinct_keys(s.remove(i)),
        players_fold(s.remove(i)) =~= players_fold(s).remove(s[i].0@),
    decreases s.len(),
{
    lemma_players_contains(s);
    lemma_players_contains(s.remove(i));
    if i == s.len() - 1 {
        assert(s.remove(i) =~= s.drop_last());
        lemma_players_contains(s.drop_last());
    } else {
        assert(s.remove(i).last() == s.last());
        assert(s.remove(i).drop_last() =~= s.drop_last().remove(i));
        lemma_players_remove(s.drop_last(), i);
    }
}

proof fn lemma_players_push(s: Seq<(String, String)>, e: (String, String))
    requires
        distinct_keys(s),
        forall|i: int| 0 <= i < s.len() ==> (#[trigger] s[i]).0@ != e.0@,
    ensures
        distinct_keys(s.push(e)),
        players_fold(s.push(e)) =~= players_fold(s).insert(e.0@, e.1@),
{
    assert(s.push(e).drop_last() =~= s);
    assert forall|i: int, j: int| 0 <= i < j < s.push(e).len() implies (#[trigger] s.push(e)[i]).0@
        != (#[trigger] s.push(e)[j]).0@ by {
        if j < s.len() {
            assert(s.push(e)[i] == s[i] && s.push(e)[j] == s[j]);
        } else {
            assert(s.push(e)[i] == s[i] && s.push(e)[j] == e);
        }
    }
}

/// Relies on uuid::Uuid::new_v4 and its Display implementation: a
/// freshly drawn random identifier rendered in the hyphenated form,
/// which is exactly 36 ASCII characters. Nothing further is assumed
/// of a random value.
#[verifier::external_body]
pub(crate) fn fresh_uuid() -> (r: String)
    ensures
        r@.len() == 36,
{
    uuid::Uuid::new_v4().to_string()
}

/// Result of a correct answer (or a forced timeout) resolving a round.
pub struct AnswerResult {
    /// The round outcome, ready to fan out to both players.
    pub round_result: ServerMessage,
    /// The game's winner by score threshold, if the game just ended.
    pub game_winner: Option<String>,
    /// The ordinal number of the round that was resolved.
    pub round_number: u32,
}

/// Info returned when a player is removed from a game on disconnect.
pub struct DisconnectInfo {
    pub game_id: String,
    pub session: GameSession,
    pub opponent_id: String,
}

/// What follows a resolved round: the game ends with a winner (or a
/// draw), the next round starts, or the game is already gone.
#[derive(Debug, PartialEq)]
pub enum ContinueDecision {
    Ended { winner: Option<String> },
    NextRound { number: u32 },
    GameGone,
}

/// One full round of play, in general: on a live round, the correct
/// reading submitted by a player resolves the round with that player
/// as its winner and the canonical reading in the outcome, and clears
/// the live round. While the winner's new score and the opponent's
/// score both stay below the threshold, the game still has no winner,
/// so for a round below the cap `continue_or_end_game`'s contract
/// makes the decision `NextRound` with the following ordinal, and
/// `start_round`'s contract then establishes that round. The message
/// fan-out around these steps belongs to the transport.
pub proof fn lemma_round_flow_continues(s: GameSession, user: Seq<char>)
    requires
        s.current_round is Some,
        s.current_round->0.number < MAX_ROUNDS,
        s.spec_has_player(user),
        s.player1@ == user ==> s.scores.0 + 1 < WINS_NEEDED,
        s.player1@ != user ==> s.scores.1 + 1 < WINS_NEEDED,
        s.scores.0 < WINS_NEEDED,
        s.scores.1 < WINS_NEEDED,
    ensures
        ({
            let reading = s.current_round->0.word.reading@;
            let (s1, out) = s.spec_submit_answer(user, reading);
            let resolved = GameSession {
                player1: s1.player1,
                player2: s1.player2,
                scores: s1.spec_record_win(user),
                current_round: s1.current_round,
            };
            &&& out == Some((OutcomeModel { winner: Some(user), correct: reading }))
            &&& s1.current_round is None
            &&& resolved.spec_game_winner() is None
        }),
{
}

/// Disconnect handling is idempotent: removing a player erases their
/// mapping (and their opponent's), so a repeat of the removal finds
/// the player unmapped and, by `remove_player_from_game`'s contract,
/// returns nothing and changes nothing — the opponent can never be
/// notified twice.
pub proof fn lemma_disconnect_idempotent(
    pm: Map<Seq<char>, Seq<char>>,
    user: Seq<char>,
    opp: Seq<char>,
)
    ensures
        !pm.remove(user).remove(opp).contains_key(user),
        !pm.remove(user).remove(opp).contains_key(opp),
{
}

/// The two registry maps agree: every mapped player's game exists and
/// lists the player, and both of a session's players map to its game.
pub open spec fn maps_consistent(
    pm: Map<Seq<char>, Seq<char>>,
    gm: Map<Seq<char>, GameSession>,
) -> bool {
    &&& forall|p: Seq<char>| #[trigger] pm.contains_key(p) ==> {
        &&& gm.contains_key(pm[p])
        &&& gm[pm[p]].spec_has_player(p)
    }
    &&& forall|g: Seq<char>| #[trigger] gm.contains_key(g) ==> {
        &&& pm.contains_key(gm[g].player1@)
        &&& pm[gm[g].player1@] == g
        &&& pm.contains_key(gm[g].player2@)
        &&& pm[gm[g].player2@] == g
    }
}

/// Replacing a session with one over the same two players keeps the
/// maps consistent.
proof fn lemma_consistent_replace(
    pm: Map<Seq<char>, Seq<char>>,
    gm: Map<Seq<char>, GameSession>,
    k: Seq<char>,
    v: GameSession,
)
    requires
        maps_consistent(pm, gm),
        gm.contains_key(k),
        v.player1@ == gm[k].player1@,
        v.player2@ == gm[k].player2@,
    ensures
        maps_consistent(pm, gm.insert(k, v)),
{
    let gm1 = gm.insert(k, v);
    assert forall|p: Seq<char>| #[trigger] pm.contains_key(p) implies {
        &&& gm1.contains_key(pm[p])
        &&& gm1[pm[p]].spec_has_player(p)
    } by {
        if pm[p] == k {
            assert(gm[k].spec_has_player(p));
        }
    }
}

/// Shared game-state management used by both the invite-code and the
/// matchmaking modes.
pub struct GameRegistry {
    games: Vec<(String, GameSession)>,
    player_games: Vec<(String, String)>,
}

impl GameRegistry {
    /// Map from game identifier to its session.
    pub closed spec fn games_map(&self) -> Map<Seq<char>, GameSession> {
        assoc_fold(self.games@)
    }

    /// Map from player identifier to the game the player is in.
    pub closed spec fn players_map(&self) -> Map<Seq<char>, Seq<char>> {
        players_fold(self.player_games@)
    }

    /// The game identifier a player maps to.
    pub open spec fn player_gid(&self, p: Seq<char>) -> Seq<char> {
        self.players_map()[p]
    }

    /// The session of the game a player maps to.
    pub open spec fn session_of_player(&self, p: Seq<char>) -> GameSession {
        self.games_map()[self.player_gid(p)]
    }

    /// The two maps agree: every mapped player's game exists and lists
    /// the player, and both of a session's players map to its game.
    pub open spec fn consistent(&self) -> bool {
        maps_consistent(self.players_map(), self.games_map())
    }

    /// Well-formed registry: distinct keys under each map, and the two
    /// maps mutually consistent.
    pub closed spec fn wf(&self) -> bool {
        &&& distinct_keys(self.games@)
        &&& distinct_keys(self.player_games@)
        &&& self.consistent()
    }

    /// `wf` guarantees consistency; published so callers can use the
    /// invariant without seeing the representation.
    pub proof fn lemma_wf_consistent(&self)
        requires
            self.wf(),
        ensures
            self.consistent(),
    {
    }

    pub fn new() -> (r: Self)
        ensures
            r.wf(),
            r.games_map() =~= Map::<Seq<char>, GameSession>::empty(),
            r.players_map() =~= Map::<Seq<char>, Seq<char>>::empty(),
    {
        Self { games: Vec::new(), player_games: Vec::new() }
    }

    /// Whether a game with this identifier exists.
    pub fn has_game(&self, game_id: &str) -> (r: bool)
        requires
            self.wf(),
        ensures
            r == self.games_map().contains_key(game_id@),
    {
        proof {
            lemma_assoc_contains(self.games@);
        }
        assoc_find(&self.games, game_id).is_some()
    }

    /// The game the player currently maps to, if any.
    pub fn game_id_of(&self, user_id: &str) -> (r: Option<String>)
        requires
            self.wf(),
        ensures
            r is Some <==> self.players_map().contains_key(user_id@),
            r matches Some(g) ==> g@ == self.player_gid(user_id@),
    {
        proof {
            lemma_players_contains(self.player_games@);
        }
        match assoc_find(&self.player_games, user_id) {
            None => None,
            Some(i) => {
                proof {
                    lemma_players_index(self.player_games@, i as int);
                }
                Some(self.player_games[i].1.clone())
            },
        }
    }

    /// Both players of a game, in slot order.
    pub fn players_of_game(&self, game_id: &str) -> (r: Option<(String, String)>)
        requires
            self.wf(),
        ensures
            r is Some <==> self.games_map().contains_key(game_id@),
            r matches Some(ps) ==> {
                &&& ps.0@ == self.games_map()[game_id@].player1@
                &&& ps.1@ == self.games_map()[game_id@].player2@
            },
    {
        proof {
            lemma_assoc_contains(self.games@);
        }
        match assoc_find(&self.games, game_id) {
            None => None,
            Some(i) => {
                proof {
                    lemma_assoc_index(self.games@, i as int);
                }
                let session = &self.games[i].1;
                Some((session.player1.clone(), session.player2.clone()))
            },
        }
    }

    /// Insert a fresh session under the given identifier and map both
    /// players to it, as one step: readers of the registry only ever
    /// see both maps updated or neither.
    pub fn create_session_with_id(&mut self, game_id: String, player_a: String, player_b: String)
        requires
            old(self).wf(),
            !old(self).games_map().contains_key(game_id@),
            !old(self).players_map().contains_key(player_a@),
            !old(self).players_map().contains_key(player_b@),
        ensures
            final(self).wf(),
            final(self).games_map() =~= old(self).games_map().insert(
                game_id@,
                (GameSession {
                    player1: player_a,
                    player2: player_b,
                    scores: (0u32, 0u32),
                    current_round: None,
                }),
            ),
            final(self).players_map() =~= old(self).players_map().insert(
                player_a@,
                game_id@,
            ).insert(player_b@, game_id@),
    {
        let ghost old_games = self.games@;
        let ghost old_pg = self.player_games@;
        proof {
            lemma_assoc_contains(old_games);
            lemma_players_contains(old_pg);
        }
        let gid_a = game_id.clone();
        let gid_b = game_id.clone();
        let pa = player_a.clone();
        let pb = player_b.clone();
        let same = string_eq_str(&player_a, player_b.as_str());
        let session = GameSession::new(player_a, player_b);
        self.games.push((game_id, session));
        proof {
            lemma_assoc_push(old_games, self.games@.last());
        }
        self.player_games.push((pa, gid_a));
        proof {
            lemma_players_push(old_pg, self.player_games@.last());
        }
        let ghost mid_pg = self.player_games@;
        if !same {
            self.player_games.push((pb, gid_b));
            proof {
                assert forall|i: int| 0 <= i < mid_pg.len() implies (#[trigger] mid_pg[i]).0@
                    != pb@ by {
                    if i < mid_pg.len() - 1 {
                        assert(old_pg[i] == mid_pg[i]);
                    }
                }
                lemma_players_push(mid_pg, self.player_games@.last());
            }
        }
        proof {
            let pm0 = players_fold(old_pg);
            let gm0 = assoc_fold(old_games);
            let pm1 = self.players_map();
            let gm1 = self.games_map();
            assert(pm1 =~= pm0.insert(player_a@, game_id@).insert(player_b@, game_id@));
            assert(gm1 =~= gm0.insert(game_id@, self.games@.last().1));
            assert forall|p: Seq<char>| #[trigger] pm1.contains_key(p) implies {
                &&& gm1.contains_key(pm1[p])
                &&& gm1[pm1[p]].spec_has_player(p)
            } by {
                if p != player_a@ && p != player_b@ {
                    assert(pm0.contains_key(p));
                    assert(pm0[p] != game_id@);
                }
            }
            assert forall|g: Seq<char>| #[trigger] gm1.contains_key(g) implies {
                &&& pm1.contains_key(gm1[g].player1@)
                &&& pm1[gm1[g].player1@] == g
                &&& pm1.contains_key(gm1[g].player2@)
                &&& pm1[gm1[g].player2@] == g
            } by {
                if g != game_id@ {
                    assert(gm0.contains_key(g));
                    assert(pm0.contains_key(gm0[g].player1@));
                    assert(pm0.contains_key(gm0[g].player2@));
                    assert(gm0[g].player1@ != player_a@ && gm0[g].player1@ != player_b@);
                    assert(gm0[g].player2@ != player_a@ && gm0[g].player2@ != player_b@);
                }
            }
        }
    }

    /// Allocate a fresh game identifier, insert a session for the two
    /// players under it, and return it. Identifiers are drawn at
    /// random; a draw that collides with an existing game is retried,
    /// and only the (statistically negligible) exhaustion of the
    /// bounded retries yields `None`, leaving the registry unchanged.
    pub fn create_session(&mut self, player_a: String, player_b: String) -> (r: Option<String>)
        requires
            old(self).wf(),
            !old(self).players_map().contains_key(player_a@),
            !old(self).players_map().contains_key(player_b@),
        ensures
            final(self).wf(),
            r is None ==> *final(self) == *old(self),
            r matches Some(gid) ==> {
                &&& !old(self).games_map().contains_key(gid@)
                &&& final(self).games_map() =~= old(self).games_map().insert(
                    gid@,
                    (GameSession {
                        player1: player_a,
                        player2: player_b,
                        scores: (0u32, 0u32),
                        current_round: None,
                    }),
                )
                &&& final(self).players_map() =~= old(self).players_map().insert(
                    player_a@,
                    gid@,
                ).insert(player_b@, gid@)
            },
    {
        let mut found: Option<String> = None;
        let mut attempt: usize = 0;
        while attempt < 10000 && found.is_none()
            invariant
                self.wf(),
                *self == *old(self),
                found matches Some(g) ==> !self.games_map().contains_key(g@),
            decreases 10000 - attempt,
        {
            let gid = fresh_uuid();
            if !self.has_game(gid.as_str()) {
                found = Some(gid);
            }
            attempt = attempt + 1;
        }
        match found {
            None => None,
            Some(gid) => {
                let out = gid.clone();
                self.create_session_with_id(gid, player_a, player_b);
                Some(out)
            },
        }
    }

    /// Remove a player from their game on disconnect: both player
    /// mappings and the session go in one step, and the opponent's
    /// identity comes back so the caller can notify them exactly
    /// once. A second call for the same player finds no mapping and
    /// is a no-op.
    pub fn remove_player_from_game(&mut self, user_id: &str) -> (r: Option<DisconnectInfo>)
        requires
            old(self).wf(),
        ensures
            final(self).wf(),
            !old(self).players_map().contains_key(user_id@) ==> (r is None && *final(self) == *old(
                self,
            )),
            old(self).players_map().contains_key(user_id@) ==> ({
                let gid = old(self).player_gid(user_id@);
                let s = old(self).games_map()[gid];
                let opp = if s.player1@ == user_id@ {
                    s.player2@
                } else {
                    s.player1@
                };
                &&& r matches Some(info) && info.game_id@ == gid && info.session == s
                    && info.opponent_id@ == opp
                &&& final(self).games_map() =~= old(self).games_map().remove(gid)
                &&& final(self).players_map() =~= old(self).players_map().remove(user_id@).remove(
                    opp,
                )
            }),
    {
        let ghost old_pg = self.player_games@;
        let ghost old_games = self.games@;
        proof {
            lemma_players_contains(old_pg);
            lemma_assoc_contains(old_games);
        }
        let i = match assoc_find(&self.player_games, user_id) {
            None => {
                return None;
            },
            Some(i) => i,
        };
        proof {
            lemma_players_index(old_pg, i as int);
            lemma_players_remove(old_pg, i as int);
        }
        let entry = self.player_games.remove(i);
        let gid = entry.1;
        let ghost pg1 = self.player_games@;
        let j = match assoc_find(&self.games, gid.as_str()) {
            None => {
                // Unreachable: under `wf` every mapped player's game exists.
                proof {
                    assert(false);
                }
                return None;
            },
            Some(j) => j,
        };
        proof {
            lemma_assoc_index(old_games, j as int);
            lemma_assoc_remove(old_games, j as int);
        }
        let game_entry = self.games.remove(j);
        let session = game_entry.1;
        let opponent_id = if string_eq_str(&session.player1, user_id) {
            session.player2.clone()
        } else {
            session.player1.clone()
        };
        proof {
            lemma_players_contains(pg1);
        }
        match assoc_find(&self.player_games, opponent_id.as_str()) {
            None => {
                proof {
                    assert(players_fold(pg1) =~= players_fold(old_pg).remove(user_id@));
                    assert(players_fold(pg1).remove(opponent_id@) =~= players_fold(pg1));
                }
            },
            Some(k) => {
                proof {
                    lemma_players_remove(pg1, k as int);
                    lemma_players_index(pg1, k as int);
                }
                self.player_games.remove(k);
            },
        }
        proof {
            let pm0 = players_fold(old_pg);
            let gm0 = assoc_fold(old_games);
            let pm1 = self.players_map();
            let gm1 = self.games_map();
            let g = gid@;
            let s = gm0[g];
            let opp = opponent_id@;
            assert(pm1 =~= pm0.remove(user_id@).remove(opp));
            assert(gm1 =~= gm0.remove(g));
            assert forall|p: Seq<char>| #[trigger] pm1.contains_key(p) implies {
                &&& gm1.contains_key(pm1[p])
                &&& gm1[pm1[p]].spec_has_player(p)
            } by {
                assert(pm0.contains_key(p) && p != user_id@ && p != opp);
                assert(pm0[p] != g) by {
                    if pm0[p] == g {
                        assert(s.spec_has_player(p));
                    }
                }
            }
            assert forall|q: Seq<char>| #[trigger] gm1.contains_key(q) implies {
                &&& pm1.contains_key(gm1[q].player1@)
                &&& pm1[gm1[q].player1@] == q
                &&& pm1.contains_key(gm1[q].player2@)
                &&& pm1[gm1[q].player2@] == q
            } by {
                assert(gm0.contains_key(q) && q != g);
                assert(gm0[q].player1@ != user_id@ && gm0[q].player1@ != opp) by {
                    assert(pm0[gm0[q].player1@] == q);
                    assert(pm0.contains_key(user_id@) && pm0[user_id@] == g);
                    assert(pm0.contains_key(opp) && pm0[opp] == g);
                }
                assert(gm0[q].player2@ != user_id@ && gm0[q].player2@ != opp) by {
                    assert(pm0[gm0[q].player2@] == q);
                    assert(pm0.contains_key(user_id@) && pm0[user_id@] == g);
                    assert(pm0.contains_key(opp) && pm0[opp] == g);
                }
            }
        }
        Some(DisconnectInfo { game_id: gid, session, opponent_id })
    }

    /// Remove a finished game and both of its players' mappings, as
    /// one step. A no-op when the game is already gone.
    pub fn cleanup_game(&mut self, game_id: &str)
        requires
            old(self).wf(),
        ensures
            final(self).wf(),
            !old(self).games_map().contains_key(game_id@) ==> *final(self) == *old(self),
            old(self).games_map().contains_key(game_id@) ==> ({
                let s = old(self).games_map()[game_id@];
                &&& final(self).games_map() =~= old(self).games_map().remove(game_id@)
                &&& final(self).players_map() =~= old(self).players_map().remove(
                    s.player1@,
                ).remove(s.player2@)
            }),
    {
        let ghost old_pg = self.player_games@;
        let ghost old_games = self.games@;
        proof {
            lemma_players_contains(old_pg);
            lemma_assoc_contains(old_games);
        }
        let j = match assoc_find(&self.games, game_id) {
            None => {
                return ;
            },
            Some(j) => j,
        };
        proof {
            lemma_assoc_index(old_games, j as int);
            lemma_assoc_remove(old_games, j as int);
        }
        let game_entry = self.games.remove(j);
        let session = game_entry.1;
        let i = match assoc_find(&self.player_games, session.player1.as_str()) {
            None => {
                // Unreachable: under `wf` both of a session's players are mapped.
                proof {
                    assert(false);
                }
                return ;
            },
            Some(i) => i,
        };
        proof {
            lemma_players_index(old_pg, i as int);
            lemma_players_remove(old_pg, i as int);
        }
        self.player_games.remove(i);
        let ghost pg1 = self.player_games@;
        proof {
            lemma_players_contains(pg1);
        }
        match assoc_find(&self.player_games, session.player2.as_str()) {
            None => {
                proof {
                    assert(players_fold(pg1).remove(session.player2@) =~= players_fold(pg1));
                }
            },
            Some(k) => {
                proof {
                    lemma_players_remove(pg1, k as int);
                    lemma_players_index(pg1, k as int);
                }
                self.player_games.remove(k);
            },
        }
        proof {
            let pm0 = players_fold(old_pg);
            let gm0 = assoc_fold(old_games);
            let pm1 = self.players_map();
            let gm1 = self.games_map();
            let g = game_id@;
            let s = gm0[g];
            assert(pm1 =~= pm0.remove(s.player1@).remove(s.player2@));
            assert(gm1 =~= gm0.remove(g));
            assert forall|p: Seq<char>| #[trigger] pm1.contains_key(p) implies {
                &&& gm1.contains_key(pm1[p])
                &&& gm1[pm1[p]].spec_has_player(p)
            } by {
                assert(pm0.contains_key(p) && p != s.player1@ && p != s.player2@);
                assert(pm0[p] != g) by {
                    if pm0[p] == g {
                        assert(s.spec_has_player(p));
                    }
                }
            }
            assert forall|q: Seq<char>| #[trigger] gm1.contains_key(q) implies {
                &&& pm1.contains_key(gm1[q].player1@)
                &&& pm1[gm1[q].player1@] == q
                &&& pm1.contains_key(gm1[q].player2@)
                &&& pm1[gm1[q].player2@] == q
            } by {
                assert(gm0.contains_key(q) && q != g);
                assert(gm0[q].player1@ != s.player1@ && gm0[q].player1@ != s.player2@) by {
                    assert(pm0[gm0[q].player1@] == q);
                    assert(pm0.contains_key(s.player1@) && pm0[s.player1@] == g);
                    assert(pm0.contains_key(s.player2@) && pm0[s.player2@] == g);
                }
                assert(gm0[q].player2@ != s.player1@ && gm0[q].player2@ != s.player2@) by {
                    assert(pm0[gm0[q].player2@] == q);
                    assert(pm0.contains_key(s.player1@) && pm0[s.player1@] == g);
                    assert(pm0.contains_key(s.player2@) && pm0[s.player2@] == g);
                }
            }
        }
    }

    /// The score pair of the game the player is in, if any.
    pub fn scores_of(&self, user_id: &str) -> (r: Option<(u32, u32)>)
        requires
            self.wf(),
        ensures
            r is Some <==> self.players_map().contains_key(user_id@),
            r matches Some(sc) ==> sc == self.session_of_player(user_id@).scores,
    {
        proof {
            lemma_players_contains(self.player_games@);
            lemma_assoc_contains(self.games@);
        }
        match assoc_find(&self.player_games, user_id) {
            None => None,
            Some(i) => {
                proof {
                    lemma_players_index(self.player_games@, i as int);
                }
                let gid = self.player_games[i].1.clone();
                match assoc_find(&self.games, gid.as_str()) {
                    None => {
                        // Unreachable: under `wf` every mapped player's game exists.
                        proof {
                            assert(false);
                        }
                        None
                    },
                    Some(j) => {
                        proof {
                            lemma_assoc_index(self.games@, j as int);
                        }
                        Some(self.games[j].1.scores())
                    },
                }
            },
        }
    }

    /// Submit an answer for the player's game. On a correct answer
    /// the round resolves with the player as winner, the win is
    /// recorded, and the result carries the game-over status and the
    /// resolved round's number; a wrong answer, a missing round, or a
    /// player in no game changes nothing.
    pub fn submit_answer(&mut self, user_id: &str, answer: &str) -> (r: Option<AnswerResult>)
        requires
            old(self).wf(),
            old(self).players_map().contains_key(user_id@) ==> ({
                let s = old(self).session_of_player(user_id@);
                s.scores.0 < u32::MAX && s.scores.1 < u32::MAX
            }),
        ensures
            final(self).wf(),
            final(self).players_map() == old(self).players_map(),
            !old(self).players_map().contains_key(user_id@) ==> (r is None && *final(self) == *old(
                self,
            )),
            old(self).players_map().contains_key(user_id@) ==> ({
                let gid = old(self).player_gid(user_id@);
                let s = old(self).games_map()[gid];
                let step = s.spec_submit_answer(user_id@, answer@);
                &&& (step.1 is None ==> (r is None && final(self).games_map() =~= old(
                    self,
                ).games_map()))
                &&& (step.1 matches Some(om) ==> ({
                    let resolved = GameSession {
                        player1: step.0.player1,
                        player2: step.0.player2,
                        scores: step.0.spec_record_win(user_id@),
                        current_round: step.0.current_round,
                    };
                    &&& final(self).games_map() =~= old(self).games_map().insert(gid, resolved)
                    &&& (r matches Some(ar) && ({
                        &&& (ar.round_result matches ServerMessage::RoundResult {
                            winner,
                            correct_reading,
                        } && winner.deep_view() == Some(user_id@) && correct_reading@ == om.correct)
                        &&& ar.game_winner.deep_view() == resolved.spec_game_winner()
                        &&& ar.round_number == s.current_round->0.number
                    }))
                }))
            }),
    {
        let ghost old_pg = self.player_games@;
        let ghost old_games = self.games@;
        proof {
            lemma_players_contains(old_pg);
            lemma_assoc_contains(old_games);
        }
        let i = match assoc_find(&self.player_games, user_id) {
            None => {
                return None;
            },
            Some(i) => i,
        };
        proof {
            lemma_players_index(old_pg, i as int);
        }
        let gid = self.player_games[i].1.clone();
        let j = match assoc_find(&self.games, gid.as_str()) {
            None => {
                // Unreachable: under `wf` every mapped player's game exists.
                proof {
                    assert(false);
                }
                return None;
            },
            Some(j) => j,
        };
        proof {
            lemma_assoc_index(old_games, j as int);
            lemma_assoc_remove(old_games, j as int);
        }
        let entry = self.games.remove(j);
        let gid_key = entry.0;
        let mut session = entry.1;
        let round_number = session.current_round_number();
        let outcome = session.submit_answer(user_id, answer);
        proof {
            lemma_assoc_contains(self.games@);
        }
        match outcome {
            None => {
                let ghost pre_push = self.games@;
                self.games.push((gid_key, session));
                proof {
                    lemma_assoc_push(pre_push, self.games@.last());
                    assert(self.games_map() =~= assoc_fold(old_games));
                }
                None
            },
            Some(out) => {
                session.record_win(user_id);
                let game_winner = winner_owned(&session);
                let rn = match round_number {
                    Some(n) => n,
                    None => {
                        // Unreachable: a round just resolved, so one was live.
                        proof {
                            assert(false);
                        }
                        0
                    },
                };
                let ghost pre_push = self.games@;
                self.games.push((gid_key, session));
                proof {
                    lemma_assoc_push(pre_push, self.games@.last());
                    lemma_consistent_replace(
                        players_fold(old_pg),
                        assoc_fold(old_games),
                        gid@,
                        self.games@.last().1,
                    );
                    assert(self.games_map() =~= assoc_fold(old_games).insert(
                        gid@,
                        self.games@.last().1,
                    ));
                }
                Some(
                    AnswerResult {
                        round_result: ServerMessage::RoundResult {
                            winner: out.winner,
                            correct_reading: out.correct_reading,
                        },
                        game_winner,
                        round_number: rn,
                    },
                )
            },
        }
    }

    /// Resolve a fired round timeout. The round-number guard makes a
    /// stale timer inert: if the game is gone, no round is live, or
    /// the live round is not the one the timer was armed for, nothing
    /// changes and nothing is reported. Otherwise the round resolves
    /// with no winner.
    pub fn handle_round_timeout(&mut self, game_id: &str, round_number: u32) -> (r: Option<
        AnswerResult,
    >)
        requires
            old(self).wf(),
        ensures
            final(self).wf(),
            final(self).players_map() == old(self).players_map(),
            ({
                ||| !old(self).games_map().contains_key(game_id@)
                ||| old(self).games_map()[game_id@].current_round is None
                ||| (old(self).games_map()[game_id@].current_round matches Some(rd) && rd.number
                    != round_number)
            }) ==> (r is None && *final(self) == *old(self)),
            (old(self).games_map().contains_key(game_id@) && (old(
                self,
            ).games_map()[game_id@].current_round matches Some(rd) && rd.number == round_number))
                ==> ({
                let s = old(self).games_map()[game_id@];
                &&& final(self).games_map() =~= old(self).games_map().insert(
                    game_id@,
                    s.with_round(None),
                )
                &&& (r matches Some(ar) && ({
                    &&& (ar.round_result matches ServerMessage::RoundResult {
                        winner,
                        correct_reading,
                    } && winner is None && correct_reading@ == s.current_round->0.word.reading@)
                    &&& ar.game_winner.deep_view() == s.spec_game_winner()
                    &&& ar.round_number == round_number
                }))
            }),
    {
        let ghost old_pg = self.player_games@;
        let ghost old_games = self.games@;
        proof {
            lemma_assoc_contains(old_games);
        }
        let j = match assoc_find(&self.games, game_id) {
            None => {
                return None;
            },
            Some(j) => j,
        };
        proof {
            lemma_assoc_index(old_games, j as int);
        }
        let stale = match self.games[j].1.current_round_number() {
            None => true,
            Some(n) => n != round_number,
        };
        if stale {
            return None;
        }
        proof {
            lemma_assoc_remove(old_games, j as int);
        }
        let entry = self.games.remove(j);
        let gid_key = entry.0;
        let mut session = entry.1;
        let outcome = session.timeout_round();
        let out = match outcome {
            Some(o) => o,
            None => {
                // Unreachable: the guard above saw this very round live.
                proof {
                    assert(false);
                }
                return None;
            },
        };
        let game_winner = winner_owned(&session);
        proof {
            lemma_assoc_contains(self.games@);
        }
        let ghost pre_push = self.games@;
        self.games.push((gid_key, session));
        proof {
            lemma_assoc_push(pre_push, self.games@.last());
            lemma_consistent_replace(
                players_fold(old_pg),
                assoc_fold(old_games),
                game_id@,
                self.games@.last().1,
            );
            assert(self.games_map() =~= assoc_fold(old_games).insert(
                game_id@,
                self.games@.last().1,
            ));
        }
        Some(
            AnswerResult {
                round_result: ServerMessage::RoundResult {
                    winner: out.winner,
                    correct_reading: out.correct_reading,
                },
                game_winner,
                round_number,
            },
        )
    }

    /// Establish a fresh round in the given game. Returns true only
    /// when the game exists and had no live round; a live round is
    /// never overwritten.
    pub fn start_round(&mut self, game_id: &str, round_number: u32, word: Word) -> (r: bool)
        requires
            old(self).wf(),
        ensures
            final(self).wf(),
            final(self).players_map() == old(self).players_map(),
            !old(self).games_map().contains_key(game_id@) ==> (r == false && *final(self) == *old(
                self,
            )),
            old(self).games_map().contains_key(game_id@) ==> ({
                let s = old(self).games_map()[game_id@];
                &&& (s.current_round is Some ==> (r == false && final(self).games_map() =~= old(
                    self,
                ).games_map()))
                &&& (s.current_round is None ==> (r == true && final(self).games_map() =~= old(
                    self,
                ).games_map().insert(
                    game_id@,
                    s.with_round(
                        Some(
                            (Round {
                                number: round_number,
                                word: word,
                                player1_skipped: false,
                                player2_skipped: false,
                            }),
                        ),
                    ),
                )))
            }),
    {
        let ghost old_pg = self.player_games@;
        let ghost old_games = self.games@;
        proof {
            lemma_assoc_contains(old_games);
        }
        let j = match assoc_find(&self.games, game_id) {
            None => {
                return false;
            },
            Some(j) => j,
        };
        proof {
            lemma_assoc_index(old_games, j as int);
            lemma_assoc_remove(old_games, j as int);
        }
        let entry = self.games.remove(j);
        let gid_key = entry.0;
        let mut session = entry.1;
        let fresh = session.current_round.is_none();
        session.start_round(round_number, word);
        proof {
            lemma_assoc_contains(self.games@);
        }
        let ghost pre_push = self.games@;
        self.games.push((gid_key, session));
        proof {
            lemma_assoc_push(pre_push, self.games@.last());
            lemma_consistent_replace(
                players_fold(old_pg),
                assoc_fold(old_games),
                game_id@,
                self.games@.last().1,
            );
            assert(self.games_map() =~= assoc_fold(old_games).insert(
                game_id@,
                self.games@.last().1,
            ));
        }
        fresh
    }

    /// Record a skip by the player in their game: the skip flags
    /// advance exactly as the session's own skip transition says, and
    /// a player in no game changes nothing.
    pub fn record_skip(&mut self, user_id: &str) -> (r: Option<SkipResult>)
        requires
            old(self).wf(),
        ensures
            final(self).wf(),
            final(self).players_map() == old(self).players_map(),
            !old(self).players_map().contains_key(user_id@) ==> (r is None && *final(self) == *old(
                self,
            )),
            old(self).players_map().contains_key(user_id@) ==> ({
                let gid = old(self).player_gid(user_id@);
                let s = old(self).games_map()[gid];
                let step = s.spec_record_skip(user_id@);
                &&& final(self).games_map() =~= old(self).games_map().insert(gid, step.0)
                &&& skip_view(r) == step.1
            }),
    {
        let ghost old_pg = self.player_games@;
        let ghost old_games = self.games@;
        proof {
            lemma_players_contains(old_pg);
            lemma_assoc_contains(old_games);
        }
        let i = match assoc_find(&self.player_games, user_id) {
            None => {
                return None;
            },
            Some(i) => i,
        };
        proof {
            lemma_players_index(old_pg, i as int);
        }
        let gid = self.player_games[i].1.clone();
        let j = match assoc_find(&self.games, gid.as_str()) {
            None => {
                // Unreachable: under `wf` every mapped player's game exists.
                proof {
                    assert(false);
                }
                return None;
            },
            Some(j) => j,
        };
        proof {
            lemma_assoc_index(old_games, j as int);
            lemma_assoc_remove(old_games, j as int);
        }
        let entry = self.games.remove(j);
        let gid_key = entry.0;
        let mut session = entry.1;
        let result = session.record_skip(user_id);
        proof {
            lemma_assoc_contains(self.games@);
        }
        let ghost pre_push = self.games@;
        self.games.push((gid_key, session));
        proof {
            lemma_assoc_push(pre_push, self.games@.last());
            lemma_consistent_replace(
                players_fold(old_pg),
                assoc_fold(old_games),
                gid@,
                self.games@.last().1,
            );
            assert(self.games_map() =~= assoc_fold(old_games).insert(
                gid@,
                self.games@.last().1,
            ));
        }
        result
    }

    /// The live round's ordinal number in the given game, if any.
    pub fn current_round_number_of(&self, game_id: &str) -> (r: Option<u32>)
        requires
            self.wf(),
        ensures
            !self.games_map().contains_key(game_id@) ==> r is None,
            self.games_map().contains_key(game_id@) ==> r == (match self.games_map()[game_id@]
                .current_round {
                None => None::<u32>,
                Some(rd) => Some(rd.number),
            }),
    {
        proof {
            lemma_assoc_contains(self.games@);
        }
        match assoc_find(&self.games, game_id) {
            None => None,
            Some(j) => {
                proof {
                    lemma_assoc_index(self.games@, j as int);
                }
                self.games[j].1.current_round_number()
            },
        }
    }

    /// The continue-or-end decision taken after every resolved round:
    /// a scored winner ends the game; at the round cap the game ends
    /// by score comparison, a tie being a draw; otherwise the next
    /// round follows. A vanished game ends the chain.
    pub fn continue_or_end_game(
        &self,
        game_id: &str,
        game_winner: Option<String>,
        round_number: u32,
    ) -> (r: ContinueDecision)
        requires
            self.wf(),
        ensures
            game_winner is Some ==> r == (ContinueDecision::Ended { winner: game_winner }),
            game_winner is None && !self.games_map().contains_key(game_id@) ==> r
                == ContinueDecision::GameGone,
            game_winner is None && self.games_map().contains_key(game_id@) && round_number
                < MAX_ROUNDS ==> r == (ContinueDecision::NextRound {
                number: (round_number + 1) as u32,
            }),
            game_winner is None && self.games_map().contains_key(game_id@) && round_number
                >= MAX_ROUNDS ==> ({
                let s = self.games_map()[game_id@];
                &&& (s.scores.0 > s.scores.1 ==> (r matches ContinueDecision::Ended { winner }
                    && winner.deep_view() == Some(s.player1@)))
                &&& (s.scores.0 < s.scores.1 ==> (r matches ContinueDecision::Ended { winner }
                    && winner.deep_view() == Some(s.player2@)))
                &&& (s.scores.0 == s.scores.1 ==> r == (ContinueDecision::Ended {
                    winner: None::<String>,
                }))
            }),
    {
        if game_winner.is_some() {
            return ContinueDecision::Ended { winner: game_winner };
        }
        proof {
            lemma_assoc_contains(self.games@);
        }
        match assoc_find(&self.games, game_id) {
            None => ContinueDecision::GameGone,
            Some(j) => {
                proof {
                    lemma_assoc_index(self.games@, j as int);
                }
                if round_number >= MAX_ROUNDS {
                    let session = &self.games[j].1;
                    if session.scores.0 > session.scores.1 {
                        ContinueDecision::Ended { winner: Some(session.player1.clone()) }
                    } else if session.scores.0 < session.scores.1 {
                        ContinueDecision::Ended { winner: Some(session.player2.clone()) }
                    } else {
                        ContinueDecision::Ended { winner: None }
                    }
                } else {
                    ContinueDecision::NextRound { number: round_number + 1 }
                }
            },
        }
    }
}

/// The game's winner by score threshold, as an owned value.
fn winner_owned(session: &GameSession) -> (r: Option<String>)
    ensures
        r.deep_view() == session.spec_game_winner(),
{
    if session.scores.0 >= crate::session::WINS_NEEDED {
        Some(session.player1.clone())
    } else if session.scores.1 >= crate::session::WINS_NEEDED {
        Some(session.player2.clone())
    } else {
        None
    }
}

/// Cleanup hook invoked after a game ends, kept behind a small trait
/// so callers that only schedule cleanup need not see the registry.
pub trait CleanupGame {
    /// The state the hook's implementor maintains.
    spec fn cleanup_inv(&self) -> bool;

    /// Remove every trace of the given game.
    fn cleanup(&mut self, game_id: &str)
        requires
            old(self).cleanup_inv(),
        ensures
            final(self).cleanup_inv(),
    ;
}

impl CleanupGame for GameRegistry {
    open spec fn cleanup_inv(&self) -> bool {
        self.wf()
    }

    fn cleanup(&mut self, game_id: &str) {
        self.cleanup_game(game_id);
    }
}

} // verus!
