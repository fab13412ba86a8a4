//! Per-game round state machine.
//!
//! A `GameSession` owns two player identifiers, a score pair, and at
//! most one live `Round`. It advances on a correct answer, on both
//! players skipping, or on a timeout; each live round is resolved
//! exactly once, and a resolving event replayed after resolution is a
//! no-op. All operations are pure state transitions; locking and
//! broadcasting are the caller's concern.

use vstd::prelude::*;

use crate::text::str_eq;
use crate::text::string_eq_str;

verus! {

/// Number of round wins that ends the game.
pub const WINS_NEEDED: u32 = 15;

/// An immutable prompt/answer pair under test in a round.
pub struct Word {
    pub kanji: String,
    pub reading: String,
}

/// A single live round.
pub struct Round {
    pub number: u32,
    pub word: Word,
    pub player1_skipped: bool,
    pub player2_skipped: bool,
}

impl Round {
    /// True exactly when the answer matches the round's accepted reading.
    pub fn check_answer(&self, answer: &str) -> (r: bool)
        ensures
            r == (answer@ == self.word.reading@),
    {
        str_eq(answer, self.word.reading.as_str())
    }
}

/// The result record of a resolved round.
#[derive(Debug, PartialEq)]
pub struct RoundOutcome {
    pub winner: Option<String>,
    pub correct_reading: String,
}

/// Result of a player attempting to skip the live round.
#[derive(Debug, PartialEq)]
pub enum SkipResult {
    /// The player had already skipped this round.
    AlreadySkipped,
    /// Waiting for the opponent to skip as well.
    WaitingForOpponent,
    /// Both players skipped: the round ends with no winner.
    BothSkipped(RoundOutcome),
}

/// View of a round outcome over sequences of characters.
pub struct OutcomeModel {
    pub winner: Option<Seq<char>>,
    pub correct: Seq<char>,
}

/// View of a skip attempt's result over sequences of characters.
pub enum SkipModel {
    AlreadySkipped,
    WaitingForOpponent,
    BothSkipped(OutcomeModel),
}

/// The view of an optional `RoundOutcome`.
pub open spec fn outcome_view(r: Option<RoundOutcome>) -> Option<OutcomeModel> {
    match r {
        None => None,
        Some(o) => Some(
            (OutcomeModel { winner: o.winner.deep_view(), correct: o.correct_reading@ }),
        ),
    }
}

/// The view of an optional `SkipResult`.
pub open spec fn skip_view(r: Option<SkipResult>) -> Option<SkipModel> {
    match r {
        None => None,
        Some(SkipResult::AlreadySkipped) => Some(SkipModel::AlreadySkipped),
        Some(SkipResult::WaitingForOpponent) => Some(SkipModel::WaitingForOpponent),
        Some(SkipResult::BothSkipped(o)) => Some(
            SkipModel::BothSkipped(
                (OutcomeModel { winner: o.winner.deep_view(), correct: o.correct_reading@ }),
            ),
        ),
    }
}

/// A game session between two players: pure logic, no I/O.
pub struct GameSession {
    pub player1: String,
    pub player2: String,
    pub scores: (u32, u32),
    pub current_round: Option<Round>,
}

impl GameSession {
    /// True when the identifier names one of the two configured players.
    pub open spec fn spec_has_player(&self, id: Seq<char>) -> bool {
        self.player1@ == id || self.player2@ == id
    }

    /// The same session with its live round replaced.
    pub open spec fn with_round(self, round: Option<Round>) -> GameSession {
        GameSession {
            player1: self.player1,
            player2: self.player2,
            scores: self.scores,
            current_round: round,
        }
    }

    /// Score pair after one recorded win for the given player.
    pub open spec fn spec_record_win(self, id: Seq<char>) -> (u32, u32) {
        if self.player1@ == id {
            ((self.scores.0 + 1) as u32, self.scores.1)
        } else if self.player2@ == id {
            (self.scores.0, (self.scores.1 + 1) as u32)
        } else {
            self.scores
        }
    }

    /// The game's winner by the score threshold, if any.
    pub open spec fn spec_game_winner(&self) -> Option<Seq<char>> {
        if self.scores.0 >= WINS_NEEDED {
            Some(self.player1@)
        } else if self.scores.1 >= WINS_NEEDED {
            Some(self.player2@)
        } else {
            None
        }
    }

    /// State and outcome view after an answer submission.
    pub open spec fn spec_submit_answer(self, id: Seq<char>, answer: Seq<char>) -> (
        GameSession,
        Option<OutcomeModel>,
    ) {
        match self.current_round {
            None => (self, None),
            Some(round) => if answer != round.word.reading@ {
                (self, None)
            } else {
                (
                    self.with_round(None),
                    Some((OutcomeModel { winner: Some(id), correct: round.word.reading@ })),
                )
            },
        }
    }

    /// State and outcome view after a forced timeout.
    pub open spec fn spec_timeout_round(self) -> (GameSession, Option<OutcomeModel>) {
        match self.current_round {
            None => (self, None),
            Some(round) => (
                self.with_round(None),
                Some((OutcomeModel { winner: None, correct: round.word.reading@ })),
            ),
        }
    }

    /// State and result view after a skip attempt by the given player.
    pub open spec fn spec_record_skip(self, id: Seq<char>) -> (GameSession, Option<SkipModel>) {
        match self.current_round {
            None => (self, None),
            Some(round) => if self.player1@ == id {
                if round.player1_skipped {
                    (self, Some(SkipModel::AlreadySkipped))
                } else if round.player2_skipped {
                    (
                        self.with_round(None),
                        Some(
                            SkipModel::BothSkipped(
                                (OutcomeModel { winner: None, correct: round.word.reading@ }),
                            ),
                        ),
                    )
                } else {
                    (
                        self.with_round(
                            Some(
                                (Round {
                                    number: round.number,
                                    word: round.word,
                                    player1_skipped: true,
                                    player2_skipped: round.player2_skipped,
                                }),
                            ),
                        ),
                        Some(SkipModel::WaitingForOpponent),
                    )
                }
            } else if self.player2@ == id {
                if round.player2_skipped {
                    (self, Some(SkipModel::AlreadySkipped))
                } else if round.player1_skipped {
                    (
                        self.with_round(None),
                        Some(
                            SkipModel::BothSkipped(
                                (OutcomeModel { winner: None, correct: round.word.reading@ }),
                            ),
                        ),
                    )
                } else {
                    (
                        self.with_round(
                            Some(
                                (Round {
                                    number: round.number,
                                    word: round.word,
                                    player1_skipped: round.player1_skipped,
                                    player2_skipped: true,
                                }),
                            ),
                        ),
                        Some(SkipModel::WaitingForOpponent),
                    )
                }
            } else {
                (self, None)
            },
        }
    }

    pub fn new(player1: String, player2: String) -> (r: Self)
        ensures
            r.player1 == player1,
            r.player2 == player2,
            r.scores == (0u32, 0u32),
            r.current_round is None,
    {
        Self { player1, player2, scores: (0, 0), current_round: None }
    }

    pub fn scores(&self) -> (r: (u32, u32))
        ensures
            r == self.scores,
    {
        self.scores
    }

    /// Add one round win to the named player's score; unknown players
    /// leave the scores unchanged.
    pub fn record_win(&mut self, player_id: &str)
        requires
            old(self).player1@ == player_id@ ==> old(self).scores.0 < u32::MAX,
            old(self).player1@ != player_id@ && old(self).player2@ == player_id@ ==> old(
                self,
            ).scores.1 < u32::MAX,
        ensures
            final(self).player1 == old(self).player1,
            final(self).player2 == old(self).player2,
            final(self).current_round == old(self).current_round,
            final(self).scores == old(self).spec_record_win(player_id@),
    {
        if string_eq_str(&self.player1, player_id) {
            self.scores.0 = self.scores.0 + 1;
        } else if string_eq_str(&self.player2, player_id) {
            self.scores.1 = self.scores.1 + 1;
        }
    }

    /// The first player to reach `WINS_NEEDED` round wins takes the game.
    pub fn game_winner(&self) -> (r: Option<&str>)
        ensures
            r is Some <==> self.spec_game_winner() is Some,
            r matches Some(w) ==> self.spec_game_winner() == Some(w@),
    {
        if self.scores.0 >= WINS_NEEDED {
            Some(self.player1.as_str())
        } else if self.scores.1 >= WINS_NEEDED {
            Some(self.player2.as_str())
        } else {
            None
        }
    }

    pub fn has_player(&self, player_id: &str) -> (r: bool)
        ensures
            r == self.spec_has_player(player_id@),
    {
        string_eq_str(&self.player1, player_id) || string_eq_str(&self.player2, player_id)
    }

    /// The other configured player, a pure function of which slot the
    /// identifier occupies.
    pub fn opponent_of(&self, player_id: &str) -> (r: Option<&str>)
        ensures
            self.player1@ == player_id@ ==> (r matches Some(w) && w@ == self.player2@),
            self.player1@ != player_id@ && self.player2@ == player_id@ ==> (r matches Some(w)
                && w@ == self.player1@),
            !self.spec_has_player(player_id@) ==> r is None,
    {
        if string_eq_str(&self.player1, player_id) {
            Some(self.player2.as_str())
        } else if string_eq_str(&self.player2, player_id) {
            Some(self.player1.as_str())
        } else {
            None
        }
    }

    /// Establish a fresh round with clear skip flags. A live round is
    /// never overwritten: the call is a no-op while one is active.
    pub fn start_round(&mut self, round_number: u32, word: Word)
        ensures
            final(self).player1 == old(self).player1,
            final(self).player2 == old(self).player2,
            final(self).scores == old(self).scores,
            old(self).current_round is None ==> final(self).current_round == Some(
                (Round {
                    number: round_number,
                    word: word,
                    player1_skipped: false,
                    player2_skipped: false,
                }),
            ),
            old(self).current_round is Some ==> final(self).current_round == old(
                self,
            ).current_round,
    {
        if self.current_round.is_none() {
            self.current_round = Some(
                Round { number: round_number, word, player1_skipped: false, player2_skipped: false },
            );
        }
    }

    /// Submit an answer. A correct answer resolves the round with the
    /// submitting player as winner; a mismatch, or the absence of a
    /// live round, changes nothing and yields `None`.
    pub fn submit_answer(&mut self, player_id: &str, answer: &str) -> (r: Option<RoundOutcome>)
        ensures
            *final(self) == old(self).spec_submit_answer(player_id@, answer@).0,
            outcome_view(r) == old(self).spec_submit_answer(player_id@, answer@).1,
    {
        let correct = match &self.current_round {
            None => {
                return None;
            },
            Some(round) => {
                if !round.check_answer(answer) {
                    return None;
                }
                round.word.reading.clone()
            },
        };
        self.current_round = None;
        let mut winner = String::new();
        winner.append(player_id);
        Some(RoundOutcome { winner: Some(winner), correct_reading: correct })
    }

    /// Force-resolve the live round with no winner. Safe after the
    /// round was already resolved by another path: no round remains,
    /// so the call yields `None`.
    pub fn timeout_round(&mut self) -> (r: Option<RoundOutcome>)
        ensures
            *final(self) == old(self).spec_timeout_round().0,
            outcome_view(r) == old(self).spec_timeout_round().1,
    {
        match self.current_round.take() {
            None => None,
            Some(round) => Some(
                RoundOutcome { winner: None, correct_reading: round.word.reading },
            ),
        }
    }

    /// Record a skip by the given player: marks the player's flag,
    /// reports a repeat, and ends the round with no winner once both
    /// players have skipped.
    pub fn record_skip(&mut self, player_id: &str) -> (r: Option<SkipResult>)
        ensures
            *final(self) == old(self).spec_record_skip(player_id@).0,
            skip_view(r) == old(self).spec_record_skip(player_id@).1,
    {
        let is_p1 = string_eq_str(&self.player1, player_id);
        let is_p2 = !is_p1 && string_eq_str(&self.player2, player_id);
        let (already_skipped, opponent_skipped) = match &mut self.current_round {
            None => {
                return None;
            },
            Some(round) => {
                if is_p1 {
                    let already: bool = round.player1_skipped;
                    round.player1_skipped = true;
                    (already, round.player2_skipped)
                } else if is_p2 {
                    let already: bool = round.player2_skipped;
                    round.player2_skipped = true;
                    (already, round.player1_skipped)
                } else {
                    return None;
                }
            },
        };
        if already_skipped {
            return Some(SkipResult::AlreadySkipped);
        }
        if opponent_skipped {
            match self.current_round.take() {
                None => None,
                Some(round) => Some(
                    SkipResult::BothSkipped(
                        RoundOutcome { winner: None, correct_reading: round.word.reading },
                    ),
                ),
            }
        } else {
            Some(SkipResult::WaitingForOpponent)
        }
    }

    /// The live round's ordinal number, if any.
    pub fn current_round_number(&self) -> (r: Option<u32>)
        ensures
            r == (match self.current_round {
                None => None::<u32>,
                Some(round) => Some(round.number),
            }),
    {
        match &self.current_round {
            None => None,
            Some(round) => Some(round.number),
        }
    }

    /// The prompt under test, if a round is live.
    pub fn current_kanji(&self) -> (r: Option<&str>)
        ensures
            r is Some <==> self.current_round is Some,
            r matches Some(k) ==> (self.current_round matches Some(round) && k@
                == round.word.kanji@),
    {
        match &self.current_round {
            None => None,
            Some(round) => Some(round.word.kanji.as_str()),
        }
    }

    /// The session after a number of recorded wins for one player.
    pub open spec fn after_wins(self, id: Seq<char>, n: nat) -> GameSession
        decreases n,
    {
        if n == 0 {
            self
        } else {
            let prev = self.after_wins(id, (n - 1) as nat);
            GameSession {
                player1: prev.player1,
                player2: prev.player2,
                scores: prev.spec_record_win(id),
                current_round: prev.current_round,
            }
        }
    }

    /// Accept an externally validated correct answer: resolves the
    /// live round with the given player as winner.
    pub fn accept_correct_answer(&mut self, player_id: &str) -> (r: Option<RoundOutcome>)
        ensures
            *final(self) == old(self).with_round(None),
            old(self).current_round is None ==> (r is None && *final(self) == *old(self)),
            old(self).current_round matches Some(round) ==> outcome_view(r) == Some(
                (OutcomeModel { winner: Some(player_id@), correct: round.word.reading@ }),
            ),
    {
        match self.current_round.take() {
            None => None,
            Some(round) => {
                let mut winner = String::new();
                winner.append(player_id);
                Some(RoundOutcome { winner: Some(winner), correct_reading: round.word.reading })
            },
        }
    }
}


/// With no live round there is nothing to resolve: an answer, a
/// timeout and a skip all return nothing and leave the session as it
/// is.
pub proof fn lemma_resolved_round_absorbs_events(s: GameSession, p: Seq<char>, ans: Seq<char>)
    requires
        s.current_round is None,
    ensures
        s.spec_submit_answer(p, ans) == (s, None::<OutcomeModel>),
        s.spec_timeout_round() == (s, None::<OutcomeModel>),
        s.spec_record_skip(p) == (s, None::<SkipModel>),
{
}

/// Each of the three resolution paths clears the live round the
/// moment it yields an outcome.
pub proof fn lemma_resolution_clears_round(s: GameSession, p: Seq<char>, ans: Seq<char>)
    requires
        s.current_round is Some,
    ensures
        s.spec_submit_answer(p, ans).1 is Some ==> s.spec_submit_answer(p, ans).0.current_round
            is None,
        s.spec_timeout_round().1 is Some && s.spec_timeout_round().0.current_round is None,
        (s.spec_record_skip(p).1 matches Some(SkipModel::BothSkipped(_)))
            ==> s.spec_record_skip(p).0.current_round is None,
{
}

/// A live round is resolved exactly once: whichever of the three
/// paths (correct answer, both skipped, timeout) yields an outcome
/// first, every later answer, timeout or skip on the session yields
/// nothing.
pub proof fn lemma_exactly_once_resolution(
    s: GameSession,
    pa: Seq<char>,
    ans: Seq<char>,
    pb: Seq<char>,
    ans2: Seq<char>,
)
    requires
        s.current_round is Some,
    ensures
        ({
            let (s1, r1) = s.spec_submit_answer(pa, ans);
            r1 is Some ==> {
                &&& s1.spec_submit_answer(pb, ans2).1 is None
                &&& s1.spec_timeout_round().1 is None
                &&& s1.spec_record_skip(pb).1 is None
            }
        }),
        ({
            let (s1, r1) = s.spec_timeout_round();
            &&& r1 is Some
            &&& s1.spec_submit_answer(pb, ans2).1 is None
            &&& s1.spec_timeout_round().1 is None
            &&& s1.spec_record_skip(pb).1 is None
        }),
        ({
            let (s1, r1) = s.spec_record_skip(pa);
            (r1 matches Some(SkipModel::BothSkipped(_))) ==> {
                &&& s1.spec_submit_answer(pb, ans2).1 is None
                &&& s1.spec_timeout_round().1 is None
                &&& s1.spec_record_skip(pb).1 is None
            }
        }),
{
}

/// The score threshold decides the game: from a fresh score pair,
/// recording `WINS_NEEDED` wins for the first player makes them the
/// game's winner, while any smaller number leaves the game undecided.
pub proof fn lemma_score_threshold(s: GameSession, n: nat)
    requires
        s.scores == (0u32, 0u32),
        n <= WINS_NEEDED,
    ensures
        s.after_wins(s.player1@, n).player1 == s.player1,
        s.after_wins(s.player1@, n).player2 == s.player2,
        s.after_wins(s.player1@, n).scores == (n as u32, 0u32),
        n == WINS_NEEDED ==> s.after_wins(s.player1@, n).spec_game_winner() == Some(s.player1@),
        n < WINS_NEEDED ==> s.after_wins(s.player1@, n).spec_game_winner() is None,
    decreases n,
{
    if n > 0 {
        lemma_score_threshold(s, (n - 1) as nat);
    }
}

} // verus!

