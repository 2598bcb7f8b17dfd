//! The rules of a match: whose turn it is, who scores, and when the match
//! is over.

use vstd::prelude::*;

verus! {

/// What a throw ended in.
#[derive(Debug, Clone, Copy, PartialEq, Eq, Structural)]
pub enum ShotOutcome {
    Miss,
    BuildingHit,
    /// The banana hit the gorilla with this index.
    GorillaHit(usize),
}

/// What follows a throw.
#[derive(Debug, Clone, Copy, PartialEq, Eq, Structural)]
pub enum TurnAction {
    /// The round goes on with the other player's throw.
    NextThrow,
    /// The round is over and the player with this index scored.
    RoundWon(usize),
}

/// The score board of a match and whose throw is next.
#[derive(Debug, Clone, Copy)]
pub struct MatchState {
    pub scores: [u32; 2],
    pub target_score: u32,
    /// The index, 0 or 1, of the player who throws next.
    pub toss_turn: usize,
}

/// The player who scores when the thrower `thrower` hits gorilla `hit`: the
/// thrower, unless the banana came back on the thrower's own gorilla.
pub open spec fn scorer_spec(thrower: int, hit: int) -> int {
    if hit == thrower {
        1 - thrower
    } else {
        thrower
    }
}

impl MatchState {
    /// A state is well formed when the next thrower is player 0 or 1.
    pub open spec fn wf(self) -> bool {
        self.toss_turn < 2
    }

    /// The scores and the next thrower, as a board.
    pub open spec fn board_spec(self) -> Board {
        Board { first: self.scores[0] as int, second: self.scores[1] as int, thrower: self.toss_turn as int }
    }

    /// The match is over once a player has reached the target score.
    pub open spec fn over_spec(self) -> bool {
        self.scores[0] >= self.target_score || self.scores[1] >= self.target_score
    }

    /// A match to `target_score` points: no points yet, player 0 throws first.
    pub fn new(target_score: u32) -> (r: MatchState)
        ensures
            r.wf(),
            r.scores@ == seq![0u32, 0u32],
            r.target_score == target_score,
            r.toss_turn == 0,
    {
        let r = MatchState { scores: [0, 0], target_score, toss_turn: 0 };
        assert(r.scores@ =~= seq![0u32, 0u32]);
        r
    }

    /// Whether a player has reached the target score.
    pub fn is_over(&self) -> (r: bool)
        ensures
            r == self.over_spec(),
    {
        self.scores[0] >= self.target_score || self.scores[1] >= self.target_score
    }

    /// Whether the computer makes the next throw: in a one-player match the
    /// computer is player 1.
    pub fn computer_throws(&self, number_of_players: usize) -> (r: bool)
        ensures
            r == (number_of_players == 1 && self.toss_turn == 1),
    {
        number_of_players == 1 && self.toss_turn == 1
    }

    /// Records the outcome of the current player's throw.
    ///
    /// Every throw passes the turn to the other player. A hit on a gorilla
    /// ends the round with one point, for the thrower, or for the other
    /// player when the thrower hit their own gorilla; a miss or a hit on a
    /// building leaves the scores as they were.
    pub fn after_shot(&mut self, outcome: ShotOutcome) -> (r: TurnAction)
        requires
            old(self).wf(),
            outcome matches ShotOutcome::GorillaHit(hit) ==> old(self).scores[
                scorer_spec(old(self).toss_turn as int, hit as int)
            ] < u32::MAX,
        ensures
            final(self).wf(),
            final(self).target_score == old(self).target_score,
            final(self).toss_turn == 1 - old(self).toss_turn,
            match outcome {
                ShotOutcome::GorillaHit(hit) => {
                    let s = scorer_spec(old(self).toss_turn as int, hit as int);
                    &&& r == TurnAction::RoundWon(s as usize)
                    &&& final(self).scores[s] == old(self).scores[s] + 1
                    &&& final(self).scores[1 - s] == old(self).scores[1 - s]
                },
                _ => r == TurnAction::NextThrow && final(self).scores@ == old(self).scores@,
            },
            old(self).scores[0] <= final(self).scores[0],
            old(self).scores[1] <= final(self).scores[1],
            final(self).scores[0] + final(self).scores[1] <= old(self).scores[0] + old(self).scores[1] + 1,
            old(self).board_spec().step(outcome) == final(self).board_spec(),
    {
        let thrower = self.toss_turn;
        self.toss_turn = 1 - thrower;
        match outcome {
            ShotOutcome::GorillaHit(hit) => {
                let scorer: usize = if hit == thrower {
                    1 - thrower
                } else {
                    thrower
                };
                self.scores[scorer] = self.scores[scorer] + 1;
                TurnAction::RoundWon(scorer)
            },
            _ => TurnAction::NextThrow,
        }
    }
}

/// The scores of the two players and the index of the next thrower.
pub struct Board {
    pub first: int,
    pub second: int,
    pub thrower: int,
}

impl Board {
    /// The board after a throw with outcome `outcome`.
    pub open spec fn step(self, outcome: ShotOutcome) -> Board {
        let next = 1 - self.thrower;
        match outcome {
            ShotOutcome::GorillaHit(hit) => if scorer_spec(self.thrower, hit as int) == 0 {
                Board { first: self.first + 1, thrower: next, ..self }
            } else {
                Board { second: self.second + 1, thrower: next, ..self }
            },
            _ => Board { thrower: next, ..self },
        }
    }

    /// A player has reached `target` points.
    pub open spec fn over(self, target: int) -> bool {
        self.first >= target || self.second >= target
    }
}

/// Who scores: a hit on gorilla `hit` gives one point to the owner of the
/// other gorilla, whoever threw, so a banana that falls back on the thrower's
/// own gorilla scores for the opponent; a miss or a building hit scores
/// nothing. Either way the turn passes to the other player.
pub proof fn lemma_point_goes_to_other_gorilla(board: Board, outcome: ShotOutcome)
    requires
        board.thrower == 0 || board.thrower == 1,
        outcome matches ShotOutcome::GorillaHit(hit) ==> hit < 2,
    ensures
        board.step(outcome).thrower == 1 - board.thrower,
        outcome == ShotOutcome::GorillaHit(0) ==> board.step(outcome).first == board.first && board.step(outcome).second
            == board.second + 1,
        outcome == ShotOutcome::GorillaHit(1) ==> board.step(outcome).first == board.first + 1 && board.step(
            outcome,
        ).second == board.second,
        !(outcome is GorillaHit) ==> board.step(outcome).first == board.first && board.step(outcome).second
            == board.second,
{
}

/// The board after the throws `outcomes` of a new match, in order.
pub open spec fn match_run(outcomes: Seq<ShotOutcome>) -> Board
    decreases outcomes.len(),
{
    if outcomes.len() == 0 {
        Board { first: 0, second: 0, thrower: 0 }
    } else {
        match_run(outcomes.drop_last()).step(outcomes.last())
    }
}

/// How many of the throws hit a gorilla.
pub open spec fn gorilla_hits(outcomes: Seq<ShotOutcome>) -> nat
    decreases outcomes.len(),
{
    if outcomes.len() == 0 {
        0
    } else {
        gorilla_hits(outcomes.drop_last()) + (if outcomes.last() is GorillaHit {
            1nat
        } else {
            0nat
        })
    }
}

/// A whole match to `target` points, whose throws are made only while
/// nobody has reached the target: the players throw in turn, player 0
/// first; every gorilla hit scores exactly one point; no score passes the
/// target; and once the match is over, the winner has exactly the target and
/// the other player fewer.
pub proof fn lemma_match_scoring(target: int, outcomes: Seq<ShotOutcome>)
    requires
        target >= 1,
        forall|k: int| 0 <= k < outcomes.len() ==> !(#[trigger] match_run(outcomes.take(k))).over(target),
    ensures
        match_run(outcomes).thrower == outcomes.len() % 2,
        match_run(outcomes).first + match_run(outcomes).second == gorilla_hits(outcomes),
        0 <= match_run(outcomes).first <= target,
        0 <= match_run(outcomes).second <= target,
        match_run(outcomes).over(target) ==> {
            ||| match_run(outcomes).first == target && match_run(outcomes).second < target
            ||| match_run(outcomes).second == target && match_run(outcomes).first < target
        },
    decreases outcomes.len(),
{
    if outcomes.len() > 0 {
        let before = outcomes.drop_last();
        assert forall|k: int| 0 <= k < before.len() implies !(#[trigger] match_run(before.take(k))).over(target) by {
            assert(before.take(k) =~= outcomes.take(k));
        }
        lemma_match_scoring(target, before);
        assert(outcomes.take(before.len() as int) =~= before);
        assert(!match_run(outcomes.take(before.len() as int)).over(target));
    }
}

}
