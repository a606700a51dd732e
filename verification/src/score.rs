//! Current-round and all-time-high score values.

use vstd::prelude::*;

verus! {

/// The two score cells of the process: the round's captured score and the
/// process-lifetime high score.
#[derive(Clone, Copy, PartialEq, Eq, Structural, Debug)]
pub struct ScoreTracker {
    /// The player's final weight of the round, written exactly once per
    /// entry into the game-over state.
    pub current: u64,
    /// Highest round score seen so far; never decreases.
    pub high: u64,
}

/// The high score after a round that scored `score` against `high`.
pub open spec fn raised_high(high: u64, score: u64) -> u64 {
    if score > high {
        score
    } else {
        high
    }
}

/// The tracker after recording a round that ended with `score`.
pub open spec fn recorded(t: ScoreTracker, score: u64) -> ScoreTracker {
    ScoreTracker { current: score, high: raised_high(t.high, score) }
}

impl ScoreTracker {
    /// Both cells start at zero at process start.
    pub fn new() -> (t: ScoreTracker)
        ensures
            t.current == 0,
            t.high == 0,
    {
        ScoreTracker { current: 0, high: 0 }
    }

    /// Capture the round's final score and raise the high score if it was
    /// beaten. Returns whether this round set a new high score.
    pub fn record_round(&mut self, score: u64) -> (new_high: bool)
        ensures
            *final(self) == recorded(*old(self), score),
            final(self).current == score,
            final(self).high == raised_high(old(self).high, score),
            final(self).high >= old(self).high,
            new_high == (score > old(self).high),
    {
        self.current = score;
        let new_high = score > self.high;
        if new_high {
            self.high = score;
        }
        new_high
    }

    /// Reset the per-round cell for a fresh round; the high score is kept.
    pub fn reset_round(&mut self)
        ensures
            final(self).current == 0,
            final(self).high == old(self).high,
    {
        self.current = 0;
    }
}

/// The tracker after a whole sequence of rounds, each recorded in turn.
pub open spec fn after_rounds(t: ScoreTracker, rounds: Seq<u64>) -> ScoreTracker
    decreases rounds.len(),
{
    if rounds.len() == 0 {
        t
    } else {
        recorded(after_rounds(t, rounds.drop_last()), rounds.last())
    }
}

/// The high score is monotone non-decreasing across any sequence of rounds:
/// after any further rounds are recorded, the high score is at least what it
/// was at any earlier point of the sequence.
pub proof fn lemma_high_score_monotone(t: ScoreTracker, rounds: Seq<u64>, i: int, j: int)
    requires
        0 <= i <= j <= rounds.len(),
    ensures
        after_rounds(t, rounds.take(i)).high <= after_rounds(t, rounds.take(j)).high,
    decreases j - i,
{
    if i < j {
        lemma_high_score_monotone(t, rounds, i, j - 1);
        let prefix = rounds.take(j);
        assert(prefix.drop_last() =~= rounds.take(j - 1));
        assert(after_rounds(t, rounds.take(j)) == recorded(
            after_rounds(t, rounds.take(j - 1)),
            rounds[j - 1],
        ));
    }
}

} // verus!
