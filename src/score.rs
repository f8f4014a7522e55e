use crate::fmt::{dec_digit, to_dec_u32};
use vstd::prelude::*;

verus! {

/// Largest score shown.
pub const MAX_SCORE: u32 = 999_999;

/// A score counter that shows its score with six digits.
pub struct ScoreManager {
    pub score: u32,
    pub new_score: Option<u32>,
}

impl ScoreManager {
    /// The score that the next tick commits, if any.
    pub open spec fn pending_score(&self) -> Option<u32> {
        self.new_score
    }

    pub fn new() -> (s: Self)
        ensures
            s.score == 0,
            s.pending_score() == Some(0u32),
    {
        ScoreManager { score: 0, new_score: Some(0) }
    }

    fn reset_internal(&mut self, score: u32)
        ensures
            final(self).score == score,
            final(self).pending_score() == old(self).pending_score(),
    {
        self.score = score;
    }

    /// Shows `score`.
    pub fn reset(&mut self, score: u32)
        ensures
            final(self).score == score,
            final(self).pending_score() == old(self).pending_score(),
    {
        self.reset_internal(score);
    }

    /// Shows the score again.
    pub fn reset_w_score(&mut self)
        ensures
            final(self).score == old(self).score,
            final(self).pending_score() == old(self).pending_score(),
    {
        let score = self.score;
        self.reset_internal(score);
    }

    /// Sets the score that the next tick shows.
    pub fn update_score(&mut self, score: u32)
        ensures
            final(self).score == old(self).score,
            final(self).pending_score() == Some(score),
    {
        self.new_score = Some(score);
    }

    /// Adds `score` to the score that the next tick shows, saturating.
    pub fn add_to_score(&mut self, score: u32)
        ensures
            final(self).score == old(self).score,
            final(self).pending_score() == Some(
                (match old(self).pending_score() {
                    Some(p) => p,
                    None => old(self).score,
                }).saturating_add(score),
            ),
    {
        let base = match self.new_score {
            Some(p) => p,
            None => self.score,
        };
        self.new_score = Some(base.saturating_add(score));
    }

    /// Shows the pending score, held at 999999; returns whether the score
    /// shown changed.
    pub fn tick(&mut self) -> (changed: bool)
        ensures
            changed == old(self).pending_score() is Some,
            final(self).pending_score() is None,
            final(self).score == match old(self).pending_score() {
                Some(s) => if s >= MAX_SCORE + 1 {
                    MAX_SCORE
                } else {
                    s
                },
                None => old(self).score,
            },
    {
        let pending = self.new_score;
        self.new_score = None;
        match pending {
            Some(s) => {
                self.score = if s > MAX_SCORE {
                    MAX_SCORE
                } else {
                    s
                };
                true
            },
            None => false,
        }
    }

    /// The score as six ASCII digits.
    pub fn write_score(&self) -> (r: [u8; 6])
        ensures
            forall|j: int| 0 <= j < 6 ==> #[trigger] r@[j] == dec_digit(self.score as nat, (5 - j) as nat),
    {
        to_dec_u32::<6>(self.score)
    }
}

} // verus!
