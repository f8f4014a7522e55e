use crate::fmt::{dec_digit, to_dec_u16, to_dec_u32, DecStr};
use vstd::prelude::*;

verus! {

/// Seconds on the clock at the start of a level.
pub const START_TIME: u16 = 400;

/// Frames per tick of the clock.
pub const TIME_TICK_FRAMES: u8 = 22;

/// Points for each second of the clock that runs out.
pub const TIME_BONUS: u32 = 50;

/// Scores from here on wrap round to zero.
pub const SCORE_LIMIT: u32 = 1_000_000;

/// The heads-up display: score and countdown clock.
pub struct TopBarManager {
    pub score: u32,
    pub time: u16,
    pub time_tick: u8,
    pub new_score: Option<u32>,
}

impl TopBarManager {
    /// The score that the next tick commits, if any.
    pub open spec fn pending_score(&self) -> Option<u32> {
        self.new_score
    }

    pub fn new() -> (t: Self)
        ensures
            t.score == 0,
            t.time == START_TIME,
            t.time_tick == 0,
            t.pending_score() == Some(0u32),
    {
        TopBarManager { score: 0, time: START_TIME, time_tick: 0, new_score: Some(0) }
    }

    fn reset_internal(&mut self, score: u32)
        ensures
            final(self).score == score,
            final(self).time == START_TIME,
            final(self).time_tick == 0,
            final(self).pending_score() is None,
    {
        self.time = START_TIME;
        self.time_tick = 0;
        self.new_score = None;
        self.score = score;
    }

    /// Starts a level with `score` and a full clock.
    pub fn reset(&mut self, score: u32)
        ensures
            final(self).score == score,
            final(self).time == START_TIME,
            final(self).time_tick == 0,
            final(self).pending_score() is None,
    {
        self.reset_internal(score);
    }

    /// Starts a level keeping the score.
    pub fn reset_w_score(&mut self)
        ensures
            final(self).score == old(self).score,
            final(self).time == START_TIME,
            final(self).time_tick == 0,
            final(self).pending_score() is None,
    {
        let score = self.score;
        self.reset_internal(score);
    }

    /// Sets the score that the next tick shows.
    pub fn update_score(&mut self, score: u32)
        ensures
            final(self).pending_score() == Some(score),
            final(self).score == old(self).score,
            final(self).time == old(self).time,
            final(self).time_tick == old(self).time_tick,
    {
        self.new_score = Some(score);
    }

    /// Adds `score` to the score that the next tick shows, saturating.
    pub fn add_to_score(&mut self, score: u32)
        ensures
            final(self).pending_score() == Some(
                (match old(self).pending_score() {
                    Some(p) => p,
                    None => old(self).score,
                }).saturating_add(score),
            ),
            final(self).score == old(self).score,
            final(self).time == old(self).time,
            final(self).time_tick == old(self).time_tick,
    {
        let base = match self.new_score {
            Some(p) => p,
            None => self.score,
        };
        self.new_score = Some(base.saturating_add(score));
    }

    /// One frame: every 22 frames the clock loses a second and the score
    /// gains the time bonus; then a pending score is shown, wrapping to
    /// zero from a million on. Returns whether the clock changed.
    pub fn tick(&mut self) -> (time_changed: bool)
        ensures
            time_changed == (old(self).time > 0 && old(self).time_tick >= TIME_TICK_FRAMES),
            time_changed ==> final(self).time == old(self).time - 1 && final(self).time_tick == 0,
            !time_changed ==> final(self).time == old(self).time && final(self).time_tick
                == old(self).time_tick.wrapping_add(1),
            final(self).pending_score() is None,
            ({
                let pending = if time_changed {
                    Some(old(self).score.saturating_add(TIME_BONUS))
                } else {
                    old(self).pending_score()
                };
                final(self).score == match pending {
                    Some(s) => if s >= SCORE_LIMIT {
                        0
                    } else {
                        s
                    },
                    None => old(self).score,
                }
            }),
    {
        let mut time_changed = false;
        if self.time > 0 && self.time_tick >= TIME_TICK_FRAMES {
            self.time -= 1;
            self.new_score = Some(self.score.saturating_add(TIME_BONUS));
            self.time_tick = 0;
            time_changed = true;
        } else {
            self.time_tick = self.time_tick.wrapping_add(1);
        }
        let pending = self.new_score;
        self.new_score = None;
        match pending {
            Some(s) => {
                self.score = if s >= SCORE_LIMIT {
                    0
                } else {
                    s
                };
            },
            None => {},
        }
        time_changed
    }

    /// The score as six ASCII digits.
    pub fn write_score(&self) -> (r: [u8; 6])
        ensures
            forall|j: int| 0 <= j < 6 ==> #[trigger] r@[j] == dec_digit(self.score as nat, (5 - j) as nat),
    {
        to_dec_u32::<6>(self.score)
    }

    /// The clock as three ASCII digits.
    pub fn write_time(&self) -> (r: DecStr<3>)
        ensures
            r.digits().len() == 3,
            forall|j: int| 0 <= j < 3 ==> #[trigger] r.digits()[j] == dec_digit(self.time as nat, (2 - j) as nat),
    {
        to_dec_u16::<3>(self.time)
    }
}

} // verus!
