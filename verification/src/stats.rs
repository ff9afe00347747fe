//! Session statistics whose life curve follows the chart difficulty.
use vstd::prelude::*;
use crate::judgment::{
    JudgmentType, spec_hp_change_easy, spec_hp_change_hard, spec_hp_change_normal,
};
use crate::game_state::{
    clamp_life, record_core, spec_can_record, spec_effective, spec_record_step,
    spec_stats_match,
};
use crate::ojn::Difficulty;

verus! {

/// Score, combo, jam, life and judgment counters of one play.
#[derive(Debug, Clone)]
pub struct GameStats {
    pub score: u32,
    pub combo: u32,
    pub max_combo: u32,
    pub jam_counter: u32,
    pub jam_combo: u32,
    pub max_jam_combo: u32,
    pub cool_count: u32,
    pub good_count: u32,
    pub bad_count: u32,
    pub miss_count: u32,
    pub life: i32,
    pub max_life: i32,
    pub pill_count: u32,
    pub total_notes: u32,
    pub consecutive_cools: u32,
}

/// Life change of a judgment on the given difficulty.
pub open spec fn spec_hp_change(j: JudgmentType, d: Difficulty) -> int {
    match d {
        Difficulty::Easy => spec_hp_change_easy(j),
        Difficulty::Normal => spec_hp_change_normal(j),
        Difficulty::Hard => spec_hp_change_hard(j),
    }
}

impl GameStats {
    /// The same counters viewed as the shared statistics record.
    pub open spec fn as_record(self) -> crate::game_state::GameStats {
        crate::game_state::GameStats {
            score: self.score,
            combo: self.combo,
            max_combo: self.max_combo,
            jam_counter: self.jam_counter,
            jam_combo: self.jam_combo,
            max_jam_combo: self.max_jam_combo,
            cool_count: self.cool_count,
            good_count: self.good_count,
            bad_count: self.bad_count,
            miss_count: self.miss_count,
            life: self.life,
            max_life: self.max_life,
            pill_count: self.pill_count,
            total_notes: self.total_notes,
            consecutive_cools: self.consecutive_cools,
        }
    }

    /// Create a new stats tracker with initial values.
    pub fn new(total_notes: u32, max_life: i32) -> (r: Self)
        ensures
            r.score == 0 && r.combo == 0 && r.max_combo == 0,
            r.jam_counter == 0 && r.jam_combo == 0 && r.max_jam_combo == 0,
            r.cool_count == 0 && r.good_count == 0 && r.bad_count == 0 && r.miss_count == 0,
            r.life == max_life && r.max_life == max_life,
            r.pill_count == 0 && r.total_notes == total_notes && r.consecutive_cools == 0,
    {
        GameStats {
            score: 0,
            combo: 0,
            max_combo: 0,
            jam_counter: 0,
            jam_combo: 0,
            max_jam_combo: 0,
            cool_count: 0,
            good_count: 0,
            bad_count: 0,
            miss_count: 0,
            life: max_life,
            max_life,
            pill_count: 0,
            total_notes,
            consecutive_cools: 0,
        }
    }

    /// Record a judgment with the life curve of `difficulty`; returns the
    /// judgment that was recorded (a used pill turns Bad into Cool).
    pub fn record_judgment(
        &mut self,
        judgment: JudgmentType,
        has_pill: bool,
        difficulty: Difficulty,
    ) -> (e: JudgmentType)
        requires
            spec_can_record(
                old(self).as_record(),
                judgment,
                has_pill,
                spec_hp_change(spec_effective(judgment, has_pill, old(self).pill_count), difficulty),
            ),
        ensures
            e == spec_effective(judgment, has_pill, old(self).pill_count),
            spec_stats_match(
                old(self).as_record(),
                final(self).as_record(),
                spec_record_step(
                    old(self).as_record(),
                    judgment,
                    has_pill,
                    spec_hp_change(e, difficulty),
                ),
            ),
            0 <= final(self).life <= final(self).max_life,
            final(self).jam_counter < 100,
            final(self).max_combo >= final(self).combo,
            final(self).cool_count + final(self).good_count + final(self).bad_count
                + final(self).miss_count == old(self).cool_count + old(self).good_count
                + old(self).bad_count + old(self).miss_count + 1,
    {
        let e = record_core(
            &mut self.score,
            &mut self.combo,
            &mut self.max_combo,
            &mut self.jam_counter,
            &mut self.jam_combo,
            &mut self.max_jam_combo,
            &mut self.cool_count,
            &mut self.good_count,
            &mut self.bad_count,
            &mut self.miss_count,
            &mut self.pill_count,
            &mut self.consecutive_cools,
            judgment,
            has_pill,
        );
        let hp = match difficulty {
            Difficulty::Easy => e.hp_change_easy(),
            Difficulty::Normal => e.hp_change_normal(),
            Difficulty::Hard => e.hp_change_hard(),
        };
        self.life = clamp_life(self.life + hp, self.max_life);
        e
    }

    /// Check if the game is over (life reached 0).
    pub fn is_game_over(&self) -> (r: bool)
        ensures
            r == (self.life <= 0),
    {
        self.life <= 0
    }
}

} // verus!
