//! Score, combo, jam and life bookkeeping of a play session.
use vstd::prelude::*;
use crate::judgment::{JudgmentType, cool_score_with_jam_bonus, good_score_with_jam_bonus, spec_hp_change_hard};

verus! {

/// Game statistics tracking: score, combo, life, judgment counts.
#[derive(Debug, Clone)]
pub struct GameStats {
    /// Current score
    pub score: u32,
    /// Current combo counter (resets on BAD/MISS)
    pub combo: u32,
    /// Maximum combo achieved during the game
    pub max_combo: u32,
    /// Jam counter: +4 for COOL, +2 for GOOD, +0 for BAD/MISS
    pub jam_counter: u32,
    /// Jam combo: every 100 jam_counter = 1 jam combo (the multiplier)
    pub jam_combo: u32,
    /// Maximum jam combo
    pub max_jam_combo: u32,
    /// Number of COOL judgments
    pub cool_count: u32,
    /// Number of GOOD judgments
    pub good_count: u32,
    /// Number of BAD judgments
    pub bad_count: u32,
    /// Number of MISS judgments
    pub miss_count: u32,
    /// Current life/health (starts at max_life, game over at 0)
    pub life: i32,
    /// Maximum life
    pub max_life: i32,
    /// Number of pills/buffers collected (1 per 15 consecutive Cools, max 5)
    pub pill_count: u32,
    /// Total number of playable notes in the chart
    pub total_notes: u32,
    /// Consecutive Cools counter (for buffer/pill awards, resets on Good/Miss)
    pub consecutive_cools: u32,
}

// ---------------------------------------------------------------------------
// The recording rules, one spec function per counter.
// ---------------------------------------------------------------------------

/// A pill turns a Bad into a Cool when one is available and offered.
pub open spec fn spec_uses_pill(j: JudgmentType, has_pill: bool, pill_count: u32) -> bool {
    has_pill && j == JudgmentType::Bad && pill_count > 0
}

/// The judgment that is actually recorded.
pub open spec fn spec_effective(j: JudgmentType, has_pill: bool, pill_count: u32) -> JudgmentType {
    if spec_uses_pill(j, has_pill, pill_count) {
        JudgmentType::Cool
    } else {
        j
    }
}

/// The bonus score of a Cool or Good fits in a `u32`.
pub open spec fn spec_bonus_fits(e: JudgmentType, jam_combo: u32) -> bool {
    match e {
        JudgmentType::Cool => 200 + jam_combo * 10 <= u32::MAX,
        JudgmentType::Good => 100 + jam_combo * 5 <= u32::MAX,
        _ => true,
    }
}

/// Score of one note as a signed 32-bit value (the jam bonus is computed as
/// `u32` and reinterpreted as `i32`).
pub open spec fn spec_note_score(e: JudgmentType, jam_combo: u32) -> i32 {
    match e {
        JudgmentType::Cool => ((200 + jam_combo * 10) as u32) as i32,
        JudgmentType::Good => ((100 + jam_combo * 5) as u32) as i32,
        JudgmentType::Bad => 4i32,
        JudgmentType::Miss => -10i32,
    }
}

/// New score: the note score is added, a penalty saturates at zero.
pub open spec fn spec_new_score(score: u32, note_score: i32) -> int {
    if score + note_score < 0 {
        0
    } else {
        score + note_score
    }
}

/// No Cool or Good has been recorded and the combo is zero.
pub open spec fn spec_first_hit(combo: u32, cool_count: u32, good_count: u32) -> bool {
    combo == 0 && cool_count == 0 && good_count == 0
}

/// Combo after the judgment.
pub open spec fn spec_new_combo(e: JudgmentType, combo: u32, first_hit: bool) -> int {
    match e {
        JudgmentType::Cool | JudgmentType::Good => if first_hit {
            combo as int
        } else {
            combo + 1
        },
        _ => 0,
    }
}

/// Consecutive Cools after the judgment.
pub open spec fn spec_new_consecutive(e: JudgmentType, cons: u32, first_hit: bool) -> int {
    match e {
        JudgmentType::Cool => if first_hit {
            cons as int
        } else {
            cons + 1
        },
        JudgmentType::Good => 0,
        JudgmentType::Bad => cons as int,
        JudgmentType::Miss => 0,
    }
}

/// Jam counter before the overflow into jam combos.
pub open spec fn spec_jam_counter_raw(e: JudgmentType, jam_counter: u32) -> int {
    match e {
        JudgmentType::Cool => jam_counter + 4,
        JudgmentType::Good => jam_counter + 2,
        _ => 0,
    }
}

/// Jam combo before the overflow of the jam counter.
pub open spec fn spec_jam_combo_raw(e: JudgmentType, jam_combo: u32) -> int {
    match e {
        JudgmentType::Cool | JudgmentType::Good => jam_combo as int,
        _ => 0,
    }
}

/// Pills after one is used and after the award for 15 consecutive Cools.
pub open spec fn spec_new_pills(pills_after_use: int, cons: int) -> int {
    if cons > 0 && cons % 15 == 0 {
        let expected = if cons / 15 < 5 {
            cons / 15
        } else {
            5
        };
        if expected > pills_after_use {
            expected
        } else {
            pills_after_use
        }
    } else {
        pills_after_use
    }
}

/// Life after a change, clamped into `0..=max_life`.
pub open spec fn spec_clamp_life(life: int, max_life: int) -> int {
    if life < 0 {
        0
    } else if life > max_life {
        max_life
    } else {
        life
    }
}

/// Every counter stays within machine range while recording `e` (an
/// overflow would panic, so these inputs are left out).
pub open spec fn spec_record_fits(
    score: u32,
    combo: u32,
    jam_counter: u32,
    jam_combo: u32,
    cool_count: u32,
    good_count: u32,
    bad_count: u32,
    miss_count: u32,
    life: i32,
    consecutive_cools: u32,
    e: JudgmentType,
    hp: int,
) -> bool {
    &&& spec_bonus_fits(e, jam_combo)
    &&& spec_new_score(score, spec_note_score(e, jam_combo)) <= u32::MAX
    &&& (e == JudgmentType::Cool ==> cool_count < u32::MAX)
    &&& (e == JudgmentType::Good ==> good_count < u32::MAX)
    &&& (e == JudgmentType::Bad ==> bad_count < u32::MAX)
    &&& (e == JudgmentType::Miss ==> miss_count < u32::MAX)
    &&& spec_new_combo(e, combo, spec_first_hit(combo, cool_count, good_count)) <= u32::MAX
    &&& spec_new_consecutive(e, consecutive_cools, spec_first_hit(combo, cool_count, good_count))
        <= u32::MAX
    &&& spec_jam_counter_raw(e, jam_counter) <= u32::MAX
    &&& spec_jam_combo_raw(e, jam_combo) + spec_jam_counter_raw(e, jam_counter) / 100 <= u32::MAX
    &&& i32::MIN <= life + hp <= i32::MAX
}

/// The integer part of recording one judgment, shared by both statistics
/// types: returns the new values of every counter. `hp_of` gives the life
/// change of the recorded judgment.
pub struct StatsStep {
    pub effective: JudgmentType,
    pub score: int,
    pub combo: int,
    pub max_combo: int,
    pub jam_counter: int,
    pub jam_combo: int,
    pub max_jam_combo: int,
    pub cool_count: int,
    pub good_count: int,
    pub bad_count: int,
    pub miss_count: int,
    pub pill_count: int,
    pub consecutive_cools: int,
    pub life: int,
}

/// What one recorded judgment does to every counter.
pub open spec fn spec_record_step(
    s: GameStats,
    j: JudgmentType,
    has_pill: bool,
    hp: int,
) -> StatsStep {
    let e = spec_effective(j, has_pill, s.pill_count);
    let first = spec_first_hit(s.combo, s.cool_count, s.good_count);
    let combo = spec_new_combo(e, s.combo, first);
    let cons = spec_new_consecutive(e, s.consecutive_cools, first);
    let raw = spec_jam_counter_raw(e, s.jam_counter);
    let jc = spec_jam_combo_raw(e, s.jam_combo) + raw / 100;
    let pills0 = if spec_uses_pill(j, has_pill, s.pill_count) {
        s.pill_count - 1
    } else {
        s.pill_count as int
    };
    StatsStep {
        effective: e,
        score: spec_new_score(s.score, spec_note_score(e, s.jam_combo)),
        combo,
        max_combo: if combo > s.max_combo {
            combo
        } else {
            s.max_combo as int
        },
        jam_counter: raw % 100,
        jam_combo: jc,
        max_jam_combo: if raw >= 100 && jc > s.max_jam_combo {
            jc
        } else {
            s.max_jam_combo as int
        },
        cool_count: s.cool_count + if e == JudgmentType::Cool {
            1int
        } else {
            0
        },
        good_count: s.good_count + if e == JudgmentType::Good {
            1int
        } else {
            0
        },
        bad_count: s.bad_count + if e == JudgmentType::Bad {
            1int
        } else {
            0
        },
        miss_count: s.miss_count + if e == JudgmentType::Miss {
            1int
        } else {
            0
        },
        pill_count: spec_new_pills(pills0, cons),
        consecutive_cools: cons,
        life: spec_clamp_life(s.life + hp, s.max_life as int),
    }
}

/// The Cool streak and the pills: a Bad recorded without a pill leaves the
/// streak as it was; a Good or a Miss ends it; a Cool after the first hit
/// extends it by one, and a Bad turned into a Cool by a pill spends that
/// pill before the award. Whenever the streak after a judgment is a positive
/// multiple of 15, at least one pill per 15 (up to 5) is held.
pub proof fn lemma_cool_streak(s: GameStats, j: JudgmentType, has_pill: bool, hp: int)
    ensures
        ({
            let st = spec_record_step(s, j, has_pill, hp);
            let first = s.combo == 0 && s.cool_count == 0 && s.good_count == 0;
            &&& (j == JudgmentType::Bad && !(has_pill && s.pill_count > 0)) ==> st.consecutive_cools
                == s.consecutive_cools && st.bad_count == s.bad_count + 1 && st.pill_count >= s.pill_count
            &&& (j == JudgmentType::Good || j == JudgmentType::Miss) ==> st.consecutive_cools == 0
            &&& (j == JudgmentType::Cool && !first) ==> st.consecutive_cools == s.consecutive_cools + 1
            &&& (j == JudgmentType::Cool && first) ==> st.consecutive_cools == s.consecutive_cools
            &&& (j == JudgmentType::Bad && has_pill && s.pill_count > 0 && !first)
                ==> st.consecutive_cools == s.consecutive_cools + 1 && st.cool_count == s.cool_count + 1
            &&& (st.consecutive_cools > 0 && st.consecutive_cools % 15 == 0) ==> st.pill_count >= (
                if st.consecutive_cools / 15 < 5 {
                    st.consecutive_cools / 15
                } else {
                    5
                })
        }),
{
}

/// The statistics `t` are the result of the step `st` applied to `s`
/// (fields the step does not touch are unchanged).
pub open spec fn spec_stats_match(s: GameStats, t: GameStats, st: StatsStep) -> bool {
    &&& t.score == st.score
    &&& t.combo == st.combo
    &&& t.max_combo == st.max_combo
    &&& t.jam_counter == st.jam_counter
    &&& t.jam_combo == st.jam_combo
    &&& t.max_jam_combo == st.max_jam_combo
    &&& t.cool_count == st.cool_count
    &&& t.good_count == st.good_count
    &&& t.bad_count == st.bad_count
    &&& t.miss_count == st.miss_count
    &&& t.pill_count == st.pill_count
    &&& t.consecutive_cools == st.consecutive_cools
    &&& t.life == st.life
    &&& t.max_life == s.max_life
    &&& t.total_notes == s.total_notes
}

/// Recording is possible without any counter leaving its machine range.
pub open spec fn spec_can_record(s: GameStats, j: JudgmentType, has_pill: bool, hp: int) -> bool {
    let e = spec_effective(j, has_pill, s.pill_count);
    &&& s.max_life >= 0
    &&& spec_record_fits(
        s.score,
        s.combo,
        s.jam_counter,
        s.jam_combo,
        s.cool_count,
        s.good_count,
        s.bad_count,
        s.miss_count,
        s.life,
        s.consecutive_cools,
        e,
        hp,
    )
}

impl GameStats {
    /// Create a new stats tracker with initial values.
    pub fn new(total_notes: u32, max_life: i32) -> (r: Self)
        ensures
            r.score == 0 && r.combo == 0 && r.max_combo == 0,
            r.jam_counter == 0 && r.jam_combo == 0 && r.max_jam_combo == 0,
            r.cool_count == 0 && r.good_count == 0 && r.bad_count == 0 && r.miss_count == 0,
            r.life == max_life && r.max_life == max_life,
            r.pill_count == 0 && r.total_notes == total_notes && r.consecutive_cools == 0,
    {
        GameStats {
            score: 0,
            combo: 0,
            max_combo: 0,
            jam_counter: 0,
            jam_combo: 0,
            max_jam_combo: 0,
            cool_count: 0,
            good_count: 0,
            bad_count: 0,
            miss_count: 0,
            life: max_life,
            max_life,
            pill_count: 0,
            total_notes,
            consecutive_cools: 0,
        }
    }

    /// Record a judgment result and update all counters (Hard life curve).
    ///
    /// If `has_pill` is true and the judgment is Bad, an available pill
    /// converts it to Cool and is consumed. Score is computed from the jam
    /// combo before the jam counter moves.
    pub fn record_judgment(&mut self, judgment: JudgmentType, has_pill: bool)
        requires
            spec_can_record(
                *old(self),
                judgment,
                has_pill,
                spec_hp_change_hard(spec_effective(judgment, has_pill, old(self).pill_count)),
            ),
        ensures
            spec_stats_match(
                *old(self),
                *final(self),
                spec_record_step(
                    *old(self),
                    judgment,
                    has_pill,
                    spec_hp_change_hard(spec_effective(judgment, has_pill, old(self).pill_count)),
                ),
            ),
            0 <= final(self).life <= final(self).max_life,
            final(self).jam_counter < 100,
            final(self).max_combo >= final(self).combo,
    {
        let e = record_core(
            &mut self.score,
            &mut self.combo,
            &mut self.max_combo,
            &mut self.jam_counter,
            &mut self.jam_combo,
            &mut self.max_jam_combo,
            &mut self.cool_count,
            &mut self.good_count,
            &mut self.bad_count,
            &mut self.miss_count,
            &mut self.pill_count,
            &mut self.consecutive_cools,
            judgment,
            has_pill,
        );
        let hp = e.hp_change_hard();
        self.life = clamp_life(self.life + hp, self.max_life);
    }

    /// Check if the game is over (life reached 0).
    pub fn is_game_over(&self) -> (r: bool)
        ensures
            r == (self.life <= 0),
    {
        self.life <= 0
    }
}

/// A `u32` other than 2^31 does not reinterpret as `i32::MIN`.
proof fn lemma_not_min_after_cast(x: u32)
    requires
        x != 0x8000_0000u32,
    ensures
        (x as i32) != i32::MIN,
{
    assert(x != 0x8000_0000u32 ==> (x as i32) != i32::MIN) by (bit_vector);
}

/// `life` clamped into `0..=max_life`.
pub fn clamp_life(life: i32, max_life: i32) -> (r: i32)
    requires
        max_life >= 0,
    ensures
        r == spec_clamp_life(life as int, max_life as int),
{
    if life < 0 {
        0
    } else if life > max_life {
        max_life
    } else {
        life
    }
}

/// Apply one judgment to every counter except life; returns the judgment
/// that was recorded.
#[verifier::rlimit(40)]
pub fn record_core(
    score: &mut u32,
    combo: &mut u32,
    max_combo: &mut u32,
    jam_counter: &mut u32,
    jam_combo: &mut u32,
    max_jam_combo: &mut u32,
    cool_count: &mut u32,
    good_count: &mut u32,
    bad_count: &mut u32,
    miss_count: &mut u32,
    pill_count: &mut u32,
    consecutive_cools: &mut u32,
    judgment: JudgmentType,
    has_pill: bool,
) -> (e: JudgmentType)
    requires
        spec_record_fits(
            *old(score),
            *old(combo),
            *old(jam_counter),
            *old(jam_combo),
            *old(cool_count),
            *old(good_count),
            *old(bad_count),
            *old(miss_count),
            0,
            *old(consecutive_cools),
            spec_effective(judgment, has_pill, *old(pill_count)),
            0,
        ),
    ensures
        e == spec_effective(judgment, has_pill, *old(pill_count)),
        ({
            let first = spec_first_hit(*old(combo), *old(cool_count), *old(good_count));
            let c = spec_new_combo(e, *old(combo), first);
            let cons = spec_new_consecutive(e, *old(consecutive_cools), first);
            let raw = spec_jam_counter_raw(e, *old(jam_counter));
            let jc = spec_jam_combo_raw(e, *old(jam_combo)) + raw / 100;
            let pills0 = if spec_uses_pill(judgment, has_pill, *old(pill_count)) {
                *old(pill_count) - 1
            } else {
                *old(pill_count) as int
            };
            &&& *final(score) == spec_new_score(*old(score), spec_note_score(e, *old(jam_combo)))
            &&& *final(combo) == c
            &&& *final(max_combo) == (if c > *old(max_combo) {
                c
            } else {
                *old(max_combo) as int
            })
            &&& *final(jam_counter) == raw % 100
            &&& *final(jam_combo) == jc
            &&& *final(max_jam_combo) == (if raw >= 100 && jc > *old(max_jam_combo) {
                jc
            } else {
                *old(max_jam_combo) as int
            })
            &&& *final(cool_count) == *old(cool_count) + (if e == JudgmentType::Cool {
                1int
            } else {
                0
            })
            &&& *final(good_count) == *old(good_count) + (if e == JudgmentType::Good {
                1int
            } else {
                0
            })
            &&& *final(bad_count) == *old(bad_count) + (if e == JudgmentType::Bad {
                1int
            } else {
                0
            })
            &&& *final(miss_count) == *old(miss_count) + (if e == JudgmentType::Miss {
                1int
            } else {
                0
            })
            &&& *final(pill_count) == spec_new_pills(pills0, cons)
            &&& *final(consecutive_cools) == cons
        }),
{
    let use_pill = has_pill && judgment == JudgmentType::Bad && *pill_count > 0;
    let effective_judgment = if use_pill {
        *pill_count = *pill_count - 1;
        JudgmentType::Cool
    } else {
        judgment
    };

    let note_score: i32 = match effective_judgment {
        JudgmentType::Cool => {
            let bonus = cool_score_with_jam_bonus(*jam_combo);
            proof {
                lemma_not_min_after_cast(bonus);
            }
            bonus as i32
        },
        JudgmentType::Good => {
            let bonus = good_score_with_jam_bonus(*jam_combo);
            proof {
                lemma_not_min_after_cast(bonus);
            }
            bonus as i32
        },
        JudgmentType::Bad => 4,
        JudgmentType::Miss => -10,
    };
    if note_score >= 0 {
        *score = *score + note_score as u32;
    } else {
        let penalty = (-note_score) as u32;
        *score = score.saturating_sub(penalty);
    }

    let is_first_hit = *combo == 0 && *cool_count == 0 && *good_count == 0;
    match effective_judgment {
        JudgmentType::Cool => {
            *cool_count = *cool_count + 1;
            if !is_first_hit {
                *combo = *combo + 1;
                *consecutive_cools = *consecutive_cools + 1;
            }
            *jam_counter = *jam_counter + 4;
        },
        JudgmentType::Good => {
            *good_count = *good_count + 1;
            if !is_first_hit {
                *combo = *combo + 1;
            }
            *consecutive_cools = 0;
            *jam_counter = *jam_counter + 2;
        },
        JudgmentType::Bad => {
            *bad_count = *bad_count + 1;
            *combo = 0;
            *jam_counter = 0;
            *jam_combo = 0;
        },
        JudgmentType::Miss => {
            *miss_count = *miss_count + 1;
            *combo = 0;
            *jam_counter = 0;
            *jam_combo = 0;
            *consecutive_cools = 0;
        },
    }

    // Overflow of the jam counter into jam combos.
    let ghost raw: int = *jam_counter as int;
    let ghost jc0: int = *jam_combo as int;
    let ghost max0: int = *old(max_jam_combo) as int;
    let ghost mut k: int = 0;
    while *jam_counter >= 100
        invariant
            0 <= k,
            *jam_counter == raw - 100 * k,
            *jam_combo == jc0 + k,
            jc0 + raw / 100 <= u32::MAX,
            raw >= 0,
            k == 0 ==> *max_jam_combo == max0,
            k > 0 ==> *max_jam_combo == (if *jam_combo > max0 {
                *jam_combo as int
            } else {
                max0
            }),
        decreases *jam_counter,
    {
        proof {
            assert(k + 1 <= raw / 100) by (nonlinear_arith)
                requires
                    raw - 100 * k >= 100,
                    k >= 0,
            ;
        }
        *jam_counter = *jam_counter - 100;
        *jam_combo = *jam_combo + 1;
        if *jam_combo > *max_jam_combo {
            *max_jam_combo = *jam_combo;
        }
        proof {
            k = k + 1;
        }
    }
    proof {
        assert(k == raw / 100 && *jam_counter == raw % 100) by (nonlinear_arith)
            requires
                *jam_counter == raw - 100 * k,
                0 <= *jam_counter < 100,
                k >= 0,
        ;
    }

    if *combo > *max_combo {
        *max_combo = *combo;
    }

    if *consecutive_cools > 0 && *consecutive_cools % 15 == 0 {
        let quotient = *consecutive_cools / 15;
        let expected_buffers = if quotient < 5 {
            quotient
        } else {
            5
        };
        if expected_buffers > *pill_count {
            *pill_count = expected_buffers;
        }
    }
    effective_judgment
}


/// Pills are capped at five: recording a judgment never takes a pill count
/// of at most 5 above 5.
pub proof fn lemma_pills_capped(s: GameStats, j: JudgmentType, has_pill: bool, hp: int)
    requires
        s.pill_count <= 5,
    ensures
        spec_record_step(s, j, has_pill, hp).pill_count <= 5,
{
}

/// A used pill turns a Bad into a Cool and costs exactly one pill; otherwise
/// the judgment and the pill count are kept (before awards).
pub proof fn lemma_pill_use(s: GameStats, j: JudgmentType, has_pill: bool)
    ensures
        spec_uses_pill(j, has_pill, s.pill_count) ==> spec_effective(j, has_pill, s.pill_count)
            == JudgmentType::Cool && s.pill_count >= 1,
        !spec_uses_pill(j, has_pill, s.pill_count) ==> spec_effective(j, has_pill, s.pill_count)
            == j,
{
}


/// A recorded judgment that breaks the combo (Bad or Miss, after any pill)
/// resets the combo, the jam counter and the jam combo.
pub proof fn lemma_combo_break_resets(s: GameStats, j: JudgmentType, has_pill: bool, hp: int)
    requires
        crate::judgment::spec_breaks_combo(spec_effective(j, has_pill, s.pill_count)),
    ensures
        spec_record_step(s, j, has_pill, hp).combo == 0,
        spec_record_step(s, j, has_pill, hp).jam_counter == 0,
        spec_record_step(s, j, has_pill, hp).jam_combo == 0,
{
}

/// The maximum combo never falls below the combo it has seen.
pub proof fn lemma_max_combo_tracks_combo(s: GameStats, j: JudgmentType, has_pill: bool, hp: int)
    ensures
        spec_record_step(s, j, has_pill, hp).max_combo >= spec_record_step(s, j, has_pill, hp).combo,
        spec_record_step(s, j, has_pill, hp).max_combo >= s.max_combo,
{
}

} // verus!
