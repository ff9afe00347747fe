use open2jam::game_state::clamp_life;
use open2jam::judgment::JudgmentType;
use open2jam::ojn::Difficulty;
use open2jam::stats::GameStats;

#[test]
fn game_stats_initial_state() {
    let stats = GameStats::new(100, 1000);
    assert_eq!(stats.score, 0);
    assert_eq!(stats.combo, 0);
    assert_eq!(stats.max_combo, 0);
    assert_eq!(stats.life, 1000);
    assert_eq!(stats.max_life, 1000);
    assert_eq!(stats.total_notes, 100);
    assert_eq!(stats.pill_count, 0);
    assert_eq!(stats.jam_combo, 0);
}

#[test]
fn game_stats_is_not_game_over_at_full_life() {
    let stats = GameStats::new(100, 1000);
    assert!(!stats.is_game_over());
}

#[test]
fn game_stats_is_game_over_at_zero_life() {
    let mut stats = GameStats::new(100, 1000);
    stats.life = 0;
    assert!(stats.is_game_over());
}

#[test]
fn record_cool_increments_cool_count() {
    let mut stats = GameStats::new(100, 1000);
    let result = stats.record_judgment(JudgmentType::Cool, false, Difficulty::Normal);
    assert_eq!(result, JudgmentType::Cool);
    assert_eq!(stats.cool_count, 1);
    assert_eq!(stats.good_count, 0);
    assert_eq!(stats.bad_count, 0);
    assert_eq!(stats.miss_count, 0);
}

#[test]
fn record_cool_adds_to_score() {
    let mut stats = GameStats::new(100, 1000);
    stats.record_judgment(JudgmentType::Cool, false, Difficulty::Normal);
    assert!(stats.score > 0);
}

#[test]
fn record_cool_increments_combo() {
    let mut stats = GameStats::new(100, 1000);
    stats.record_judgment(JudgmentType::Cool, false, Difficulty::Normal);
    assert_eq!(stats.combo, 0);
    stats.record_judgment(JudgmentType::Cool, false, Difficulty::Normal);
    assert_eq!(stats.combo, 1);
}

#[test]
fn record_cool_increments_jam_counter() {
    let mut stats = GameStats::new(100, 1000);
    stats.record_judgment(JudgmentType::Cool, false, Difficulty::Normal);
    assert_eq!(stats.jam_counter, 4);
}

#[test]
fn record_good_increments_good_count() {
    let mut stats = GameStats::new(100, 1000);
    stats.record_judgment(JudgmentType::Good, false, Difficulty::Normal);
    assert_eq!(stats.good_count, 1);
}

#[test]
fn record_good_resets_consecutive_cools() {
    let mut stats = GameStats::new(100, 1000);
    stats.consecutive_cools = 10;
    stats.record_judgment(JudgmentType::Good, false, Difficulty::Normal);
    assert_eq!(stats.consecutive_cools, 0);
}

#[test]
fn record_good_adds_jam_counter_2() {
    let mut stats = GameStats::new(100, 1000);
    stats.record_judgment(JudgmentType::Good, false, Difficulty::Normal);
    assert_eq!(stats.jam_counter, 2);
}

#[test]
fn record_bad_resets_combo() {
    let mut stats = GameStats::new(100, 1000);
    stats.combo = 10;
    stats.record_judgment(JudgmentType::Bad, false, Difficulty::Normal);
    assert_eq!(stats.combo, 0);
}

#[test]
fn record_bad_resets_jam_counter_and_combo_multiplier() {
    let mut stats = GameStats::new(100, 1000);
    stats.jam_counter = 50;
    stats.jam_combo = 2;
    stats.record_judgment(JudgmentType::Bad, false, Difficulty::Normal);
    assert_eq!(stats.jam_counter, 0);
    assert_eq!(stats.jam_combo, 0);
}

#[test]
fn record_miss_increments_miss_count() {
    let mut stats = GameStats::new(100, 1000);
    stats.record_judgment(JudgmentType::Miss, false, Difficulty::Normal);
    assert_eq!(stats.miss_count, 1);
}

#[test]
fn record_miss_resets_combo() {
    let mut stats = GameStats::new(100, 1000);
    stats.combo = 20;
    stats.record_judgment(JudgmentType::Miss, false, Difficulty::Normal);
    assert_eq!(stats.combo, 0);
}

#[test]
fn record_miss_resets_consecutive_cools() {
    let mut stats = GameStats::new(100, 1000);
    stats.consecutive_cools = 14;
    stats.record_judgment(JudgmentType::Miss, false, Difficulty::Normal);
    assert_eq!(stats.consecutive_cools, 0);
}

#[test]
fn record_bad_with_pill_converts_to_cool() {
    let mut stats = GameStats::new(100, 1000);
    stats.pill_count = 1;
    let result = stats.record_judgment(JudgmentType::Bad, true, Difficulty::Normal);
    assert_eq!(result, JudgmentType::Cool);
    assert_eq!(stats.pill_count, 0);
    assert_eq!(stats.cool_count, 1);
}

#[test]
fn record_bad_without_pill_stays_bad() {
    let mut stats = GameStats::new(100, 1000);
    stats.pill_count = 0;
    let result = stats.record_judgment(JudgmentType::Bad, false, Difficulty::Normal);
    assert_eq!(result, JudgmentType::Bad);
    assert_eq!(stats.pill_count, 0);
    assert_eq!(stats.bad_count, 1);
}

#[test]
fn pills_awarded_at_15_consecutive_cools() {
    let mut stats = GameStats::new(100, 1000);
    for _ in 0..15 {
        stats.record_judgment(JudgmentType::Cool, false, Difficulty::Normal);
    }
    assert_eq!(stats.pill_count, 0);
    stats.record_judgment(JudgmentType::Cool, false, Difficulty::Normal);
    assert_eq!(stats.pill_count, 1);
}

#[test]
fn pills_max_5() {
    let mut stats = GameStats::new(100, 1000);
    for _ in 0..76 {
        stats.record_judgment(JudgmentType::Cool, false, Difficulty::Normal);
    }
    assert_eq!(stats.pill_count, 5);
}

#[test]
fn max_combo_tracked() {
    let mut stats = GameStats::new(100, 1000);
    stats.record_judgment(JudgmentType::Cool, false, Difficulty::Normal);
    stats.record_judgment(JudgmentType::Cool, false, Difficulty::Normal);
    assert_eq!(stats.max_combo, 1);
    stats.combo = 0;
    stats.record_judgment(JudgmentType::Cool, false, Difficulty::Normal);
    stats.record_judgment(JudgmentType::Cool, false, Difficulty::Normal);
    stats.record_judgment(JudgmentType::Cool, false, Difficulty::Normal);
    assert_eq!(stats.max_combo, 3);
}

#[test]
fn life_clamps_at_zero() {
    let mut stats = GameStats::new(100, 1000);
    stats.life = -100;
    stats.record_judgment(JudgmentType::Miss, false, Difficulty::Normal);
    assert_eq!(stats.life, 0);
}

#[test]
fn life_clamps_at_max() {
    let mut stats = GameStats::new(100, 1000);
    stats.life = 1000;
    stats.record_judgment(JudgmentType::Cool, false, Difficulty::Normal);
    assert_eq!(stats.life, 1000);
}

#[test]
fn life_follows_difficulty_curve() {
    let mut easy = GameStats::new(10, 1000);
    easy.life = 500;
    easy.record_judgment(JudgmentType::Miss, false, Difficulty::Easy);
    assert_eq!(easy.life, 450);
    let mut hard = GameStats::new(10, 1000);
    hard.life = 500;
    hard.record_judgment(JudgmentType::Miss, false, Difficulty::Hard);
    assert_eq!(hard.life, 470);
}

#[test]
fn pill_is_ignored_for_good() {
    let mut stats = GameStats::new(10, 1000);
    stats.pill_count = 2;
    let result = stats.record_judgment(JudgmentType::Good, true, Difficulty::Normal);
    assert_eq!(result, JudgmentType::Good);
    assert_eq!(stats.pill_count, 2);
}

#[test]
fn each_record_counts_exactly_one_judgment() {
    let mut stats = GameStats::new(10, 1000);
    let seq = [
        JudgmentType::Cool,
        JudgmentType::Good,
        JudgmentType::Bad,
        JudgmentType::Miss,
        JudgmentType::Cool,
    ];
    for (i, j) in seq.iter().enumerate() {
        stats.record_judgment(*j, false, Difficulty::Normal);
        let total = stats.cool_count + stats.good_count + stats.bad_count + stats.miss_count;
        assert_eq!(total as usize, i + 1);
    }
}

#[test]
fn hard_stats_record_uses_hard_curve() {
    let mut stats = open2jam::game_state::GameStats::new(50, 1000);
    stats.life = 500;
    stats.record_judgment(JudgmentType::Bad, false);
    assert_eq!(stats.life, 495);
    assert_eq!(stats.bad_count, 1);
    assert!(!stats.is_game_over());
}

#[test]
fn clamp_life_bounds() {
    assert_eq!(clamp_life(-5, 1000), 0);
    assert_eq!(clamp_life(1200, 1000), 1000);
    assert_eq!(clamp_life(640, 1000), 640);
}
