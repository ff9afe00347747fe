use open2jam::judgment::{cool_score_with_jam_bonus, good_score_with_jam_bonus, JudgmentType};

#[test]
fn test_cool_score_with_jam_bonus() {
    assert_eq!(cool_score_with_jam_bonus(0), 200);
    assert_eq!(cool_score_with_jam_bonus(10), 300);
    assert_eq!(cool_score_with_jam_bonus(50), 700);
}

#[test]
fn test_good_score_with_jam_bonus() {
    assert_eq!(good_score_with_jam_bonus(0), 100);
    assert_eq!(good_score_with_jam_bonus(10), 150);
    assert_eq!(good_score_with_jam_bonus(50), 350);
}

#[test]
fn test_judgment_type_hp_changes() {
    assert_eq!(JudgmentType::Cool.hp_change_hard(), 1);
    assert_eq!(JudgmentType::Good.hp_change_hard(), 0);
    assert_eq!(JudgmentType::Bad.hp_change_hard(), -5);
    assert_eq!(JudgmentType::Miss.hp_change_hard(), -30);

    assert_eq!(JudgmentType::Cool.hp_change_easy(), 3);
    assert_eq!(JudgmentType::Good.hp_change_easy(), 2);
    assert_eq!(JudgmentType::Bad.hp_change_easy(), -10);
    assert_eq!(JudgmentType::Miss.hp_change_easy(), -50);

    assert_eq!(JudgmentType::Cool.hp_change_normal(), 2);
    assert_eq!(JudgmentType::Good.hp_change_normal(), 1);
    assert_eq!(JudgmentType::Bad.hp_change_normal(), -7);
    assert_eq!(JudgmentType::Miss.hp_change_normal(), -40);
}

#[test]
fn test_judgment_breaks_combo() {
    assert!(!JudgmentType::Cool.breaks_combo());
    assert!(!JudgmentType::Good.breaks_combo());
    assert!(JudgmentType::Bad.breaks_combo());
    assert!(JudgmentType::Miss.breaks_combo());
}

#[test]
fn base_scores() {
    assert_eq!(JudgmentType::Cool.base_score(), 200);
    assert_eq!(JudgmentType::Good.base_score(), 100);
    assert_eq!(JudgmentType::Bad.base_score(), 4);
    assert_eq!(JudgmentType::Miss.base_score(), -10);
}

#[test]
fn life_loss_goes_with_combo_break() {
    for j in [JudgmentType::Cool, JudgmentType::Good, JudgmentType::Bad, JudgmentType::Miss] {
        assert_eq!(j.hp_change_hard() < 0, j.breaks_combo());
        assert_eq!(j.hp_change_easy() < 0, j.breaks_combo());
        assert_eq!(j.hp_change_normal() < 0, j.breaks_combo());
    }
}
