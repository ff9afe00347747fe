//! Judgment results and the integer part of the scoring rules.
//!
//! Timing windows are expressed in milliseconds of floating-point time and
//! live with the caller; here stand the per-judgment constants.
use vstd::prelude::*;

verus! {

/// The judgment result from evaluating a note hit.
#[derive(Debug, Clone, Copy, PartialEq, Eq, Structural)]
pub enum JudgmentType {
    /// Perfect hit, minimal timing error
    Cool,
    /// Acceptable hit, moderate timing error
    Good,
    /// Barely acceptable hit
    Bad,
    /// Outside judgment window or not hit
    Miss,
}

/// Base score of a judgment (before the jam combo bonus).
pub open spec fn spec_base_score(j: JudgmentType) -> int {
    match j {
        JudgmentType::Cool => 200,
        JudgmentType::Good => 100,
        JudgmentType::Bad => 4,
        JudgmentType::Miss => -10,
    }
}

/// HP change of a judgment on Hard difficulty.
pub open spec fn spec_hp_change_hard(j: JudgmentType) -> int {
    match j {
        JudgmentType::Cool => 1,
        JudgmentType::Good => 0,
        JudgmentType::Bad => -5,
        JudgmentType::Miss => -30,
    }
}

/// HP change of a judgment on Easy difficulty.
pub open spec fn spec_hp_change_easy(j: JudgmentType) -> int {
    match j {
        JudgmentType::Cool => 3,
        JudgmentType::Good => 2,
        JudgmentType::Bad => -10,
        JudgmentType::Miss => -50,
    }
}

/// HP change of a judgment on Normal difficulty.
pub open spec fn spec_hp_change_normal(j: JudgmentType) -> int {
    match j {
        JudgmentType::Cool => 2,
        JudgmentType::Good => 1,
        JudgmentType::Bad => -7,
        JudgmentType::Miss => -40,
    }
}

/// Bad and Miss break the combo; Cool and Good keep it.
pub open spec fn spec_breaks_combo(j: JudgmentType) -> bool {
    j == JudgmentType::Miss || j == JudgmentType::Bad
}

impl JudgmentType {
    /// Base score for this judgment type (before jam combo bonus).
    /// Miss has a negative score (-10) as penalty.
    pub fn base_score(self) -> (r: i32)
        ensures
            r == spec_base_score(self),
    {
        match self {
            JudgmentType::Cool => 200,
            JudgmentType::Good => 100,
            JudgmentType::Bad => 4,
            JudgmentType::Miss => -10,
        }
    }

    /// Returns the HP change for this judgment on Hard difficulty.
    pub fn hp_change_hard(self) -> (r: i32)
        ensures
            r == spec_hp_change_hard(self),
    {
        match self {
            JudgmentType::Cool => 1,
            JudgmentType::Good => 0,
            JudgmentType::Bad => -5,
            JudgmentType::Miss => -30,
        }
    }

    /// Returns the HP change for this judgment on Easy difficulty.
    pub fn hp_change_easy(self) -> (r: i32)
        ensures
            r == spec_hp_change_easy(self),
    {
        match self {
            JudgmentType::Cool => 3,
            JudgmentType::Good => 2,
            JudgmentType::Bad => -10,
            JudgmentType::Miss => -50,
        }
    }

    /// Returns the HP change for this judgment on Normal difficulty.
    pub fn hp_change_normal(self) -> (r: i32)
        ensures
            r == spec_hp_change_normal(self),
    {
        match self {
            JudgmentType::Cool => 2,
            JudgmentType::Good => 1,
            JudgmentType::Bad => -7,
            JudgmentType::Miss => -40,
        }
    }

    /// Returns whether this judgment breaks the combo.
    pub fn breaks_combo(self) -> (r: bool)
        ensures
            r == spec_breaks_combo(self),
    {
        match self {
            JudgmentType::Miss | JudgmentType::Bad => true,
            _ => false,
        }
    }
}

/// Score of a COOL judgment with jam combo bonus: 200 + (jam_combo × 10).
pub fn cool_score_with_jam_bonus(jam_combo: u32) -> (r: u32)
    requires
        200 + jam_combo * 10 <= u32::MAX,
    ensures
        r == 200 + jam_combo * 10,
{
    200 + (jam_combo * 10)
}

/// Score of a GOOD judgment with jam combo bonus: 100 + (jam_combo × 5).
pub fn good_score_with_jam_bonus(jam_combo: u32) -> (r: u32)
    requires
        100 + jam_combo * 5 <= u32::MAX,
    ensures
        r == 100 + jam_combo * 5,
{
    100 + (jam_combo * 5)
}

/// The life-changing judgments are exactly the combo-breaking ones on every
/// difficulty: a judgment lowers life if and only if it breaks the combo.
pub proof fn lemma_hp_loss_iff_combo_break(j: JudgmentType)
    ensures
        (spec_hp_change_hard(j) < 0) == spec_breaks_combo(j),
        (spec_hp_change_normal(j) < 0) == spec_breaks_combo(j),
        (spec_hp_change_easy(j) < 0) == spec_breaks_combo(j),
        spec_hp_change_easy(j) >= spec_hp_change_normal(j) >= spec_hp_change_hard(j)
            || spec_breaks_combo(j),
{
}

} // verus!
