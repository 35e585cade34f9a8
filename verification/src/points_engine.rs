//! Points calculation engine.
//!
//! Maps a player's position and one week's raw performance counters to an
//! integer point total. Pure and total: every combination of position and
//! in-range counters has a defined score.

use vstd::prelude::*;

use crate::player::PlayerPosition;

verus! {

/// Upper bound on a single performance counter; keeps every score, and any
/// squad-wide sum of scores, comfortably inside `i32`.
pub const MAX_STAT: i32 = 1_000_000;

/// Points one goal is worth, by position: defensive goals are rarer and pay
/// more.
pub open spec fn goal_value(position: PlayerPosition) -> int {
    match position {
        PlayerPosition::Fwd => 10,
        PlayerPosition::Mid => 8,
        PlayerPosition::Def => 12,
        PlayerPosition::Gk => 12,
    }
}

/// Points one clean sheet is worth: only defenders and goalkeepers earn them.
pub open spec fn clean_sheet_value(position: PlayerPosition) -> int {
    match position {
        PlayerPosition::Def => 6,
        PlayerPosition::Gk => 6,
        _ => 0,
    }
}

/// Points one save is worth: only goalkeepers earn them.
pub open spec fn save_value(position: PlayerPosition) -> int {
    match position {
        PlayerPosition::Gk => 2,
        _ => 0,
    }
}

/// The full scoring formula: a sum of five independent terms, each the
/// counter times its per-position value (assists pay 5 and tackles 2 at any
/// position).
pub open spec fn spec_score(
    position: PlayerPosition,
    goals: int,
    assists: int,
    clean_sheets: int,
    saves: int,
    tackles: int,
) -> int {
    goal_value(position) * goals + 5 * assists + clean_sheet_value(position) * clean_sheets
        + save_value(position) * saves + 2 * tackles
}

/// Points calculation engine.
pub struct PointsEngine;

impl PointsEngine {
    /// Calculate total fantasy points for a player in a match week.
    ///
    /// # Points System
    /// - Goal (FWD): +10
    /// - Goal (MID): +8
    /// - Goal (DEF/GK): +12
    /// - Assist: +5
    /// - Clean Sheet (DEF/GK): +6
    /// - Save (GK): +2 per save
    /// - Tackle won: +2
    pub fn calculate(
        position: &PlayerPosition,
        goals: i32,
        assists: i32,
        clean_sheets: i32,
        saves: i32,
        tackles: i32,
    ) -> (points: i32)
        requires
            0 <= goals <= MAX_STAT,
            0 <= assists <= MAX_STAT,
            0 <= clean_sheets <= MAX_STAT,
            0 <= saves <= MAX_STAT,
            0 <= tackles <= MAX_STAT,
        ensures
            points == spec_score(
                *position,
                goals as int,
                assists as int,
                clean_sheets as int,
                saves as int,
                tackles as int,
            ),
    {
        let goal_points = match position {
            PlayerPosition::Fwd => goals * 10,
            PlayerPosition::Mid => goals * 8,
            PlayerPosition::Def | PlayerPosition::Gk => goals * 12,
        };

        let assist_points = assists * 5;

        let clean_sheet_points = match position {
            PlayerPosition::Def | PlayerPosition::Gk => clean_sheets * 6,
            _ => 0,
        };

        let save_points = match position {
            PlayerPosition::Gk => saves * 2,
            _ => 0,
        };

        let tackle_points = tackles * 2;

        goal_points + assist_points + clean_sheet_points + save_points + tackle_points
    }
}

/// Zero counters score zero at every position.
pub proof fn lemma_score_zero(position: PlayerPosition)
    ensures
        spec_score(position, 0, 0, 0, 0, 0) == 0,
{
}

/// The score is monotonic non-decreasing in every counter independently
/// (raising any subset of the counters cannot lower the score), and
/// non-negative counters never score below zero.
pub proof fn lemma_score_monotonic(
    position: PlayerPosition,
    g1: int,
    a1: int,
    c1: int,
    s1: int,
    t1: int,
    g2: int,
    a2: int,
    c2: int,
    s2: int,
    t2: int,
)
    requires
        0 <= g1 <= g2,
        0 <= a1 <= a2,
        0 <= c1 <= c2,
        0 <= s1 <= s2,
        0 <= t1 <= t2,
    ensures
        spec_score(position, g1, a1, c1, s1, t1) <= spec_score(position, g2, a2, c2, s2, t2),
        0 <= spec_score(position, g1, a1, c1, s1, t1),
{
    vstd::arithmetic::mul::lemma_mul_inequality(g1, g2, goal_value(position));
    vstd::arithmetic::mul::lemma_mul_inequality(c1, c2, clean_sheet_value(position));
    vstd::arithmetic::mul::lemma_mul_inequality(s1, s2, save_value(position));
    vstd::arithmetic::mul::lemma_mul_nonnegative(g1, goal_value(position));
    vstd::arithmetic::mul::lemma_mul_nonnegative(c1, clean_sheet_value(position));
    vstd::arithmetic::mul::lemma_mul_nonnegative(s1, save_value(position));
}

/// Clean-sheet and save terms are exactly zero for midfielders and forwards:
/// their score does not depend on those counters at all.
pub proof fn lemma_outfield_ignores_keeper_stats(
    position: PlayerPosition,
    goals: int,
    assists: int,
    clean_sheets: int,
    saves: int,
    tackles: int,
)
    requires
        position == PlayerPosition::Mid || position == PlayerPosition::Fwd,
    ensures
        spec_score(position, goals, assists, clean_sheets, saves, tackles) == spec_score(
            position,
            goals,
            assists,
            0,
            0,
            tackles,
        ),
{
}

} // verus!
