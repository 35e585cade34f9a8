//! Match weeks and per-week performance records. The stored total of a
//! record is a cache of the points engine's answer, never a separate source
//! of truth: recording recomputes it from the raw counters.

use vstd::prelude::*;

use crate::player::PlayerPosition;
use crate::points_engine::MAX_STAT;
use crate::points_engine::PointsEngine;
use crate::points_engine::spec_score;

verus! {

/// A match week as the store keeps it; dates are day numbers of year, month
/// and day packed by the surrounding program.
#[derive(Debug, PartialEq)]
pub struct MatchWeek {
    pub id: u64,
    pub week_number: i32,
    pub start_date: (i32, u32, u32),
    pub end_date: (i32, u32, u32),
    pub is_active: bool,
}

/// One player's raw counters and cached point total for one match week.
#[derive(Debug, PartialEq)]
pub struct PlayerPoints {
    pub id: u64,
    pub player_id: u64,
    pub match_week_id: u64,
    pub goals: i32,
    pub assists: i32,
    pub clean_sheets: i32,
    pub saves: i32,
    pub tackles: i32,
    pub total_points: i32,
    pub created_at: i64,
}

/// Player points with the player's name and week number, for display.
#[derive(Debug, PartialEq)]
pub struct PlayerPointsDisplay {
    pub player_id: u64,
    pub player_name: String,
    pub position: String,
    pub goals: i32,
    pub assists: i32,
    pub clean_sheets: i32,
    pub saves: i32,
    pub tackles: i32,
    pub total_points: i32,
    pub week_number: i32,
}

/// The stored total is exactly what the points engine returns for the raw
/// counters and the player's position.
pub open spec fn performance_wf(record: PlayerPoints, position: PlayerPosition) -> bool {
    record.total_points as int == spec_score(
        position,
        record.goals as int,
        record.assists as int,
        record.clean_sheets as int,
        record.saves as int,
        record.tackles as int,
    )
}

/// Build the record of one player's week from the raw counters, computing
/// the stored total with the points engine.
pub fn record_performance(
    id: u64,
    player_id: u64,
    match_week_id: u64,
    position: &PlayerPosition,
    goals: i32,
    assists: i32,
    clean_sheets: i32,
    saves: i32,
    tackles: i32,
    created_at: i64,
) -> (record: PlayerPoints)
    requires
        0 <= goals <= MAX_STAT,
        0 <= assists <= MAX_STAT,
        0 <= clean_sheets <= MAX_STAT,
        0 <= saves <= MAX_STAT,
        0 <= tackles <= MAX_STAT,
    ensures
        performance_wf(record, *position),
        record.id == id,
        record.player_id == player_id,
        record.match_week_id == match_week_id,
        record.goals == goals,
        record.assists == assists,
        record.clean_sheets == clean_sheets,
        record.saves == saves,
        record.tackles == tackles,
        record.created_at == created_at,
{
    let total_points = PointsEngine::calculate(position, goals, assists, clean_sheets, saves, tackles);
    PlayerPoints {
        id,
        player_id,
        match_week_id,
        goals,
        assists,
        clean_sheets,
        saves,
        tackles,
        total_points,
        created_at,
    }
}

} // verus!
