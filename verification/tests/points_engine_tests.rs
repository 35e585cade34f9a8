use mrr_fantasy::player::PlayerPosition;
use mrr_fantasy::points::record_performance;
use mrr_fantasy::points_engine::PointsEngine;

#[test]
fn test_forward_goal_points() {
    let pts = PointsEngine::calculate(&PlayerPosition::Fwd, 2, 1, 0, 0, 0);
    // 2 goals * 10 + 1 assist * 5 = 25
    assert_eq!(pts, 25);
}

#[test]
fn test_midfielder_goal_points() {
    let pts = PointsEngine::calculate(&PlayerPosition::Mid, 1, 2, 0, 0, 1);
    // 1 goal * 8 + 2 assists * 5 + 1 tackle * 2 = 20
    assert_eq!(pts, 20);
}

#[test]
fn test_defender_clean_sheet() {
    let pts = PointsEngine::calculate(&PlayerPosition::Def, 0, 0, 1, 0, 3);
    // 0 goals + 0 assists + 1 cs * 6 + 3 tackles * 2 = 12
    assert_eq!(pts, 12);
}

#[test]
fn test_goalkeeper_saves() {
    let pts = PointsEngine::calculate(&PlayerPosition::Gk, 0, 0, 1, 5, 0);
    // 0 goals + 0 assists + 1 cs * 6 + 5 saves * 2 = 16
    assert_eq!(pts, 16);
}

#[test]
fn test_goalkeeper_heroic_goal() {
    let pts = PointsEngine::calculate(&PlayerPosition::Gk, 1, 0, 1, 3, 0);
    // 1 goal * 12 + 1 cs * 6 + 3 saves * 2 = 24
    assert_eq!(pts, 24);
}

#[test]
fn test_zero_stats() {
    let pts = PointsEngine::calculate(&PlayerPosition::Fwd, 0, 0, 0, 0, 0);
    assert_eq!(pts, 0);
}

#[test]
fn goal_weighting_by_position() {
    assert_eq!(PointsEngine::calculate(&PlayerPosition::Def, 1, 0, 0, 0, 0), 12);
    assert_eq!(PointsEngine::calculate(&PlayerPosition::Gk, 1, 0, 0, 0, 0), 12);
    assert_eq!(PointsEngine::calculate(&PlayerPosition::Fwd, 1, 0, 0, 0, 0), 10);
    assert_eq!(PointsEngine::calculate(&PlayerPosition::Mid, 1, 0, 0, 0, 0), 8);
}

#[test]
fn zero_counters_score_zero_at_every_position() {
    assert_eq!(PointsEngine::calculate(&PlayerPosition::Gk, 0, 0, 0, 0, 0), 0);
    assert_eq!(PointsEngine::calculate(&PlayerPosition::Def, 0, 0, 0, 0, 0), 0);
    assert_eq!(PointsEngine::calculate(&PlayerPosition::Mid, 0, 0, 0, 0, 0), 0);
    assert_eq!(PointsEngine::calculate(&PlayerPosition::Fwd, 0, 0, 0, 0, 0), 0);
}

#[test]
fn score_is_monotonic_in_each_counter() {
    let base = PointsEngine::calculate(&PlayerPosition::Gk, 1, 1, 1, 1, 1);
    assert!(PointsEngine::calculate(&PlayerPosition::Gk, 2, 1, 1, 1, 1) >= base);
    assert!(PointsEngine::calculate(&PlayerPosition::Gk, 1, 2, 1, 1, 1) >= base);
    assert!(PointsEngine::calculate(&PlayerPosition::Gk, 1, 1, 2, 1, 1) >= base);
    assert!(PointsEngine::calculate(&PlayerPosition::Gk, 1, 1, 1, 2, 1) >= base);
    assert!(PointsEngine::calculate(&PlayerPosition::Gk, 1, 1, 1, 1, 2) >= base);
}

#[test]
fn outfield_players_earn_nothing_for_keeper_stats() {
    // clean sheets and saves are worth exactly zero for MID and FWD, however
    // large the counters are
    assert_eq!(
        PointsEngine::calculate(&PlayerPosition::Mid, 0, 0, 1000, 1000, 0),
        0
    );
    assert_eq!(
        PointsEngine::calculate(&PlayerPosition::Fwd, 0, 0, 1000, 1000, 0),
        0
    );
    assert_eq!(
        PointsEngine::calculate(&PlayerPosition::Mid, 2, 1, 999, 999, 3),
        PointsEngine::calculate(&PlayerPosition::Mid, 2, 1, 0, 0, 3)
    );
}

#[test]
fn recorded_performance_caches_the_engine_total() {
    let record = record_performance(1, 42, 7, &PlayerPosition::Gk, 1, 0, 1, 3, 0, 0);
    assert_eq!(record.total_points, 24);
    assert_eq!(
        record.total_points,
        PointsEngine::calculate(&PlayerPosition::Gk, 1, 0, 1, 3, 0)
    );
    assert_eq!(record.player_id, 42);
    assert_eq!(record.match_week_id, 7);
    assert_eq!(record.goals, 1);
    assert_eq!(record.saves, 3);
}
