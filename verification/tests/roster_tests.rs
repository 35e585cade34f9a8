use mrr_fantasy::player::Player;
use mrr_fantasy::player::PlayerPosition;
use mrr_fantasy::team::FantasyTeam;
use mrr_fantasy::team::SetPlayersRequest;
use mrr_fantasy::team::StarterAssignment;
use mrr_fantasy::team::StoredRoster;
use mrr_fantasy::team::materialize;
use mrr_fantasy::validation::RosterViolation;
use mrr_fantasy::validation::validate_roster;

fn player(
    id: u64,
    name: &str,
    position: PlayerPosition,
    secondary: Option<PlayerPosition>,
    top: bool,
    price: u64,
    points: i32,
) -> Player {
    Player {
        id,
        name: name.to_string(),
        position,
        secondary_position: secondary,
        is_top_player: top,
        team_name: "MRR Fantasy".to_string(),
        photo_url: None,
        price,
        total_points: points,
        created_at: 0,
    }
}

// ids 1..=4 goalkeepers and defenders, 5..=7 midfielders, 8..=10 forwards,
// 11 a second goalkeeper for the bench, 12 a dual-eligible forward
fn catalog() -> Vec<Player> {
    vec![
        player(1, "Nitesh Das", PlayerPosition::Gk, Some(PlayerPosition::Def), false, 7, 10),
        player(2, "Kishor Dhakal", PlayerPosition::Def, None, false, 7, 20),
        player(3, "Sabin Regmi", PlayerPosition::Def, None, false, 7, 5),
        player(4, "Anish Rana", PlayerPosition::Def, None, false, 7, 0),
        player(5, "Bishal Das", PlayerPosition::Mid, Some(PlayerPosition::Def), false, 7, 15),
        player(6, "Subin Gajurel", PlayerPosition::Mid, None, false, 7, 30),
        player(7, "Parbat Rokka", PlayerPosition::Mid, None, false, 7, 8),
        player(8, "Khagendra Kandel", PlayerPosition::Fwd, None, false, 7, 40),
        player(9, "Aashish Tangnami", PlayerPosition::Fwd, Some(PlayerPosition::Mid), true, 7, 50),
        player(10, "Dip Kc", PlayerPosition::Fwd, None, true, 7, 12),
        player(11, "Himal Puri", PlayerPosition::Gk, None, false, 7, 3),
        player(12, "Rojal Pradhan", PlayerPosition::Fwd, Some(PlayerPosition::Def), false, 7, 2),
    ]
}

fn slot(id: u64, position: PlayerPosition) -> StarterAssignment {
    StarterAssignment { player_id: id, assigned_position: position }
}

// starters: GK 1, DEF 2, DEF 3, MID 5, MID 6, FWD 8; bench: GK 11, 7, 10;
// captain 8; squad price 9 * 7 = 63; marquee players: 9 is not picked, 10 is
fn ok_request() -> SetPlayersRequest {
    SetPlayersRequest {
        starters: vec![
            slot(1, PlayerPosition::Gk),
            slot(2, PlayerPosition::Def),
            slot(3, PlayerPosition::Def),
            slot(5, PlayerPosition::Mid),
            slot(6, PlayerPosition::Mid),
            slot(8, PlayerPosition::Fwd),
        ],
        bench_player_ids: vec![11, 7, 10],
        captain_id: 8,
    }
}

const OWNER: &str = "Sita Sharma";

#[test]
fn well_formed_roster_is_accepted() {
    let catalog = catalog();
    let result = validate_roster(&ok_request(), OWNER, &catalog);
    let accepted = result.expect("the roster should pass every rule");
    assert_eq!(accepted.captain_id, 8);
    assert_eq!(accepted.starters.len(), 6);
    assert_eq!(accepted.bench_player_ids, vec![11, 7, 10]);
}

#[test]
fn seven_starters_always_wrong_roster_size() {
    let catalog = catalog();
    let mut req = ok_request();
    req.starters.push(slot(9, PlayerPosition::Fwd));
    // even though this also duplicates nothing and breaks no other rule
    assert_eq!(
        validate_roster(&req, OWNER, &catalog),
        Err(RosterViolation::WrongRosterSize)
    );
}

#[test]
fn two_bench_players_wrong_roster_size() {
    let catalog = catalog();
    let mut req = ok_request();
    req.bench_player_ids.pop();
    assert_eq!(
        validate_roster(&req, OWNER, &catalog),
        Err(RosterViolation::WrongRosterSize)
    );
}

#[test]
fn duplicate_across_starters_and_bench_rejected() {
    let catalog = catalog();
    let mut req = ok_request();
    req.bench_player_ids = vec![11, 7, 8];
    assert_eq!(
        validate_roster(&req, OWNER, &catalog),
        Err(RosterViolation::DuplicatePlayer)
    );
}

#[test]
fn captain_must_be_a_starter() {
    let catalog = catalog();
    let mut req = ok_request();
    req.captain_id = 11;
    assert_eq!(
        validate_roster(&req, OWNER, &catalog),
        Err(RosterViolation::CaptainMustStart)
    );
}

#[test]
fn unknown_player_id_rejected() {
    let catalog = catalog();
    let mut req = ok_request();
    req.bench_player_ids = vec![11, 7, 999];
    assert_eq!(
        validate_roster(&req, OWNER, &catalog),
        Err(RosterViolation::UnknownPlayer { player_id: 999 })
    );
}

#[test]
fn lineup_without_goalkeeper_rejected() {
    let catalog = catalog();
    let mut req = ok_request();
    // player 1 may also play DEF; now no starter is assigned GK
    req.starters[0] = slot(1, PlayerPosition::Def);
    assert_eq!(
        validate_roster(&req, OWNER, &catalog),
        Err(RosterViolation::InvalidFormation { position: PlayerPosition::Gk })
    );
}

#[test]
fn lineup_without_defender_rejected() {
    let catalog = catalog();
    let mut req = ok_request();
    // both defenders replaced by midfielders: 1 GK, 0 DEF, 4 MID, 1 FWD
    req.starters[1] = slot(5, PlayerPosition::Mid);
    req.starters[2] = slot(7, PlayerPosition::Mid);
    req.starters[3] = slot(6, PlayerPosition::Mid);
    req.starters[4] = slot(9, PlayerPosition::Mid);
    req.bench_player_ids = vec![11, 2, 10];
    assert_eq!(
        validate_roster(&req, OWNER, &catalog),
        Err(RosterViolation::InvalidFormation { position: PlayerPosition::Def })
    );
}

#[test]
fn starter_in_position_they_cannot_play_rejected() {
    let catalog = catalog();
    let mut req = ok_request();
    // player 2 is a defender with no secondary position; the formation is
    // still whole (player 3 keeps a DEF slot), so the eligibility rule fires
    req.starters[1] = slot(2, PlayerPosition::Mid);
    assert_eq!(
        validate_roster(&req, OWNER, &catalog),
        Err(RosterViolation::IneligiblePosition { player_id: 2 })
    );
}

#[test]
fn dual_eligible_player_may_start_in_secondary_position() {
    let catalog = catalog();
    let mut req = ok_request();
    // player 12 is a forward who may also play DEF
    req.starters[2] = slot(12, PlayerPosition::Def);
    assert!(validate_roster(&req, OWNER, &catalog).is_ok());
}

#[test]
fn captain_sharing_owner_name_rejected() {
    let catalog = catalog();
    let mut req = ok_request();
    req.captain_id = 2;
    // trimmed and case-folded, "  kishor DHAKAL " names the owner
    let result = validate_roster(&req, "  kishor DHAKAL ", &catalog);
    assert_eq!(result, Err(RosterViolation::CaptainSharesOwnerName));
    // a different owner keeps the same roster acceptable
    assert!(validate_roster(&req, OWNER, &catalog).is_ok());
}

#[test]
fn more_than_two_marquee_players_rejected() {
    let catalog = catalog();
    let mut req = ok_request();
    // 9 and 10 are marquee; make 8 marquee too by swapping in a third
    let mut catalog3 = catalog;
    catalog3[7].is_top_player = true;
    req.starters[5] = slot(8, PlayerPosition::Fwd);
    req.bench_player_ids = vec![11, 9, 10];
    assert_eq!(
        validate_roster(&req, OWNER, &catalog3),
        Err(RosterViolation::TooManyMarqueePlayers)
    );
}

#[test]
fn squad_of_71_against_70_ceiling_rejected_with_total() {
    let mut catalog = catalog();
    // raise one starter's price so the nine picked players cost 71
    catalog[1].price = 15;
    let result = validate_roster(&ok_request(), OWNER, &catalog);
    assert_eq!(
        result,
        Err(RosterViolation::OverBudget { total_price: 71 })
    );
}

#[test]
fn squad_of_exactly_70_accepted() {
    let mut catalog = catalog();
    catalog[1].price = 14;
    assert!(validate_roster(&ok_request(), OWNER, &catalog).is_ok());
}

#[test]
fn bench_without_goalkeeper_rejected() {
    let catalog = catalog();
    let mut req = ok_request();
    req.bench_player_ids = vec![4, 7, 10];
    assert_eq!(
        validate_roster(&req, OWNER, &catalog),
        Err(RosterViolation::InvalidBenchComposition)
    );
}

#[test]
fn bench_with_two_goalkeepers_rejected() {
    let mut catalog = catalog();
    // make player 7 a goalkeeper by primary position
    catalog[6].position = PlayerPosition::Gk;
    let req = ok_request();
    assert_eq!(
        validate_roster(&req, OWNER, &catalog),
        Err(RosterViolation::InvalidBenchComposition)
    );
}

#[test]
fn verdict_is_order_independent() {
    let catalog = catalog();
    // the accepted roster stays accepted under any slot order
    let mut req = ok_request();
    req.starters.reverse();
    req.bench_player_ids.reverse();
    assert!(validate_roster(&req, OWNER, &catalog).is_ok());

    // an over-budget roster stays rejected under any slot order
    let mut pricey = catalog.clone();
    pricey[1].price = 15;
    assert_eq!(
        validate_roster(&req, OWNER, &pricey),
        Err(RosterViolation::OverBudget { total_price: 71 })
    );
}

fn stored(roster_starters: Vec<StarterAssignment>, bench: Vec<u64>) -> StoredRoster {
    StoredRoster {
        team: FantasyTeam {
            id: 500,
            user_id: 900,
            name: "Gully XI".to_string(),
            captain_id: Some(8),
            created_at: 0,
        },
        starters: roster_starters,
        bench_player_ids: bench,
    }
}

#[test]
fn resubmitting_an_accepted_roster_is_idempotent() {
    let catalog = catalog();
    let req = ok_request();
    let first = validate_roster(&req, OWNER, &catalog).expect("accepted");
    let second = validate_roster(&req, OWNER, &catalog).expect("accepted again");
    assert_eq!(first, second);

    let roster = stored(first.starters, first.bench_player_ids);
    let display_a = materialize(&roster, &catalog);
    let display_b = materialize(&roster, &catalog);
    assert_eq!(display_a, display_b);
}

#[test]
fn materialized_total_counts_starters_only() {
    let catalog = catalog();
    let accepted = validate_roster(&ok_request(), OWNER, &catalog).expect("accepted");
    let roster = stored(accepted.starters, accepted.bench_player_ids);
    let display = materialize(&roster, &catalog);
    // starters 1, 2, 3, 5, 6, 8: 10 + 20 + 5 + 15 + 30 + 40
    assert_eq!(display.total_points, 120);
    assert_eq!(display.players.len(), 6);
    assert_eq!(display.bench.len(), 3);
    assert_eq!(display.name, "Gully XI".to_string());
    // the bench players' points (3 + 8 + 12) are not in the total
    assert_eq!(display.bench.iter().map(|p| p.total_points).sum::<i32>(), 23);
}

#[test]
fn materialize_drops_ids_the_catalog_no_longer_resolves() {
    let catalog = catalog();
    let accepted = validate_roster(&ok_request(), OWNER, &catalog).expect("accepted");
    let roster = stored(accepted.starters, accepted.bench_player_ids);
    // a catalog missing one picked starter and one bench player
    let thinned: Vec<_> = catalog
        .into_iter()
        .filter(|p| p.id != 6 && p.id != 7)
        .collect();
    let display = mrr_fantasy::team::materialize(&roster, &thinned);
    assert_eq!(display.players.len(), 5);
    assert_eq!(display.bench.len(), 2);
    // starter 6 held 30 points; the total now sums the remaining five
    assert_eq!(display.total_points, 90);
}

#[test]
fn keyed_ranking_is_stable_and_descending() {
    let rows = vec![(3i64, "a"), (9, "b"), (3, "c"), (12, "d"), (9, "e")];
    let ranked = mrr_fantasy::ordering::rank_by_key_desc(rows);
    assert_eq!(ranked, vec![(12, "d"), (9, "b"), (9, "e"), (3, "a"), (3, "c")]);
}
