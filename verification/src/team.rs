//! Fantasy teams: the stored roster of one user, and its display form with
//! the joined player records and the recomputed starter point total.

use vstd::prelude::*;

use crate::player::Player;
use crate::player::PlayerPosition;
use crate::player::POINTS_LIMIT;
use crate::player::catalog_wf;
use crate::player::find_player;
use crate::player::spec_find_player;
use crate::tally::sum_over;

verus! {

/// A fantasy team as the roster store keeps it: one per user.
#[derive(Debug, PartialEq)]
pub struct FantasyTeam {
    pub id: u64,
    pub user_id: u64,
    pub name: String,
    pub captain_id: Option<u64>,
    pub created_at: i64,
}

impl Clone for FantasyTeam {
    fn clone(&self) -> (res: Self)
        ensures
            res == *self,
    {
        FantasyTeam {
            id: self.id,
            user_id: self.user_id,
            name: self.name.clone(),
            captain_id: self.captain_id,
            created_at: self.created_at,
        }
    }
}

/// Request to create a fantasy team.
#[derive(Debug)]
pub struct CreateTeamRequest {
    pub name: String,
}

/// A single starter assignment: which player plays in which position.
#[derive(Clone, Copy, Debug, PartialEq, Eq, Structural)]
pub struct StarterAssignment {
    pub player_id: u64,
    pub assigned_position: PlayerPosition,
}

/// Request to set the 9 players on a team: 6 starters with positions,
/// 3 bench ids, and the captain.
#[derive(Debug)]
pub struct SetPlayersRequest {
    pub starters: Vec<StarterAssignment>,
    pub bench_player_ids: Vec<u64>,
    pub captain_id: u64,
}

/// A starter player with the position they are assigned to play.
#[derive(Debug, PartialEq)]
pub struct StarterPlayer {
    pub player: Player,
    pub assigned_position: PlayerPosition,
}

/// Fantasy team with its players included and the starter total recomputed.
#[derive(Debug, PartialEq)]
pub struct FantasyTeamWithPlayers {
    pub id: u64,
    pub user_id: u64,
    pub name: String,
    pub captain_id: Option<u64>,
    pub created_at: i64,
    pub players: Vec<StarterPlayer>,
    pub bench: Vec<Player>,
    pub total_points: i32,
}

/// The stored slots of one user's roster: what the roster store hands back
/// after an accepted submission.
#[derive(Debug, PartialEq)]
pub struct StoredRoster {
    pub team: FantasyTeam,
    pub starters: Vec<StarterAssignment>,
    pub bench_player_ids: Vec<u64>,
}

/// Any stored roster fills exactly 6 starter slots and 3 bench slots.
pub open spec fn stored_roster_wf(roster: StoredRoster) -> bool {
    roster.starters@.len() == 6 && roster.bench_player_ids@.len() == 3
}

/// A roster the aggregators can take: either filled by an accepted
/// submission, or still empty because the user has not picked players yet.
/// Either way the starter count stays small enough for the total to fit.
pub open spec fn roster_displayable(roster: StoredRoster) -> bool {
    roster.starters@.len() <= 6
}

/// A team name must not be empty.
pub fn team_name_valid(req: &CreateTeamRequest) -> (valid: bool)
    ensures
        valid == (req.name@.len() != 0),
{
    !req.name.as_str().is_empty()
}

/// A stored starter joined with their assigned position; a missing assigned
/// position falls back to the player's primary position.
pub fn starter_display(player: &Player, assigned_position: Option<PlayerPosition>) -> (sp:
    StarterPlayer)
    ensures
        sp.player == *player,
        sp.assigned_position == (match assigned_position {
            Some(p) => p,
            None => player.position,
        }),
{
    let assigned = match assigned_position {
        Some(p) => p,
        None => player.position,
    };
    StarterPlayer { player: player.clone(), assigned_position: assigned }
}

/// The starters of a stored roster joined against the catalog, in slot order;
/// an id the catalog no longer resolves is left out, as a join would leave it
/// out.
pub open spec fn spec_display_starters(
    catalog: Seq<Player>,
    starters: Seq<StarterAssignment>,
) -> Seq<StarterPlayer>
    decreases starters.len(),
{
    if starters.len() == 0 {
        Seq::empty()
    } else {
        let rest = spec_display_starters(catalog, starters.drop_last());
        let slot = starters.last();
        match spec_find_player(catalog, slot.player_id) {
            Some(p) => rest.push(
                StarterPlayer { player: p, assigned_position: slot.assigned_position },
            ),
            None => rest,
        }
    }
}

/// The bench of a stored roster joined against the catalog, in slot order.
pub open spec fn spec_display_bench(catalog: Seq<Player>, ids: Seq<u64>) -> Seq<Player>
    decreases ids.len(),
{
    if ids.len() == 0 {
        Seq::empty()
    } else {
        let rest = spec_display_bench(catalog, ids.drop_last());
        match spec_find_player(catalog, ids.last()) {
            Some(p) => rest.push(p),
            None => rest,
        }
    }
}

/// The roster's point total: the sum of the joined starters' accumulated
/// points. The bench never contributes.
pub open spec fn spec_starter_total(catalog: Seq<Player>, starters: Seq<StarterAssignment>) -> int {
    sum_over(spec_display_starters(catalog, starters), |sp: StarterPlayer| sp.player.total_points as int)
}

proof fn lemma_starter_total_bounds(catalog: Seq<Player>, starters: Seq<StarterAssignment>)
    requires
        catalog_wf(catalog),
    ensures
        -(starters.len() as int) * (POINTS_LIMIT as int) <= spec_starter_total(catalog, starters)
            <= (starters.len() as int) * (POINTS_LIMIT as int),
    decreases starters.len(),
{
    if starters.len() == 0 {
    } else {
        lemma_starter_total_bounds(catalog, starters.drop_last());
        let slot = starters.last();
        crate::player::lemma_find_player_resolves(catalog, slot.player_id);
        let rest = spec_display_starters(catalog, starters.drop_last());
        match spec_find_player(catalog, slot.player_id) {
            Some(p) => {
                let i = choose|i: int| 0 <= i < catalog.len() && catalog[i] == p;
                assert(-POINTS_LIMIT <= p.total_points <= POINTS_LIMIT);
                let full = spec_display_starters(catalog, starters);
                let sp = StarterPlayer { player: p, assigned_position: slot.assigned_position };
                assert(full == rest.push(sp));
                assert(full.drop_last() =~= rest);
                assert(full.last() == sp);
            },
            None => {
                assert(spec_display_starters(catalog, starters) == rest);
            },
        }
        assert((starters.len() as int) * (POINTS_LIMIT as int) == (starters.drop_last().len() as int)
            * (POINTS_LIMIT as int) + POINTS_LIMIT) by (nonlinear_arith)
            requires
                starters.len() >= 1,
        ;
    }
}

/// Join a stored roster against the current catalog: starter objects with
/// their assigned positions, bench players, and the total recomputed as the
/// sum of the starters' current accumulated points.
///
/// Materializing is idempotent: the output depends only on the stored slots
/// and the catalog snapshot.
pub fn materialize(roster: &StoredRoster, catalog: &Vec<Player>) -> (display: FantasyTeamWithPlayers)
    requires
        catalog_wf(catalog@),
        roster_displayable(*roster),
    ensures
        display.id == roster.team.id,
        display.user_id == roster.team.user_id,
        display.name == roster.team.name,
        display.captain_id == roster.team.captain_id,
        display.created_at == roster.team.created_at,
        display.players@ == spec_display_starters(catalog@, roster.starters@),
        display.bench@ == spec_display_bench(catalog@, roster.bench_player_ids@),
        display.total_points as int == spec_starter_total(catalog@, roster.starters@),
{
    let mut players: Vec<StarterPlayer> = Vec::new();
    let mut total: i32 = 0;
    let n = roster.starters.len();
    let mut i: usize = 0;
    while i < n
        invariant
            0 <= i <= n,
            n == roster.starters@.len() <= 6,
            catalog_wf(catalog@),
            players@ == spec_display_starters(catalog@, roster.starters@.take(i as int)),
            total as int == spec_starter_total(catalog@, roster.starters@.take(i as int)),
            -(i as int) * (POINTS_LIMIT as int) <= total as int <= (i as int) * (POINTS_LIMIT
                as int),
        decreases n - i,
    {
        let slot = roster.starters[i];
        let ghost prefix = roster.starters@.take(i as int);
        let ghost rest = spec_display_starters(catalog@, prefix);
        proof {
            assert(roster.starters@.take(i + 1).drop_last() =~= prefix);
            assert(roster.starters@.take(i + 1).last() == slot);
            lemma_starter_total_bounds(catalog@, roster.starters@.take(i + 1));
        }
        match find_player(catalog, slot.player_id) {
            Some(p) => {
                proof {
                    crate::player::lemma_find_player_resolves(catalog@, slot.player_id);
                    let j = choose|j: int| 0 <= j < catalog@.len() && catalog@[j] == *p;
                    assert(-POINTS_LIMIT <= p.total_points <= POINTS_LIMIT);
                    let sp = StarterPlayer { player: *p, assigned_position: slot.assigned_position };
                    assert(spec_display_starters(catalog@, roster.starters@.take(i + 1))
                        == rest.push(sp));
                    assert(rest.push(sp).drop_last() =~= rest);
                    assert((i + 1) as int * (POINTS_LIMIT as int) == (i as int) * (POINTS_LIMIT
                        as int) + POINTS_LIMIT) by (nonlinear_arith);
                }
                let sp = starter_display(p, Some(slot.assigned_position));
                total = total + sp.player.total_points;
                players.push(sp);
            },
            None => {
                proof {
                    crate::player::lemma_find_player_resolves(catalog@, slot.player_id);
                    assert(spec_find_player(catalog@, slot.player_id) is None);
                    assert(spec_display_starters(catalog@, roster.starters@.take(i + 1)) == rest);
                    assert((i + 1) as int * (POINTS_LIMIT as int) >= (i as int) * (POINTS_LIMIT
                        as int)) by (nonlinear_arith);
                }
            },
        }
        i += 1;
    }
    proof {
        assert(roster.starters@.take(n as int) =~= roster.starters@);
    }

    let mut bench: Vec<Player> = Vec::new();
    let m = roster.bench_player_ids.len();
    let mut k: usize = 0;
    while k < m
        invariant
            0 <= k <= m,
            m == roster.bench_player_ids@.len(),
            catalog_wf(catalog@),
            bench@ == spec_display_bench(catalog@, roster.bench_player_ids@.take(k as int)),
        decreases m - k,
    {
        let id = roster.bench_player_ids[k];
        let ghost prefix = roster.bench_player_ids@.take(k as int);
        proof {
            assert(roster.bench_player_ids@.take(k + 1).drop_last() =~= prefix);
            assert(roster.bench_player_ids@.take(k + 1).last() == id);
        }
        match find_player(catalog, id) {
            Some(p) => {
                bench.push(p.clone());
            },
            None => {
                proof {
                    crate::player::lemma_find_player_resolves(catalog@, id);
                    assert(spec_find_player(catalog@, id) is None);
                }
            },
        }
        k += 1;
    }
    proof {
        assert(roster.bench_player_ids@.take(m as int) =~= roster.bench_player_ids@);
    }

    FantasyTeamWithPlayers {
        id: roster.team.id,
        user_id: roster.team.user_id,
        name: roster.team.name.clone(),
        captain_id: roster.team.captain_id,
        created_at: roster.team.created_at,
        players,
        bench,
        total_points: total,
    }
}

} // verus!
