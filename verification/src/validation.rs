//! Roster validation: the ordered pipeline of structural, eligibility,
//! identity, marquee, budget and bench checks that decides whether a
//! submitted roster is accepted, and with which single reason it is rejected.

use vstd::prelude::*;

use crate::names::names_equal_folded;
use crate::names::names_match;
use crate::player::Player;
use crate::player::PlayerPosition;
use crate::player::PRICE_LIMIT;
use crate::player::catalog_wf;
use crate::player::eligible;
use crate::player::find_player;
use crate::player::lemma_find_player_resolves;
use crate::player::player_of;
use crate::player::resolves;
use crate::tally::count_matching;
use crate::tally::first_rejected;
use crate::tally::lemma_count_matching_take_succ;
use crate::tally::lemma_first_rejected_at;
use crate::tally::lemma_first_rejected_none_iff;
use crate::tally::lemma_sum_over_take_succ;
use crate::tally::sum_over;
use crate::team::SetPlayersRequest;
use crate::team::StarterAssignment;

verus! {

/// How many starters a roster fields.
pub const STARTER_SLOTS: usize = 6;

/// How many bench players a roster carries.
pub const BENCH_SLOTS: usize = 3;

/// At most this many marquee ("top") players may appear across the whole
/// squad, starters and bench combined.
pub const MARQUEE_CAP: usize = 2;

/// The squad's total price may not exceed this many currency units.
pub const BUDGET_CEILING: u64 = 70;

/// Why a submitted roster was rejected. The validator reports exactly the
/// first rule the submission breaks, in pipeline order.
#[derive(Clone, Copy, Debug, PartialEq, Eq, Structural)]
pub enum RosterViolation {
    /// Not exactly 6 starters and 3 bench players.
    WrongRosterSize,
    /// The same player appears twice across starters and bench.
    DuplicatePlayer,
    /// The captain is not one of the 6 starters.
    CaptainMustStart,
    /// An id that the player catalog does not resolve.
    UnknownPlayer { player_id: u64 },
    /// Not exactly 1 goalkeeper, or a missing defender, midfielder or
    /// forward, among the assigned starter positions.
    InvalidFormation { position: PlayerPosition },
    /// A starter assigned a position they may not occupy.
    IneligiblePosition { player_id: u64 },
    /// The captain's display name matches the owner's full name.
    CaptainSharesOwnerName,
    /// More marquee players than the cap allows.
    TooManyMarqueePlayers,
    /// The squad's total price, which exceeds the budget ceiling.
    OverBudget { total_price: u64 },
    /// The bench does not hold exactly 1 goalkeeper and 2 outfield players.
    InvalidBenchComposition,
}

/// A roster that passed every check, ready for atomic persistence: all 9
/// slots and the captain replace the stored roster in one unit.
#[derive(Debug, PartialEq)]
pub struct ValidatedRoster {
    pub starters: Vec<StarterAssignment>,
    pub bench_player_ids: Vec<u64>,
    pub captain_id: u64,
}

/// The starter ids, in slot order.
pub open spec fn starter_ids(starters: Seq<StarterAssignment>) -> Seq<u64> {
    starters.map_values(|a: StarterAssignment| a.player_id)
}

/// All submitted ids: starters first, then the bench.
pub open spec fn submitted_ids(starters: Seq<StarterAssignment>, bench: Seq<u64>) -> Seq<u64> {
    starter_ids(starters) + bench
}

/// Holds of a starter slot assigned the given position.
pub open spec fn assigned_to(position: PlayerPosition) -> spec_fn(StarterAssignment) -> bool {
    |a: StarterAssignment| a.assigned_position == position
}

/// How many starters are assigned the given position.
pub open spec fn assigned_count(starters: Seq<StarterAssignment>, position: PlayerPosition) -> int {
    count_matching(starters, assigned_to(position))
}

/// Holds of an id the catalog resolves.
pub open spec fn known_in(catalog: Seq<Player>) -> spec_fn(u64) -> bool {
    |id: u64| resolves(catalog, id)
}

/// The first submitted id the catalog does not resolve, if any.
pub open spec fn spec_first_unknown(catalog: Seq<Player>, ids: Seq<u64>) -> Option<u64> {
    first_rejected(ids, known_in(catalog))
}

/// Holds of a starter slot whose player may occupy the assigned position.
pub open spec fn eligible_slot(catalog: Seq<Player>) -> spec_fn(StarterAssignment) -> bool {
    |a: StarterAssignment| eligible(player_of(catalog, a.player_id), a.assigned_position)
}

/// The first starter assigned a position their player may not occupy, if any.
pub open spec fn spec_first_ineligible(
    catalog: Seq<Player>,
    starters: Seq<StarterAssignment>,
) -> Option<StarterAssignment> {
    first_rejected(starters, eligible_slot(catalog))
}

/// Holds of an id whose player carries the marquee flag.
pub open spec fn marquee_in(catalog: Seq<Player>) -> spec_fn(u64) -> bool {
    |id: u64| player_of(catalog, id).is_top_player
}

/// How many of the given players carry the marquee flag.
pub open spec fn squad_marquee_count(catalog: Seq<Player>, ids: Seq<u64>) -> int {
    count_matching(ids, marquee_in(catalog))
}

/// An id's player's price.
pub open spec fn price_in(catalog: Seq<Player>) -> spec_fn(u64) -> int {
    |id: u64| player_of(catalog, id).price as int
}

/// The summed price of the given players.
pub open spec fn squad_price(catalog: Seq<Player>, ids: Seq<u64>) -> int {
    sum_over(ids, price_in(catalog))
}

/// Holds of an id whose player is a goalkeeper by primary position.
pub open spec fn keeper_in(catalog: Seq<Player>) -> spec_fn(u64) -> bool {
    |id: u64| player_of(catalog, id).position == PlayerPosition::Gk
}

/// How many of the given players are goalkeepers by primary position.
pub open spec fn bench_goalkeepers(catalog: Seq<Player>, ids: Seq<u64>) -> int {
    count_matching(ids, keeper_in(catalog))
}

/// The validation pipeline. Checks run in a fixed order and the first
/// failure decides the reported reason:
/// sizes, duplicates, captain membership, existence, formation, per-starter
/// eligibility, the captain-name rule, the marquee cap, the budget ceiling,
/// and bench composition.
pub open spec fn spec_validate(
    starters: Seq<StarterAssignment>,
    bench: Seq<u64>,
    captain_id: u64,
    owner_name: Seq<char>,
    catalog: Seq<Player>,
) -> Result<(), RosterViolation> {
    let ids = submitted_ids(starters, bench);
    if starters.len() != STARTER_SLOTS || bench.len() != BENCH_SLOTS {
        Err(RosterViolation::WrongRosterSize)
    } else if !ids.no_duplicates() {
        Err(RosterViolation::DuplicatePlayer)
    } else if !starter_ids(starters).contains(captain_id) {
        Err(RosterViolation::CaptainMustStart)
    } else if spec_first_unknown(catalog, ids) is Some {
        Err(
            RosterViolation::UnknownPlayer {
                player_id: spec_first_unknown(catalog, ids)->Some_0,
            },
        )
    } else if assigned_count(starters, PlayerPosition::Gk) != 1 {
        Err(RosterViolation::InvalidFormation { position: PlayerPosition::Gk })
    } else if assigned_count(starters, PlayerPosition::Def) < 1 {
        Err(RosterViolation::InvalidFormation { position: PlayerPosition::Def })
    } else if assigned_count(starters, PlayerPosition::Mid) < 1 {
        Err(RosterViolation::InvalidFormation { position: PlayerPosition::Mid })
    } else if assigned_count(starters, PlayerPosition::Fwd) < 1 {
        Err(RosterViolation::InvalidFormation { position: PlayerPosition::Fwd })
    } else if spec_first_ineligible(catalog, starters) is Some {
        Err(
            RosterViolation::IneligiblePosition {
                player_id: spec_first_ineligible(catalog, starters)->Some_0.player_id,
            },
        )
    } else if names_equal_folded(player_of(catalog, captain_id).name@, owner_name) {
        Err(RosterViolation::CaptainSharesOwnerName)
    } else if squad_marquee_count(catalog, ids) > MARQUEE_CAP as int {
        Err(RosterViolation::TooManyMarqueePlayers)
    } else if squad_price(catalog, ids) > BUDGET_CEILING as int {
        Err(RosterViolation::OverBudget { total_price: squad_price(catalog, ids) as u64 })
    } else if bench_goalkeepers(catalog, bench) != 1 {
        Err(RosterViolation::InvalidBenchComposition)
    } else {
        Ok(())
    }
}

/// The starter ids as a vector, in slot order.
fn starter_id_vec(starters: &Vec<StarterAssignment>) -> (ids: Vec<u64>)
    ensures
        ids@ == starter_ids(starters@),
{
    let mut ids: Vec<u64> = Vec::new();
    let n = starters.len();
    let mut i: usize = 0;
    while i < n
        invariant
            0 <= i <= n,
            n == starters@.len(),
            ids@.len() == i,
            forall|k: int| 0 <= k < i ==> ids@[k] == starters@[k].player_id,
        decreases n - i,
    {
        ids.push(starters[i].player_id);
        i += 1;
    }
    proof {
        assert(ids@ =~= starter_ids(starters@));
    }
    ids
}

/// Does any id occur twice?
fn has_duplicate(ids: &Vec<u64>) -> (dup: bool)
    ensures
        dup == !ids@.no_duplicates(),
{
    let n = ids.len();
    let mut i: usize = 0;
    while i < n
        invariant
            0 <= i <= n,
            n == ids@.len(),
            forall|a: int, b: int| 0 <= a < b < n && a < i ==> ids@[a] != ids@[b],
        decreases n - i,
    {
        let mut j: usize = i + 1;
        while j < n
            invariant
                0 <= i < j <= n,
                n == ids@.len(),
                forall|b: int| i < b < j ==> ids@[i as int] != ids@[b],
            decreases n - j,
        {
            if ids[i] == ids[j] {
                return true;
            }
            j += 1;
        }
        i += 1;
    }
    false
}

/// Does the list contain this id?
fn contains_id(ids: &Vec<u64>, id: u64) -> (found: bool)
    ensures
        found == ids@.contains(id),
{
    let n = ids.len();
    let mut i: usize = 0;
    while i < n
        invariant
            0 <= i <= n,
            n == ids@.len(),
            forall|k: int| 0 <= k < i ==> ids@[k] != id,
        decreases n - i,
    {
        if ids[i] == id {
            return true;
        }
        i += 1;
    }
    false
}

/// How many starters are assigned the given position.
fn count_position(starters: &Vec<StarterAssignment>, position: PlayerPosition) -> (count: usize)
    ensures
        count as int == assigned_count(starters@, position),
        count <= starters@.len(),
{
    let n = starters.len();
    let mut count: usize = 0;
    let mut i: usize = 0;
    while i < n
        invariant
            0 <= i <= n,
            n == starters@.len(),
            count <= i,
            count as int == assigned_count(starters@.take(i as int), position),
        decreases n - i,
    {
        proof {
            lemma_count_matching_take_succ(starters@, assigned_to(position), i as int);
            assert(assigned_to(position)(starters@[i as int]) == (starters@[i as int].assigned_position
                == position));
        }
        if starters[i].assigned_position == position {
            count += 1;
        }
        i += 1;
    }
    proof {
        assert(starters@.take(n as int) =~= starters@);
    }
    count
}

/// Copy the starter slots for the validated roster.
fn copy_assignments(starters: &Vec<StarterAssignment>) -> (out: Vec<StarterAssignment>)
    ensures
        out@ == starters@,
{
    let mut out: Vec<StarterAssignment> = Vec::new();
    let n = starters.len();
    let mut i: usize = 0;
    while i < n
        invariant
            0 <= i <= n,
            n == starters@.len(),
            out@ =~= starters@.take(i as int),
        decreases n - i,
    {
        out.push(starters[i]);
        i += 1;
    }
    proof {
        assert(starters@.take(n as int) =~= starters@);
    }
    out
}

/// Copy the bench ids for the validated roster.
fn copy_ids(ids: &Vec<u64>) -> (out: Vec<u64>)
    ensures
        out@ == ids@,
{
    let mut out: Vec<u64> = Vec::new();
    let n = ids.len();
    let mut i: usize = 0;
    while i < n
        invariant
            0 <= i <= n,
            n == ids@.len(),
            out@ =~= ids@.take(i as int),
        decreases n - i,
    {
        out.push(ids[i]);
        i += 1;
    }
    proof {
        assert(ids@.take(n as int) =~= ids@);
    }
    out
}

/// Check a submitted roster against the catalog snapshot and the owner's
/// full name. The result is exactly what the validation pipeline
/// (`spec_validate`) decides: acceptance hands back the submission as a
/// roster ready for atomic persistence; rejection names the first rule the
/// submission breaks.
#[verifier::loop_isolation(false)]
pub fn validate_roster(
    req: &SetPlayersRequest,
    owner_full_name: &str,
    catalog: &Vec<Player>,
) -> (result: Result<ValidatedRoster, RosterViolation>)
    requires
        catalog_wf(catalog@),
    ensures
        result is Ok <==> spec_validate(
            req.starters@,
            req.bench_player_ids@,
            req.captain_id,
            owner_full_name@,
            catalog@,
        ) is Ok,
        result matches Err(e) ==> Err::<(), RosterViolation>(e) == spec_validate(
            req.starters@,
            req.bench_player_ids@,
            req.captain_id,
            owner_full_name@,
            catalog@,
        ),
        result matches Ok(v) ==> v.starters@ == req.starters@ && v.bench_player_ids@
            == req.bench_player_ids@ && v.captain_id == req.captain_id,
{
    let ghost g_starters = req.starters@;
    let ghost g_bench = req.bench_player_ids@;
    let ghost g_ids = submitted_ids(g_starters, g_bench);

    // Structural: exactly 6 starters and 3 bench players.
    if req.starters.len() != STARTER_SLOTS || req.bench_player_ids.len() != BENCH_SLOTS {
        return Err(RosterViolation::WrongRosterSize);
    }

    // Structural: all 9 ids distinct.
    let s_ids = starter_id_vec(&req.starters);
    let mut all_ids = copy_ids(&s_ids);
    let mut bench_copy = copy_ids(&req.bench_player_ids);
    all_ids.append(&mut bench_copy);
    proof {
        assert(all_ids@ == g_ids);
    }
    if has_duplicate(&all_ids) {
        return Err(RosterViolation::DuplicatePlayer);
    }

    // Captain membership: the captain starts.
    if !contains_id(&s_ids, req.captain_id) {
        return Err(RosterViolation::CaptainMustStart);
    }

    // Existence: every id resolves in the catalog.
    {
        let n = all_ids.len();
        let mut i: usize = 0;
        while i < n
            invariant
                0 <= i <= n,
                n == all_ids@.len(),
                all_ids@ == g_ids,
                forall|k: int| 0 <= k < i ==> resolves(catalog@, #[trigger] g_ids[k]),
            decreases n - i,
        {
            if find_player(catalog, all_ids[i]).is_none() {
                proof {
                    assert(!known_in(catalog@)(g_ids[i as int]));
                    assert(forall|k: int| 0 <= k < i ==> #[trigger] known_in(catalog@)(g_ids[k]));
                    lemma_first_rejected_at(g_ids, known_in(catalog@), i as int);
                }
                return Err(RosterViolation::UnknownPlayer { player_id: all_ids[i] });
            }
            i += 1;
        }
        proof {
            assert(forall|k: int|
                0 <= k < g_ids.len() ==> #[trigger] known_in(catalog@)(g_ids[k]));
            lemma_first_rejected_none_iff(g_ids, known_in(catalog@));
        }
    }
    assert(spec_first_unknown(catalog@, g_ids) is None);
    assert(forall|k: int| 0 <= k < g_ids.len() ==> resolves(catalog@, #[trigger] g_ids[k]));
    assert(forall|k: int|
        0 <= k < g_starters.len() ==> resolves(catalog@, #[trigger] g_starters[k].player_id)) by {
        assert(forall|k: int|
            0 <= k < g_starters.len() ==> g_ids[k] == #[trigger] g_starters[k].player_id);
    }

    // Formation: exactly 1 goalkeeper, at least 1 defender, midfielder and
    // forward among the assigned positions.
    if count_position(&req.starters, PlayerPosition::Gk) != 1 {
        return Err(RosterViolation::InvalidFormation { position: PlayerPosition::Gk });
    }
    if count_position(&req.starters, PlayerPosition::Def) < 1 {
        return Err(RosterViolation::InvalidFormation { position: PlayerPosition::Def });
    }
    if count_position(&req.starters, PlayerPosition::Mid) < 1 {
        return Err(RosterViolation::InvalidFormation { position: PlayerPosition::Mid });
    }
    if count_position(&req.starters, PlayerPosition::Fwd) < 1 {
        return Err(RosterViolation::InvalidFormation { position: PlayerPosition::Fwd });
    }

    // Eligibility: each starter's assigned position is their primary or
    // secondary position.
    {
        let n = req.starters.len();
        let mut i: usize = 0;
        while i < n
            invariant
                0 <= i <= n,
                n == g_starters.len(),
                g_starters == req.starters@,
                catalog_wf(catalog@),
                forall|k: int|
                    0 <= k < g_starters.len() ==> resolves(
                        catalog@,
                        #[trigger] g_starters[k].player_id,
                    ),
                forall|k: int| 0 <= k < i ==> #[trigger] eligible_slot(catalog@)(g_starters[k]),
            decreases n - i,
        {
            let slot = req.starters[i];
            match find_player(catalog, slot.player_id) {
                Some(p) => {
                    let primary = p.position == slot.assigned_position;
                    let secondary = match p.secondary_position {
                        Some(sp) => sp == slot.assigned_position,
                        None => false,
                    };
                    let allowed = primary || secondary;
                    proof {
                        assert(player_of(catalog@, slot.player_id) == *p);
                        assert(allowed == eligible(*p, slot.assigned_position));
                        assert(eligible_slot(catalog@)(slot) == allowed);
                    }
                    if !allowed {
                        proof {
                            lemma_first_rejected_at(g_starters, eligible_slot(catalog@), i as int);
                        }
                        return Err(
                            RosterViolation::IneligiblePosition { player_id: slot.player_id },
                        );
                    }
                },
                None => {
                    // unreachable: every starter id was resolved above
                    proof {
                        lemma_find_player_resolves(catalog@, slot.player_id);
                        assert(false);
                    }
                    return Err(RosterViolation::WrongRosterSize);
                },
            }
            i += 1;
        }
        proof {
            lemma_first_rejected_none_iff(g_starters, eligible_slot(catalog@));
        }
    }
    assert(spec_first_ineligible(catalog@, g_starters) is None);

    // The captain-name rule: the captain must not share the owner's name.
    let captain = match find_player(catalog, req.captain_id) {
        Some(p) => p,
        None => {
            // unreachable: the captain is a starter and every starter id was
            // resolved above
            proof {
                let w = choose|w: int|
                    0 <= w < starter_ids(g_starters).len() && starter_ids(g_starters)[w]
                        == req.captain_id;
                assert(g_ids[w] == req.captain_id);
                lemma_find_player_resolves(catalog@, req.captain_id);
                assert(false);
            }
            return Err(RosterViolation::WrongRosterSize);
        },
    };
    proof {
        assert(player_of(catalog@, req.captain_id) == *captain);
    }
    if names_match(captain.name.as_str(), owner_full_name) {
        return Err(RosterViolation::CaptainSharesOwnerName);
    }

    // The marquee cap over the whole squad.
    let mut top_count: usize = 0;
    {
        let n = all_ids.len();
        let mut i: usize = 0;
        while i < n
            invariant
                0 <= i <= n,
                n == g_ids.len(),
                all_ids@ == g_ids,
                catalog_wf(catalog@),
                top_count <= i,
                forall|k: int| 0 <= k < g_ids.len() ==> resolves(catalog@, #[trigger] g_ids[k]),
                top_count as int == squad_marquee_count(catalog@, g_ids.take(i as int)),
            decreases n - i,
        {
            proof {
                lemma_count_matching_take_succ(g_ids, marquee_in(catalog@), i as int);
            }
            match find_player(catalog, all_ids[i]) {
                Some(p) => {
                    proof {
                        assert(player_of(catalog@, g_ids[i as int]) == *p);
                        assert(marquee_in(catalog@)(g_ids[i as int]) == p.is_top_player);
                    }
                    if p.is_top_player {
                        top_count += 1;
                    }
                },
                None => {
                    // unreachable: every submitted id was resolved above
                    proof {
                        lemma_find_player_resolves(catalog@, g_ids[i as int]);
                        assert(false);
                    }
                    return Err(RosterViolation::WrongRosterSize);
                },
            }
            i += 1;
        }
        proof {
            assert(g_ids.take(n as int) =~= g_ids);
        }
    }
    if top_count > MARQUEE_CAP {
        return Err(RosterViolation::TooManyMarqueePlayers);
    }

    // The budget ceiling over the whole squad.
    let mut total_cost: u64 = 0;
    {
        let n = all_ids.len();
        let mut i: usize = 0;
        while i < n
            invariant
                0 <= i <= n,
                n == g_ids.len(),
                n == 9,
                all_ids@ == g_ids,
                catalog_wf(catalog@),
                forall|k: int| 0 <= k < g_ids.len() ==> resolves(catalog@, #[trigger] g_ids[k]),
                total_cost as int == squad_price(catalog@, g_ids.take(i as int)),
                total_cost <= (i as u64) * PRICE_LIMIT,
            decreases n - i,
        {
            proof {
                lemma_sum_over_take_succ(g_ids, price_in(catalog@), i as int);
            }
            match find_player(catalog, all_ids[i]) {
                Some(p) => {
                    proof {
                        assert(player_of(catalog@, g_ids[i as int]) == *p);
                        assert(price_in(catalog@)(g_ids[i as int]) == p.price as int);
                        lemma_find_player_resolves(catalog@, g_ids[i as int]);
                        let j = choose|j: int| 0 <= j < catalog@.len() && catalog@[j] == *p;
                        assert(p.price <= PRICE_LIMIT);
                        assert((i as u64 + 1) * PRICE_LIMIT == (i as u64) * PRICE_LIMIT
                            + PRICE_LIMIT) by (nonlinear_arith);
                        assert((i as u64 + 1) * PRICE_LIMIT <= 9 * PRICE_LIMIT) by (nonlinear_arith)
                            requires
                                i < 9,
                        ;
                    }
                    total_cost = total_cost + p.price;
                },
                None => {
                    // unreachable: every submitted id was resolved above
                    proof {
                        lemma_find_player_resolves(catalog@, g_ids[i as int]);
                        assert(false);
                    }
                    return Err(RosterViolation::WrongRosterSize);
                },
            }
            i += 1;
        }
        proof {
            assert(g_ids.take(n as int) =~= g_ids);
        }
    }
    if total_cost > BUDGET_CEILING {
        proof {
            assert(squad_price(catalog@, g_ids) as u64 == total_cost);
        }
        return Err(RosterViolation::OverBudget { total_price: total_cost });
    }

    // Bench composition: exactly 1 goalkeeper and 2 outfield players.
    let mut gk_on_bench: usize = 0;
    {
        let n = req.bench_player_ids.len();
        let mut i: usize = 0;
        while i < n
            invariant
                0 <= i <= n,
                n == g_bench.len(),
                g_bench == req.bench_player_ids@,
                catalog_wf(catalog@),
                gk_on_bench <= i,
                forall|k: int| 0 <= k < g_ids.len() ==> resolves(catalog@, #[trigger] g_ids[k]),
                g_ids == submitted_ids(g_starters, g_bench),
                g_starters.len() == 6,
                g_bench.len() == 3,
                gk_on_bench as int == bench_goalkeepers(catalog@, g_bench.take(i as int)),
            decreases n - i,
        {
            proof {
                lemma_count_matching_take_succ(g_bench, keeper_in(catalog@), i as int);
                assert(g_ids[6 + i as int] == g_bench[i as int]);
            }
            match find_player(catalog, req.bench_player_ids[i]) {
                Some(p) => {
                    proof {
                        assert(player_of(catalog@, g_bench[i as int]) == *p);
                        assert(keeper_in(catalog@)(g_bench[i as int]) == (p.position
                            == PlayerPosition::Gk));
                    }
                    if p.position == PlayerPosition::Gk {
                        gk_on_bench += 1;
                    }
                },
                None => {
                    // unreachable: every submitted id was resolved above
                    proof {
                        lemma_find_player_resolves(catalog@, g_bench[i as int]);
                        assert(false);
                    }
                    return Err(RosterViolation::WrongRosterSize);
                },
            }
            i += 1;
        }
        proof {
            assert(g_bench.take(n as int) =~= g_bench);
        }
    }
    if gk_on_bench != 1 {
        return Err(RosterViolation::InvalidBenchComposition);
    }

    let starters = copy_assignments(&req.starters);
    let bench_player_ids = copy_ids(&req.bench_player_ids);
    Ok(ValidatedRoster { starters, bench_player_ids, captain_id: req.captain_id })
}

} // verus!
