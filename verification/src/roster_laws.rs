//! Laws the roster validator obeys, stated over the validation pipeline's
//! spec functions and proved once and for all.

use vstd::prelude::*;
use vstd::seq_lib::group_to_multiset_ensures;
use vstd::seq_lib::lemma_multiset_commutative;

use crate::names::names_equal_folded;
use crate::player::Player;
use crate::player::PlayerPosition;
use crate::player::eligible;
use crate::player::player_of;
use crate::player::resolves;
use crate::tally::lemma_count_matching_permutation;
use crate::tally::lemma_first_rejected_none_iff;
use crate::tally::lemma_map_values_multiset;
use crate::tally::lemma_sum_over_permutation;
use crate::team::StarterAssignment;
use crate::team::StoredRoster;
use crate::team::spec_display_bench;
use crate::team::spec_display_starters;
use crate::team::spec_starter_total;
use crate::validation::BENCH_SLOTS;
use crate::validation::BUDGET_CEILING;
use crate::validation::MARQUEE_CAP;
use crate::validation::STARTER_SLOTS;
use crate::validation::RosterViolation;
use crate::validation::bench_goalkeepers;
use crate::validation::assigned_count;
use crate::validation::assigned_to;
use crate::validation::eligible_slot;
use crate::validation::keeper_in;
use crate::validation::known_in;
use crate::validation::marquee_in;
use crate::validation::price_in;
use crate::validation::spec_first_ineligible;
use crate::validation::spec_first_unknown;
use crate::validation::spec_validate;
use crate::validation::squad_marquee_count;
use crate::validation::squad_price;
use crate::validation::starter_ids;
use crate::validation::submitted_ids;

verus! {

/// Two id lists with the same elements are duplicate-free together or not at
/// all.
proof fn lemma_no_duplicates_permutation(s1: Seq<u64>, s2: Seq<u64>)
    requires
        s1.to_multiset() == s2.to_multiset(),
    ensures
        s1.no_duplicates() == s2.no_duplicates(),
{
    broadcast use group_to_multiset_ensures;

    if s1.no_duplicates() {
        s1.lemma_multiset_has_no_duplicates();
        s2.lemma_multiset_has_no_duplicates_conv();
    }
    if s2.no_duplicates() {
        s2.lemma_multiset_has_no_duplicates();
        s1.lemma_multiset_has_no_duplicates_conv();
    }
}

/// A first-failure scan over ids comes up empty on one ordering exactly when
/// it comes up empty on any other.
proof fn lemma_first_unknown_none_permutation(catalog: Seq<Player>, s1: Seq<u64>, s2: Seq<u64>)
    requires
        s1.to_multiset() == s2.to_multiset(),
    ensures
        (spec_first_unknown(catalog, s1) is None) == (spec_first_unknown(catalog, s2) is None),
{
    broadcast use group_to_multiset_ensures;

    lemma_first_rejected_none_iff(s1, known_in(catalog));
    lemma_first_rejected_none_iff(s2, known_in(catalog));
    if spec_first_unknown(catalog, s1) is None {
        assert forall|k: int| 0 <= k < s2.len() implies #[trigger] known_in(catalog)(s2[k]) by {
            assert(s2.contains(s2[k]));
            assert(s1.to_multiset().count(s2[k]) > 0);
            assert(s1.contains(s2[k]));
            let j = choose|j: int| 0 <= j < s1.len() && s1[j] == s2[k];
            assert(known_in(catalog)(s1[j]));
        }
    }
    if spec_first_unknown(catalog, s2) is None {
        assert forall|k: int| 0 <= k < s1.len() implies #[trigger] known_in(catalog)(s1[k]) by {
            assert(s1.contains(s1[k]));
            assert(s2.to_multiset().count(s1[k]) > 0);
            assert(s2.contains(s1[k]));
            let j = choose|j: int| 0 <= j < s2.len() && s2[j] == s1[k];
            assert(known_in(catalog)(s2[j]));
        }
    }
}

/// The eligibility scan comes up empty independently of slot order too.
proof fn lemma_first_ineligible_none_permutation(
    catalog: Seq<Player>,
    s1: Seq<StarterAssignment>,
    s2: Seq<StarterAssignment>,
)
    requires
        s1.to_multiset() == s2.to_multiset(),
    ensures
        (spec_first_ineligible(catalog, s1) is None) == (spec_first_ineligible(catalog, s2)
            is None),
{
    broadcast use group_to_multiset_ensures;

    lemma_first_rejected_none_iff(s1, eligible_slot(catalog));
    lemma_first_rejected_none_iff(s2, eligible_slot(catalog));
    if spec_first_ineligible(catalog, s1) is None {
        assert forall|k: int| 0 <= k < s2.len() implies #[trigger] eligible_slot(catalog)(
            s2[k],
        ) by {
            assert(s2.contains(s2[k]));
            assert(s1.to_multiset().count(s2[k]) > 0);
            assert(s1.contains(s2[k]));
            let j = choose|j: int| 0 <= j < s1.len() && s1[j] == s2[k];
            assert(eligible_slot(catalog)(s1[j]));
        }
    }
    if spec_first_ineligible(catalog, s2) is None {
        assert forall|k: int| 0 <= k < s1.len() implies #[trigger] eligible_slot(catalog)(
            s1[k],
        ) by {
            assert(s1.contains(s1[k]));
            assert(s2.to_multiset().count(s1[k]) > 0);
            assert(s2.contains(s1[k]));
            let j = choose|j: int| 0 <= j < s2.len() && s2[j] == s1[k];
            assert(eligible_slot(catalog)(s2[j]));
        }
    }
}

/// Validation is order-independent in outcome: presenting the same starters
/// and the same bench in any other order yields the same accept/reject
/// verdict. (The reported reason still follows the pipeline order on the
/// ordering actually submitted.)
pub proof fn lemma_validation_order_independent(
    s1: Seq<StarterAssignment>,
    b1: Seq<u64>,
    s2: Seq<StarterAssignment>,
    b2: Seq<u64>,
    captain_id: u64,
    owner_name: Seq<char>,
    catalog: Seq<Player>,
)
    requires
        s1.to_multiset() == s2.to_multiset(),
        b1.to_multiset() == b2.to_multiset(),
    ensures
        (spec_validate(s1, b1, captain_id, owner_name, catalog) is Ok) == (spec_validate(
            s2,
            b2,
            captain_id,
            owner_name,
            catalog,
        ) is Ok),
{
    broadcast use group_to_multiset_ensures;

    // Same lengths on both sides.
    assert(s1.len() == s1.to_multiset().len());
    assert(s2.len() == s2.to_multiset().len());
    assert(b1.len() == b1.to_multiset().len());
    assert(b2.len() == b2.to_multiset().len());
    assert(s1.len() == s2.len());
    assert(b1.len() == b2.len());

    // The starter ids, and with them all submitted ids, are the same
    // multiset.
    let id_of = |a: StarterAssignment| a.player_id;
    lemma_map_values_multiset(s1, s2, id_of);
    assert(s1.map_values(id_of) =~= starter_ids(s1));
    assert(s2.map_values(id_of) =~= starter_ids(s2));
    let ids1 = submitted_ids(s1, b1);
    let ids2 = submitted_ids(s2, b2);
    lemma_multiset_commutative(starter_ids(s1), b1);
    lemma_multiset_commutative(starter_ids(s2), b2);
    assert(ids1.to_multiset() =~= ids2.to_multiset());

    // Each check in the pipeline decides the same way on both orderings.
    lemma_no_duplicates_permutation(ids1, ids2);
    assert(starter_ids(s1).contains(captain_id) == starter_ids(s2).contains(captain_id)) by {
        if starter_ids(s1).contains(captain_id) {
            assert(starter_ids(s1).to_multiset().count(captain_id) > 0);
        }
        if starter_ids(s2).contains(captain_id) {
            assert(starter_ids(s2).to_multiset().count(captain_id) > 0);
        }
    }
    lemma_first_unknown_none_permutation(catalog, ids1, ids2);
    lemma_count_matching_permutation(s1, s2, assigned_to(PlayerPosition::Gk));
    lemma_count_matching_permutation(s1, s2, assigned_to(PlayerPosition::Def));
    lemma_count_matching_permutation(s1, s2, assigned_to(PlayerPosition::Mid));
    lemma_count_matching_permutation(s1, s2, assigned_to(PlayerPosition::Fwd));
    lemma_first_ineligible_none_permutation(catalog, s1, s2);
    lemma_count_matching_permutation(ids1, ids2, marquee_in(catalog));
    lemma_sum_over_permutation(ids1, ids2, price_in(catalog));
    lemma_count_matching_permutation(b1, b2, keeper_in(catalog));
}

/// A roster without exactly 6 starters and 3 bench players is always
/// rejected as the wrong roster size, whatever else it contains: a roster
/// with 7 starters can never be accepted for any other reason.
pub proof fn lemma_wrong_size_rejected(
    starters: Seq<StarterAssignment>,
    bench: Seq<u64>,
    captain_id: u64,
    owner_name: Seq<char>,
    catalog: Seq<Player>,
)
    requires
        starters.len() != STARTER_SLOTS || bench.len() != BENCH_SLOTS,
    ensures
        spec_validate(starters, bench, captain_id, owner_name, catalog) == Err::<
            (),
            RosterViolation,
        >(RosterViolation::WrongRosterSize),
{
}

/// A roster that passes every structural, formation, eligibility, captain
/// and marquee rule, but whose squad costs 71 against the 70 ceiling, is
/// rejected as over budget, reporting that total.
pub proof fn lemma_over_budget_rejected(
    starters: Seq<StarterAssignment>,
    bench: Seq<u64>,
    captain_id: u64,
    owner_name: Seq<char>,
    catalog: Seq<Player>,
)
    requires
        starters.len() == STARTER_SLOTS,
        bench.len() == BENCH_SLOTS,
        submitted_ids(starters, bench).no_duplicates(),
        starter_ids(starters).contains(captain_id),
        spec_first_unknown(catalog, submitted_ids(starters, bench)) is None,
        assigned_count(starters, PlayerPosition::Gk) == 1,
        assigned_count(starters, PlayerPosition::Def) >= 1,
        assigned_count(starters, PlayerPosition::Mid) >= 1,
        assigned_count(starters, PlayerPosition::Fwd) >= 1,
        spec_first_ineligible(catalog, starters) is None,
        !names_equal_folded(player_of(catalog, captain_id).name@, owner_name),
        squad_marquee_count(catalog, submitted_ids(starters, bench)) <= 2,
        squad_price(catalog, submitted_ids(starters, bench)) == 71,
    ensures
        spec_validate(starters, bench, captain_id, owner_name, catalog) == Err::<
            (),
            RosterViolation,
        >(RosterViolation::OverBudget { total_price: 71 }),
{
}

/// A roster whose captain shares the owner's name (case-insensitively,
/// ignoring surrounding whitespace) is rejected for that reason, even though
/// the captain is a legitimate, eligible starter and everything before the
/// name rule passes.
pub proof fn lemma_captain_name_rejected(
    starters: Seq<StarterAssignment>,
    bench: Seq<u64>,
    captain_id: u64,
    owner_name: Seq<char>,
    catalog: Seq<Player>,
)
    requires
        starters.len() == STARTER_SLOTS,
        bench.len() == BENCH_SLOTS,
        submitted_ids(starters, bench).no_duplicates(),
        starter_ids(starters).contains(captain_id),
        spec_first_unknown(catalog, submitted_ids(starters, bench)) is None,
        assigned_count(starters, PlayerPosition::Gk) == 1,
        assigned_count(starters, PlayerPosition::Def) >= 1,
        assigned_count(starters, PlayerPosition::Mid) >= 1,
        assigned_count(starters, PlayerPosition::Fwd) >= 1,
        spec_first_ineligible(catalog, starters) is None,
        names_equal_folded(player_of(catalog, captain_id).name@, owner_name),
    ensures
        spec_validate(starters, bench, captain_id, owner_name, catalog) == Err::<
            (),
            RosterViolation,
        >(RosterViolation::CaptainSharesOwnerName),
{
}

/// Re-submitting an already-accepted roster succeeds again and displays
/// identically: validation and materialization are pure functions of the
/// submission, the owner's name and the catalog snapshot, with no hidden
/// state, so a stored roster holding the same slots materializes to the same
/// starters, the same bench and the same total every time.
pub proof fn lemma_resubmission_idempotent(
    starters: Seq<StarterAssignment>,
    bench: Seq<u64>,
    captain_id: u64,
    owner_name: Seq<char>,
    catalog: Seq<Player>,
    stored: StoredRoster,
)
    requires
        spec_validate(starters, bench, captain_id, owner_name, catalog) is Ok,
        stored.starters@ == starters,
        stored.bench_player_ids@ == bench,
    ensures
        spec_validate(starters, bench, captain_id, owner_name, catalog) is Ok,
        spec_display_starters(catalog, stored.starters@) == spec_display_starters(
            catalog,
            starters,
        ),
        spec_display_bench(catalog, stored.bench_player_ids@) == spec_display_bench(catalog, bench),
        spec_starter_total(catalog, stored.starters@) == spec_starter_total(catalog, starters),
{
}

/// Acceptance, characterized: a submission is accepted exactly when it
/// satisfies every invariant an accepted roster must hold — 6 starters and
/// 3 bench players, all 9 ids distinct and resolving in the catalog, the
/// captain among the starters, exactly 1 goalkeeper and at least 1 defender,
/// midfielder and forward among the assigned positions, every starter
/// eligible for their assigned position, a captain who does not share the
/// owner's name, at most 2 marquee players, a squad price within the
/// ceiling, and exactly 1 goalkeeper on the bench.
pub proof fn lemma_acceptance_characterized(
    starters: Seq<StarterAssignment>,
    bench: Seq<u64>,
    captain_id: u64,
    owner_name: Seq<char>,
    catalog: Seq<Player>,
)
    ensures
        spec_validate(starters, bench, captain_id, owner_name, catalog) is Ok <==> ({
            let ids = submitted_ids(starters, bench);
            &&& starters.len() == STARTER_SLOTS
            &&& bench.len() == BENCH_SLOTS
            &&& ids.no_duplicates()
            &&& starter_ids(starters).contains(captain_id)
            &&& forall|k: int| 0 <= k < ids.len() ==> resolves(catalog, #[trigger] ids[k])
            &&& assigned_count(starters, PlayerPosition::Gk) == 1
            &&& assigned_count(starters, PlayerPosition::Def) >= 1
            &&& assigned_count(starters, PlayerPosition::Mid) >= 1
            &&& assigned_count(starters, PlayerPosition::Fwd) >= 1
            &&& forall|k: int|
                0 <= k < starters.len() ==> eligible(
                    player_of(catalog, (#[trigger] starters[k]).player_id),
                    starters[k].assigned_position,
                )
            &&& !names_equal_folded(player_of(catalog, captain_id).name@, owner_name)
            &&& squad_marquee_count(catalog, ids) <= MARQUEE_CAP as int
            &&& squad_price(catalog, ids) <= BUDGET_CEILING as int
            &&& bench_goalkeepers(catalog, bench) == 1
        }),
{
    let ids = submitted_ids(starters, bench);
    lemma_first_rejected_none_iff(ids, known_in(catalog));
    lemma_first_rejected_none_iff(starters, eligible_slot(catalog));
    assert((forall|k: int| 0 <= k < ids.len() ==> #[trigger] known_in(catalog)(ids[k])) <==> (
    forall|k: int| 0 <= k < ids.len() ==> resolves(catalog, #[trigger] ids[k]))) by {
        if forall|k: int| 0 <= k < ids.len() ==> #[trigger] known_in(catalog)(ids[k]) {
            assert forall|k: int| 0 <= k < ids.len() implies resolves(catalog, #[trigger] ids[k]) by {
                assert(known_in(catalog)(ids[k]));
            }
        }
        if forall|k: int| 0 <= k < ids.len() ==> resolves(catalog, #[trigger] ids[k]) {
            assert forall|k: int| 0 <= k < ids.len() implies #[trigger] known_in(catalog)(ids[k]) by {
                assert(resolves(catalog, ids[k]));
            }
        }
    }
    assert((forall|k: int| 0 <= k < starters.len() ==> #[trigger] eligible_slot(catalog)(
        starters[k],
    )) <==> (forall|k: int|
        0 <= k < starters.len() ==> eligible(
            player_of(catalog, (#[trigger] starters[k]).player_id),
            starters[k].assigned_position,
        ))) by {
        if forall|k: int| 0 <= k < starters.len() ==> #[trigger] eligible_slot(catalog)(
            starters[k],
        ) {
            assert forall|k: int| 0 <= k < starters.len() implies eligible(
                player_of(catalog, (#[trigger] starters[k]).player_id),
                starters[k].assigned_position,
            ) by {
                assert(eligible_slot(catalog)(starters[k]));
            }
        }
        if forall|k: int|
            0 <= k < starters.len() ==> eligible(
                player_of(catalog, (#[trigger] starters[k]).player_id),
                starters[k].assigned_position,
            ) {
            assert forall|k: int| 0 <= k < starters.len() implies #[trigger] eligible_slot(
                catalog,
            )(starters[k]) by {
                assert(eligible(
                    player_of(catalog, starters[k].player_id),
                    starters[k].assigned_position,
                ));
            }
        }
    }
}

} // verus!
