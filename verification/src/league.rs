//! Leagues and their standings: summing each member's starter points and
//! ranking members by total, highest first. Ties keep the order the members
//! were fetched in — the ranking is stable, and that order carries no further
//! meaning.

use vstd::multiset::Multiset;
use vstd::prelude::*;

use crate::player::Player;
use crate::player::catalog_wf;
use crate::team::StoredRoster;
use crate::team::materialize;
use crate::team::spec_starter_total;
use crate::team::roster_displayable;

verus! {

/// A league as the league store keeps it.
#[derive(Debug, PartialEq)]
pub struct League {
    pub id: u64,
    pub name: String,
    pub invite_code: String,
    pub created_by: u64,
    pub created_at: i64,
}

/// One row of a league's member list, as the membership store supplies it.
#[derive(Debug, PartialEq)]
pub struct LeagueMember {
    pub user_id: u64,
    pub username: String,
}

/// A league member with their team name and summed starter points.
#[derive(Debug, PartialEq)]
pub struct LeagueMemberStanding {
    pub user_id: u64,
    pub username: String,
    pub team_name: Option<String>,
    pub total_points: Option<i64>,
}

/// League detail with member standings.
#[derive(Debug, PartialEq)]
pub struct LeagueDetail {
    pub league: League,
    pub members: Vec<LeagueMemberStanding>,
}

/// Request to create a league.
#[derive(Debug)]
pub struct CreateLeagueRequest {
    pub name: String,
}

/// Request to join a league.
#[derive(Debug)]
pub struct JoinLeagueRequest {
    pub invite_code: String,
}

/// A league name must not be empty.
pub fn league_name_valid(req: &CreateLeagueRequest) -> (valid: bool)
    ensures
        valid == (req.name@.len() != 0),
{
    !req.name.as_str().is_empty()
}

/// The points a standing ranks by: a member without a recorded total ranks
/// at zero.
pub open spec fn standing_points(s: LeagueMemberStanding) -> int {
    match s.total_points {
        Some(p) => p as int,
        None => 0,
    }
}

/// Ranked from highest to lowest points.
pub open spec fn sorted_desc(s: Seq<LeagueMemberStanding>) -> bool {
    forall|i: int, j: int|
        0 <= i < j < s.len() ==> standing_points(s[i]) >= standing_points(s[j])
}

/// Insert one standing into a ranked list: it lands after every entry with
/// at least as many points, so equal-scoring entries keep their present
/// order.
pub open spec fn spec_insert_ranked(
    sorted: Seq<LeagueMemberStanding>,
    x: LeagueMemberStanding,
) -> Seq<LeagueMemberStanding>
    decreases sorted.len(),
{
    if sorted.len() == 0 {
        seq![x]
    } else if standing_points(sorted[0]) < standing_points(x) {
        seq![x] + sorted
    } else {
        seq![sorted[0]] + spec_insert_ranked(sorted.drop_first(), x)
    }
}

/// Rank a list of standings: entries are inserted in the order they arrive,
/// each after all entries with at least as many points. The result is the
/// unique stable descending ordering of the input.
pub open spec fn spec_rank(entries: Seq<LeagueMemberStanding>) -> Seq<LeagueMemberStanding>
    decreases entries.len(),
{
    if entries.len() == 0 {
        Seq::empty()
    } else {
        spec_insert_ranked(spec_rank(entries.drop_last()), entries.last())
    }
}

/// Inserting adds exactly the new standing to the list's contents.
proof fn lemma_insert_ranked_multiset(sorted: Seq<LeagueMemberStanding>, x: LeagueMemberStanding)
    ensures
        spec_insert_ranked(sorted, x).to_multiset() == sorted.to_multiset().insert(x),
        spec_insert_ranked(sorted, x).len() == sorted.len() + 1,
    decreases sorted.len(),
{
    broadcast use vstd::seq_lib::group_to_multiset_ensures;

    if sorted.len() == 0 {
        assert(spec_insert_ranked(sorted, x) =~= Seq::empty().push(x));
        assert(spec_insert_ranked(sorted, x).to_multiset() =~= sorted.to_multiset().insert(x));
    } else if standing_points(sorted[0]) < standing_points(x) {
        let out = seq![x] + sorted;
        assert(out =~= sorted.insert(0, x));
        vstd::seq_lib::lemma_multiset_commutative(seq![x], sorted);
        assert(seq![x].to_multiset() =~= Multiset::empty().insert(x)) by {
            assert(seq![x] =~= Seq::empty().push(x));
        }
        assert(out.to_multiset() =~= sorted.to_multiset().insert(x));
    } else {
        lemma_insert_ranked_multiset(sorted.drop_first(), x);
        let rest = spec_insert_ranked(sorted.drop_first(), x);
        let out = seq![sorted[0]] + rest;
        vstd::seq_lib::lemma_multiset_commutative(seq![sorted[0]], rest);
        assert(seq![sorted[0]].to_multiset() =~= Multiset::empty().insert(sorted[0])) by {
            assert(seq![sorted[0]] =~= Seq::empty().push(sorted[0]));
        }
        assert(sorted =~= seq![sorted[0]] + sorted.drop_first());
        vstd::seq_lib::lemma_multiset_commutative(seq![sorted[0]], sorted.drop_first());
        assert(out.to_multiset() =~= sorted.to_multiset().insert(x));
    }
}

/// Inserting into a ranked list keeps it ranked.
proof fn lemma_insert_ranked_sorted(sorted: Seq<LeagueMemberStanding>, x: LeagueMemberStanding)
    requires
        sorted_desc(sorted),
    ensures
        sorted_desc(spec_insert_ranked(sorted, x)),
    decreases sorted.len(),
{
    broadcast use vstd::seq_lib::group_to_multiset_ensures;

    if sorted.len() == 0 {
    } else if standing_points(sorted[0]) < standing_points(x) {
    } else {
        assert(sorted_desc(sorted.drop_first()));
        lemma_insert_ranked_sorted(sorted.drop_first(), x);
        lemma_insert_ranked_multiset(sorted.drop_first(), x);
        let rest = spec_insert_ranked(sorted.drop_first(), x);
        let out = seq![sorted[0]] + rest;
        assert forall|i: int, j: int| 0 <= i < j < out.len() implies standing_points(out[i])
            >= standing_points(out[j]) by {
            if i == 0 {
                // everything in `rest` is either `x` or came from the tail,
                // and the head outranks both
                assert(rest.contains(rest[j - 1]));
                assert(rest.to_multiset().count(rest[j - 1]) > 0);
                if rest[j - 1] == x {
                } else {
                    assert(sorted.drop_first().to_multiset().count(rest[j - 1]) > 0);
                    assert(sorted.drop_first().contains(rest[j - 1]));
                    let w = choose|w: int|
                        0 <= w < sorted.drop_first().len() && sorted.drop_first()[w] == rest[j - 1];
                    assert(sorted[w + 1] == rest[j - 1]);
                }
            } else {
                assert(out[i] == rest[i - 1]);
                assert(out[j] == rest[j - 1]);
            }
        }
    }
}

/// Ranking keeps exactly the entries it was given, in ranked order.
pub proof fn lemma_rank_sorted(entries: Seq<LeagueMemberStanding>)
    ensures
        sorted_desc(spec_rank(entries)),
        spec_rank(entries).to_multiset() == entries.to_multiset(),
        spec_rank(entries).len() == entries.len(),
    decreases entries.len(),
{
    broadcast use vstd::seq_lib::group_to_multiset_ensures;

    if entries.len() > 0 {
        lemma_rank_sorted(entries.drop_last());
        lemma_insert_ranked_sorted(spec_rank(entries.drop_last()), entries.last());
        lemma_insert_ranked_multiset(spec_rank(entries.drop_last()), entries.last());
        assert(entries =~= entries.drop_last().push(entries.last()));
        assert(entries.drop_last().push(entries.last()).to_multiset()
            == entries.drop_last().to_multiset().insert(entries.last()));
    }
}

/// Where the exec scan stops is exactly where the spec insertion lands.
proof fn lemma_insert_ranked_at(sorted: Seq<LeagueMemberStanding>, x: LeagueMemberStanding, j: int)
    requires
        0 <= j <= sorted.len(),
        forall|k: int| 0 <= k < j ==> standing_points(sorted[k]) >= standing_points(x),
        j < sorted.len() ==> standing_points(sorted[j]) < standing_points(x),
    ensures
        spec_insert_ranked(sorted, x) == sorted.insert(j, x),
    decreases j,
{
    if j == 0 {
        if sorted.len() == 0 {
            assert(spec_insert_ranked(sorted, x) =~= sorted.insert(0, x));
        } else {
            assert(spec_insert_ranked(sorted, x) =~= sorted.insert(0, x));
        }
    } else {
        assert(standing_points(sorted[0]) >= standing_points(x));
        assert(forall|k: int|
            0 <= k < j - 1 ==> standing_points(#[trigger] sorted.drop_first()[k])
                >= standing_points(x));
        lemma_insert_ranked_at(sorted.drop_first(), x, j - 1);
        assert(spec_insert_ranked(sorted, x) =~= sorted.insert(j, x));
    }
}

fn standing_points_exec(s: &LeagueMemberStanding) -> (points: i64)
    ensures
        points as int == standing_points(*s),
{
    match s.total_points {
        Some(p) => p,
        None => 0,
    }
}

/// Insert one standing into an already ranked vector, after every entry with
/// at least as many points.
fn insert_ranked(standings: &mut Vec<LeagueMemberStanding>, x: LeagueMemberStanding)
    ensures
        final(standings)@ == spec_insert_ranked(old(standings)@, x),
{
    let n = standings.len();
    let ghost s0 = standings@;
    let x_points = standing_points_exec(&x);
    let mut j: usize = 0;
    while j < n && standing_points_exec(&standings[j]) >= x_points
        invariant
            0 <= j <= n,
            n == standings@.len(),
            standings@ == s0,
            x_points as int == standing_points(x),
            forall|k: int| 0 <= k < j ==> standing_points(s0[k]) >= standing_points(x),
        decreases n - j,
    {
        j += 1;
    }
    proof {
        lemma_insert_ranked_at(s0, x, j as int);
    }
    standings.insert(j, x);
}

/// The stored roster of the given user, if they have one.
pub open spec fn spec_find_roster(rosters: Seq<StoredRoster>, user_id: u64) -> Option<StoredRoster>
    decreases rosters.len(),
{
    if rosters.len() == 0 {
        None
    } else if rosters[0].team.user_id == user_id {
        Some(rosters[0])
    } else {
        spec_find_roster(rosters.drop_first(), user_id)
    }
}

/// The standing one member projects to: their team name and summed starter
/// points, or no team and zero points if they have no roster yet.
pub open spec fn spec_standing_of(
    member: LeagueMember,
    rosters: Seq<StoredRoster>,
    catalog: Seq<Player>,
) -> LeagueMemberStanding {
    match spec_find_roster(rosters, member.user_id) {
        Some(r) => LeagueMemberStanding {
            user_id: member.user_id,
            username: member.username,
            team_name: Some(r.team.name),
            total_points: Some(spec_starter_total(catalog, r.starters@) as i64),
        },
        None => LeagueMemberStanding {
            user_id: member.user_id,
            username: member.username,
            team_name: None,
            total_points: Some(0),
        },
    }
}

/// What each member projects to, in fetched order.
pub open spec fn standing_fn(
    rosters: Seq<StoredRoster>,
    catalog: Seq<Player>,
) -> spec_fn(LeagueMember) -> LeagueMemberStanding {
    |m: LeagueMember| spec_standing_of(m, rosters, catalog)
}

/// The standings each member projects to, in fetched order, before ranking.
pub open spec fn spec_standings_of(
    members: Seq<LeagueMember>,
    rosters: Seq<StoredRoster>,
    catalog: Seq<Player>,
) -> Seq<LeagueMemberStanding> {
    members.map_values(standing_fn(rosters, catalog))
}

proof fn lemma_find_roster_first_match(rosters: Seq<StoredRoster>, user_id: u64, i: int)
    requires
        0 <= i < rosters.len(),
        rosters[i].team.user_id == user_id,
        forall|k: int| 0 <= k < i ==> rosters[k].team.user_id != user_id,
    ensures
        spec_find_roster(rosters, user_id) == Some(rosters[i]),
    decreases i,
{
    if i > 0 {
        lemma_find_roster_first_match(rosters.drop_first(), user_id, i - 1);
    }
}

proof fn lemma_find_roster_no_match(rosters: Seq<StoredRoster>, user_id: u64)
    requires
        forall|k: int| 0 <= k < rosters.len() ==> rosters[k].team.user_id != user_id,
    ensures
        spec_find_roster(rosters, user_id) is None,
    decreases rosters.len(),
{
    if rosters.len() > 0 {
        lemma_find_roster_no_match(rosters.drop_first(), user_id);
    }
}

/// Look up a user's stored roster.
pub fn find_roster<'a>(rosters: &'a Vec<StoredRoster>, user_id: u64) -> (found: Option<
    &'a StoredRoster,
>)
    ensures
        found matches Some(r) ==> spec_find_roster(rosters@, user_id) == Some(*r)
            && rosters@.contains(*r),
        found is None ==> spec_find_roster(rosters@, user_id) is None,
{
    let n = rosters.len();
    let mut i: usize = 0;
    while i < n
        invariant
            0 <= i <= n,
            n == rosters@.len(),
            forall|k: int| 0 <= k < i ==> rosters@[k].team.user_id != user_id,
        decreases n - i,
    {
        if rosters[i].team.user_id == user_id {
            proof {
                lemma_find_roster_first_match(rosters@, user_id, i as int);
            }
            return Some(&rosters[i]);
        }
        i += 1;
    }
    proof {
        lemma_find_roster_no_match(rosters@, user_id);
    }
    None
}

/// Standings for a league: every member projects to a standing — with zero
/// points and no team name if they have no roster yet — and the standings
/// come back ranked by points, highest first, ties keeping fetched order.
#[verifier::loop_isolation(false)]
pub fn league_standings(
    members: &Vec<LeagueMember>,
    rosters: &Vec<StoredRoster>,
    catalog: &Vec<Player>,
) -> (standings: Vec<LeagueMemberStanding>)
    requires
        catalog_wf(catalog@),
        forall|i: int| 0 <= i < rosters@.len() ==> roster_displayable(#[trigger] rosters@[i]),
    ensures
        standings@ == spec_rank(spec_standings_of(members@, rosters@, catalog@)),
        sorted_desc(standings@),
        standings@.len() == members@.len(),
        standings@.to_multiset() == spec_standings_of(members@, rosters@, catalog@).to_multiset(),
{
    let mut standings: Vec<LeagueMemberStanding> = Vec::new();
    let n = members.len();
    let mut i: usize = 0;
    while i < n
        invariant
            0 <= i <= n,
            standings@ == spec_rank(
                spec_standings_of(members@.take(i as int), rosters@, catalog@),
            ),
        decreases n - i,
    {
        let member = &members[i];
        let entry = match find_roster(rosters, member.user_id) {
            Some(r) => {
                proof {
                    let k = choose|k: int| 0 <= k < rosters@.len() && rosters@[k] == *r;
                    assert(roster_displayable(rosters@[k]));
                }
                let display = materialize(r, catalog);
                LeagueMemberStanding {
                    user_id: member.user_id,
                    username: member.username.clone(),
                    team_name: Some(r.team.name.clone()),
                    total_points: Some(display.total_points as i64),
                }
            },
            None => LeagueMemberStanding {
                user_id: member.user_id,
                username: member.username.clone(),
                team_name: None,
                total_points: Some(0),
            },
        };
        proof {
            assert(standing_fn(rosters@, catalog@)(members@[i as int]) == entry);
            let before = spec_standings_of(members@.take(i as int), rosters@, catalog@);
            let after = spec_standings_of(members@.take(i + 1), rosters@, catalog@);
            assert(after =~= before.push(entry));
            assert(after.drop_last() =~= before);
            assert(after.last() == entry);
        }
        insert_ranked(&mut standings, entry);
        i += 1;
    }
    proof {
        assert(members@.take(n as int) =~= members@);
        lemma_rank_sorted(spec_standings_of(members@, rosters@, catalog@));
        assert(spec_standings_of(members@, rosters@, catalog@).len() == members@.len());
    }
    standings
}

/// A league member with no roster still appears in the standings — with zero
/// points and no team name, never omitted.
pub proof fn lemma_memberless_zero_standing(
    members: Seq<LeagueMember>,
    rosters: Seq<StoredRoster>,
    catalog: Seq<Player>,
    i: int,
)
    requires
        0 <= i < members.len(),
        spec_find_roster(rosters, members[i].user_id) is None,
    ensures
        spec_rank(spec_standings_of(members, rosters, catalog)).contains(
            LeagueMemberStanding {
                user_id: members[i].user_id,
                username: members[i].username,
                team_name: None,
                total_points: Some(0),
            },
        ),
{
    broadcast use vstd::seq_lib::group_to_multiset_ensures;

    let projected = spec_standings_of(members, rosters, catalog);
    let entry = LeagueMemberStanding {
        user_id: members[i].user_id,
        username: members[i].username,
        team_name: None,
        total_points: Some(0),
    };
    assert(projected[i] == entry);
    assert(projected.contains(entry));
    lemma_rank_sorted(projected);
    assert(projected.to_multiset().count(entry) > 0);
    assert(spec_rank(projected).to_multiset().count(entry) > 0);
    assert(spec_rank(projected).contains(entry));
}

/// Length of a league invite code.
pub const INVITE_CODE_LEN: usize = 8;

/// An invite-code character: an upper-case ASCII letter or a digit, by code
/// point.
pub open spec fn invite_char_code(c: int) -> bool {
    (65 <= c <= 90) || (48 <= c <= 57)
}

/// Relies on rand::random_range over `0..n`: a value drawn from the given
/// range, which is strictly below `n`; it panics only on an empty range,
/// which `n > 0` rules out.
#[verifier::external_body]
fn random_below(n: usize) -> (r: usize)
    requires
        n > 0,
    ensures
        r < n,
{
    rand::random_range(0..n)
}

/// Relies on String::from_utf8: bytes below 128 are valid UTF-8 and decode
/// to exactly those code points, one character per byte.
#[verifier::external_body]
fn ascii_string(bytes: &Vec<u8>) -> (s: String)
    requires
        forall|i: int| 0 <= i < bytes@.len() ==> bytes@[i] < 128,
    ensures
        s@.len() == bytes@.len(),
        forall|i: int| 0 <= i < bytes@.len() ==> s@[i] as int == bytes@[i] as int,
{
    match String::from_utf8(bytes.clone()) {
        Ok(s) => s,
        Err(_) => String::new(),
    }
}

/// Generate a random 8-character invite code of upper-case letters and
/// digits. Which code comes out is up to the random source; only its shape
/// is promised.
pub fn generate_invite_code() -> (code: String)
    ensures
        code@.len() == INVITE_CODE_LEN,
        forall|i: int| 0 <= i < code@.len() ==> invite_char_code(code@[i] as int),
{
    let mut bytes: Vec<u8> = Vec::new();
    let mut i: usize = 0;
    while i < INVITE_CODE_LEN
        invariant
            0 <= i <= INVITE_CODE_LEN,
            bytes@.len() == i,
            forall|k: int| 0 <= k < i ==> bytes@[k] < 128 && invite_char_code(bytes@[k] as int),
        decreases INVITE_CODE_LEN - i,
    {
        let idx = random_below(36);
        let b: u8 = if idx < 26 {
            65 + (idx as u8)
        } else {
            48 + ((idx - 26) as u8)
        };
        bytes.push(b);
        i += 1;
    }
    ascii_string(&bytes)
}

} // verus!
