//! Listing players: the optional position and name filters, and the ranking
//! by accumulated points, highest first, that the player list is served in.

use vstd::prelude::*;

use crate::names::fold_key;
use crate::names::fold_key_char;
use crate::player::Player;
use crate::player::PlayerPosition;
use crate::player::PlayerQuery;
use crate::player::eligible;

verus! {

/// The text form of each position, as queries spell it.
pub open spec fn spec_position_from_text(s: Seq<char>) -> Option<PlayerPosition> {
    if s == "GK"@ {
        Some(PlayerPosition::Gk)
    } else if s == "DEF"@ {
        Some(PlayerPosition::Def)
    } else if s == "MID"@ {
        Some(PlayerPosition::Mid)
    } else if s == "FWD"@ {
        Some(PlayerPosition::Fwd)
    } else {
        None
    }
}

/// Does the needle occur in the hay at this offset, ignoring ASCII case?
pub open spec fn matches_at(hay: Seq<char>, needle: Seq<char>, off: int) -> bool {
    forall|k: int| 0 <= k < needle.len() ==> fold_key(hay[off + k]) == fold_key(needle[k])
}

/// Does the needle occur in the hay, ignoring ASCII case?
pub open spec fn contains_folded(hay: Seq<char>, needle: Seq<char>) -> bool {
    exists|off: int| 0 <= off <= hay.len() - needle.len() && #[trigger] matches_at(hay, needle, off)
}

/// Does a player pass the query: fieldable in the named position (their
/// primary or secondary), and named by the search text, where given? A
/// position text that names no position passes nobody.
pub open spec fn spec_query_matches(
    player: Player,
    position: Option<Seq<char>>,
    search: Option<Seq<char>>,
) -> bool {
    &&& match position {
        Some(p) => match spec_position_from_text(p) {
            Some(pos) => eligible(player, pos),
            None => false,
        },
        None => true,
    }
    &&& match search {
        Some(s) => contains_folded(player.name@, s),
        None => true,
    }
}

/// The players that pass the query, in catalog order.
pub open spec fn spec_filter_players(
    catalog: Seq<Player>,
    position: Option<Seq<char>>,
    search: Option<Seq<char>>,
) -> Seq<Player>
    decreases catalog.len(),
{
    if catalog.len() == 0 {
        Seq::empty()
    } else {
        let rest = spec_filter_players(catalog.drop_last(), position, search);
        if spec_query_matches(catalog.last(), position, search) {
            rest.push(catalog.last())
        } else {
            rest
        }
    }
}

/// Players ranked from most to least accumulated points.
pub open spec fn players_sorted_desc(s: Seq<Player>) -> bool {
    forall|i: int, j: int| 0 <= i < j < s.len() ==> s[i].total_points >= s[j].total_points
}

/// Insert one player into a ranked list, after every player with at least as
/// many points: equal totals keep their present order.
pub open spec fn spec_insert_player_ranked(sorted: Seq<Player>, x: Player) -> Seq<Player>
    decreases sorted.len(),
{
    if sorted.len() == 0 {
        seq![x]
    } else if sorted[0].total_points < x.total_points {
        seq![x] + sorted
    } else {
        seq![sorted[0]] + spec_insert_player_ranked(sorted.drop_first(), x)
    }
}

/// Rank players by accumulated points, highest first, stably.
pub open spec fn spec_rank_players(entries: Seq<Player>) -> Seq<Player>
    decreases entries.len(),
{
    if entries.len() == 0 {
        Seq::empty()
    } else {
        spec_insert_player_ranked(spec_rank_players(entries.drop_last()), entries.last())
    }
}

proof fn lemma_insert_player_ranked_multiset(sorted: Seq<Player>, x: Player)
    ensures
        spec_insert_player_ranked(sorted, x).to_multiset() == sorted.to_multiset().insert(x),
        spec_insert_player_ranked(sorted, x).len() == sorted.len() + 1,
    decreases sorted.len(),
{
    broadcast use vstd::seq_lib::group_to_multiset_ensures;

    if sorted.len() == 0 {
        assert(spec_insert_player_ranked(sorted, x) =~= Seq::empty().push(x));
        assert(spec_insert_player_ranked(sorted, x).to_multiset() =~= sorted.to_multiset().insert(
            x,
        ));
    } else if sorted[0].total_points < x.total_points {
        let out = seq![x] + sorted;
        vstd::seq_lib::lemma_multiset_commutative(seq![x], sorted);
        assert(seq![x].to_multiset() =~= vstd::multiset::Multiset::empty().insert(x)) by {
            assert(seq![x] =~= Seq::empty().push(x));
        }
        assert(out.to_multiset() =~= sorted.to_multiset().insert(x));
    } else {
        lemma_insert_player_ranked_multiset(sorted.drop_first(), x);
        let rest = spec_insert_player_ranked(sorted.drop_first(), x);
        let out = seq![sorted[0]] + rest;
        vstd::seq_lib::lemma_multiset_commutative(seq![sorted[0]], rest);
        assert(seq![sorted[0]].to_multiset() =~= vstd::multiset::Multiset::empty().insert(
            sorted[0],
        )) by {
            assert(seq![sorted[0]] =~= Seq::empty().push(sorted[0]));
        }
        assert(sorted =~= seq![sorted[0]] + sorted.drop_first());
        vstd::seq_lib::lemma_multiset_commutative(seq![sorted[0]], sorted.drop_first());
        assert(out.to_multiset() =~= sorted.to_multiset().insert(x));
    }
}

proof fn lemma_insert_player_ranked_sorted(sorted: Seq<Player>, x: Player)
    requires
        players_sorted_desc(sorted),
    ensures
        players_sorted_desc(spec_insert_player_ranked(sorted, x)),
    decreases sorted.len(),
{
    broadcast use vstd::seq_lib::group_to_multiset_ensures;

    if sorted.len() == 0 {
    } else if sorted[0].total_points < x.total_points {
    } else {
        assert(players_sorted_desc(sorted.drop_first()));
        lemma_insert_player_ranked_sorted(sorted.drop_first(), x);
        lemma_insert_player_ranked_multiset(sorted.drop_first(), x);
        let rest = spec_insert_player_ranked(sorted.drop_first(), x);
        let out = seq![sorted[0]] + rest;
        assert forall|i: int, j: int| 0 <= i < j < out.len() implies out[i].total_points
            >= out[j].total_points by {
            if i == 0 {
                assert(rest.contains(rest[j - 1]));
                assert(rest.to_multiset().count(rest[j - 1]) > 0);
                if rest[j - 1] == x {
                } else {
                    assert(sorted.drop_first().to_multiset().count(rest[j - 1]) > 0);
                    assert(sorted.drop_first().contains(rest[j - 1]));
                    let w = choose|w: int|
                        0 <= w < sorted.drop_first().len() && sorted.drop_first()[w] == rest[j - 1];
                    assert(sorted[w + 1] == rest[j - 1]);
                }
            } else {
                assert(out[i] == rest[i - 1]);
                assert(out[j] == rest[j - 1]);
            }
        }
    }
}

/// Ranking keeps exactly the players it was given, in ranked order.
pub proof fn lemma_rank_players_sorted(entries: Seq<Player>)
    ensures
        players_sorted_desc(spec_rank_players(entries)),
        spec_rank_players(entries).to_multiset() == entries.to_multiset(),
        spec_rank_players(entries).len() == entries.len(),
    decreases entries.len(),
{
    broadcast use vstd::seq_lib::group_to_multiset_ensures;

    if entries.len() > 0 {
        lemma_rank_players_sorted(entries.drop_last());
        lemma_insert_player_ranked_sorted(spec_rank_players(entries.drop_last()), entries.last());
        lemma_insert_player_ranked_multiset(spec_rank_players(entries.drop_last()), entries.last());
        assert(entries =~= entries.drop_last().push(entries.last()));
        assert(entries.drop_last().push(entries.last()).to_multiset()
            == entries.drop_last().to_multiset().insert(entries.last()));
    }
}

proof fn lemma_insert_player_ranked_at(sorted: Seq<Player>, x: Player, j: int)
    requires
        0 <= j <= sorted.len(),
        forall|k: int| 0 <= k < j ==> sorted[k].total_points >= x.total_points,
        j < sorted.len() ==> sorted[j].total_points < x.total_points,
    ensures
        spec_insert_player_ranked(sorted, x) == sorted.insert(j, x),
    decreases j,
{
    if j == 0 {
        assert(spec_insert_player_ranked(sorted, x) =~= sorted.insert(0, x));
    } else {
        assert(forall|k: int|
            0 <= k < j - 1 ==> (#[trigger] sorted.drop_first()[k]).total_points >= x.total_points);
        lemma_insert_player_ranked_at(sorted.drop_first(), x, j - 1);
        assert(spec_insert_player_ranked(sorted, x) =~= sorted.insert(j, x));
    }
}

/// Parse a position's query text.
pub fn position_from_text(s: &str) -> (position: Option<PlayerPosition>)
    ensures
        position == spec_position_from_text(s@),
{
    proof {
        reveal_strlit("GK");
        reveal_strlit("DEF");
        reveal_strlit("MID");
        reveal_strlit("FWD");
    }
    let n = s.unicode_len();
    if n == 2 {
        if s.get_char(0) == 'G' && s.get_char(1) == 'K' {
            proof {
                assert(s@ =~= "GK"@);
            }
            return Some(PlayerPosition::Gk);
        }
        proof {
            assert(s@ != "GK"@) by {
                if s@ == "GK"@ {
                    assert(s@[0] == "GK"@[0]);
                    assert(s@[1] == "GK"@[1]);
                }
            }
        }
        return None;
    }
    if n == 3 {
        let c0 = s.get_char(0);
        let c1 = s.get_char(1);
        let c2 = s.get_char(2);
        if c0 == 'D' && c1 == 'E' && c2 == 'F' {
            proof {
                assert(s@ =~= "DEF"@);
            }
            return Some(PlayerPosition::Def);
        }
        if c0 == 'M' && c1 == 'I' && c2 == 'D' {
            proof {
                assert(s@ =~= "MID"@);
            }
            return Some(PlayerPosition::Mid);
        }
        if c0 == 'F' && c1 == 'W' && c2 == 'D' {
            proof {
                assert(s@ =~= "FWD"@);
            }
            return Some(PlayerPosition::Fwd);
        }
        proof {
            assert(s@ != "DEF"@) by {
                if s@ == "DEF"@ {
                    assert(s@[0] == "DEF"@[0]);
                    assert(s@[1] == "DEF"@[1]);
                    assert(s@[2] == "DEF"@[2]);
                }
            }
            assert(s@ != "MID"@) by {
                if s@ == "MID"@ {
                    assert(s@[0] == "MID"@[0]);
                    assert(s@[1] == "MID"@[1]);
                    assert(s@[2] == "MID"@[2]);
                }
            }
            assert(s@ != "FWD"@) by {
                if s@ == "FWD"@ {
                    assert(s@[0] == "FWD"@[0]);
                    assert(s@[1] == "FWD"@[1]);
                    assert(s@[2] == "FWD"@[2]);
                }
            }
        }
        return None;
    }
    None
}

/// Does the needle occur in the hay, ignoring ASCII case?
fn contains_folded_exec(hay: &str, needle: &str) -> (found: bool)
    ensures
        found == contains_folded(hay@, needle@),
{
    let nh = hay.unicode_len();
    let nn = needle.unicode_len();
    if nn > nh {
        return false;
    }
    let last_off = nh - nn;
    let mut off: usize = 0;
    while off <= last_off
        invariant
            0 <= off <= last_off + 1,
            last_off == nh - nn,
            nn <= nh,
            nh == hay@.len(),
            nn == needle@.len(),
            forall|o: int| 0 <= o < off ==> !matches_at(hay@, needle@, o),
        decreases last_off - off + 1,
    {
        let mut k: usize = 0;
        let mut all_match = true;
        while k < nn
            invariant
                0 <= k <= nn,
                off + nn <= nh,
                nh == hay@.len(),
                nn == needle@.len(),
                all_match ==> forall|m: int|
                    0 <= m < k ==> fold_key(hay@[off + m]) == fold_key(needle@[m]),
                !all_match ==> !matches_at(hay@, needle@, off as int),
            decreases nn - k,
        {
            let ch = hay.get_char(off + k);
            let cn = needle.get_char(k);
            if fold_key_char(ch) != fold_key_char(cn) {
                proof {
                    assert(fold_key(hay@[off + k]) != fold_key(needle@[k as int]));
                }
                all_match = false;
            }
            k += 1;
        }
        if all_match {
            proof {
                assert(matches_at(hay@, needle@, off as int));
                assert(0 <= off as int <= hay@.len() - needle@.len());
            }
            return true;
        }
        off += 1;
    }
    false
}

proof fn lemma_filter_players_take_succ(
    catalog: Seq<Player>,
    position: Option<Seq<char>>,
    search: Option<Seq<char>>,
    i: int,
)
    requires
        0 <= i < catalog.len(),
    ensures
        spec_filter_players(catalog.take(i + 1), position, search) == (if spec_query_matches(
            catalog[i],
            position,
            search,
        ) {
            spec_filter_players(catalog.take(i), position, search).push(catalog[i])
        } else {
            spec_filter_players(catalog.take(i), position, search)
        }),
{
    assert(catalog.take(i + 1).drop_last() =~= catalog.take(i));
    assert(catalog.take(i + 1).last() == catalog[i]);
}

/// The view a query's optional text fields present.
pub open spec fn opt_text(o: Option<String>) -> Option<Seq<char>> {
    match o {
        Some(s) => Some(s@),
        None => None,
    }
}

/// List the players that pass the query's position and search filters,
/// ranked by accumulated points, highest first, equal totals keeping catalog
/// order.
#[verifier::loop_isolation(false)]
pub fn filter_players(catalog: &Vec<Player>, query: &PlayerQuery) -> (listed: Vec<Player>)
    ensures
        listed@ == spec_rank_players(
            spec_filter_players(catalog@, opt_text(query.position), opt_text(query.search)),
        ),
        players_sorted_desc(listed@),
{
    let ghost g_pos = opt_text(query.position);
    let ghost g_search = opt_text(query.search);

    // Resolve the position filter once: the text either names a position or
    // rules every player out.
    let position_filter: Option<PlayerPosition> = match &query.position {
        Some(p) => position_from_text(p.as_str()),
        None => None,
    };
    let position_given = query.position.is_some();

    let mut listed: Vec<Player> = Vec::new();
    let n = catalog.len();
    let mut i: usize = 0;
    while i < n
        invariant
            0 <= i <= n,
            listed@ == spec_rank_players(
                spec_filter_players(catalog@.take(i as int), g_pos, g_search),
            ),
        decreases n - i,
    {
        let player = &catalog[i];
        let position_ok = if position_given {
            match position_filter {
                Some(pos) => {
                    let primary = player.position == pos;
                    let secondary = match player.secondary_position {
                        Some(sp) => sp == pos,
                        None => false,
                    };
                    primary || secondary
                },
                None => false,
            }
        } else {
            true
        };
        let search_ok = match &query.search {
            Some(s) => contains_folded_exec(player.name.as_str(), s.as_str()),
            None => true,
        };
        proof {
            lemma_filter_players_take_succ(catalog@, g_pos, g_search, i as int);
            assert((position_ok && search_ok) == spec_query_matches(
                catalog@[i as int],
                g_pos,
                g_search,
            ));
        }
        let ghost before = spec_filter_players(catalog@.take(i as int), g_pos, g_search);
        if position_ok && search_ok {
            let ghost after = spec_filter_players(catalog@.take(i + 1), g_pos, g_search);
            proof {
                assert(after == before.push(*player));
                assert(after.drop_last() =~= before);
                assert(after.last() == *player);
            }
            insert_player_ranked(&mut listed, player.clone());
        }
        i += 1;
    }
    proof {
        assert(catalog@.take(n as int) =~= catalog@);
        lemma_rank_players_sorted(spec_filter_players(catalog@, g_pos, g_search));
    }
    listed
}

/// Insert one player into an already ranked vector, after every player with
/// at least as many points.
fn insert_player_ranked(listed: &mut Vec<Player>, x: Player)
    ensures
        final(listed)@ == spec_insert_player_ranked(old(listed)@, x),
{
    let n = listed.len();
    let ghost s0 = listed@;
    let mut j: usize = 0;
    while j < n && listed[j].total_points >= x.total_points
        invariant
            0 <= j <= n,
            n == listed@.len(),
            listed@ == s0,
            forall|k: int| 0 <= k < j ==> s0[k].total_points >= x.total_points,
        decreases n - j,
    {
        j += 1;
    }
    proof {
        lemma_insert_player_ranked_at(s0, x, j as int);
    }
    listed.insert(j, x);
}

} // verus!
