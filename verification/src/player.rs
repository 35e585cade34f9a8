//! Players and the read-only catalog snapshot they live in.
//!
//! A player's identity, price and accumulated points are plain values here:
//! the storage collaborator that loads players owns their representation, and
//! hands this core a snapshot it never mutates.

use vstd::prelude::*;

verus! {

/// One of the four playing positions. Identity only; no order is meaningful.
#[derive(Clone, Copy, Debug, PartialEq, Eq, Structural)]
pub enum PlayerPosition {
    Gk,
    Def,
    Mid,
    Fwd,
}

/// Largest price the catalog may carry for a single player, so that summing a
/// full squad of prices cannot overflow.
pub const PRICE_LIMIT: u64 = 1_000_000_000;

/// Largest magnitude of a player's accumulated points the catalog may carry,
/// so that summing the starters of a roster cannot overflow.
pub const POINTS_LIMIT: i32 = 100_000_000;

/// A football player as the catalog store supplies it, read-only to this core.
#[derive(Debug, PartialEq)]
pub struct Player {
    pub id: u64,
    pub name: String,
    pub position: PlayerPosition,
    pub secondary_position: Option<PlayerPosition>,
    pub is_top_player: bool,
    pub team_name: String,
    pub photo_url: Option<String>,
    pub price: u64,
    pub total_points: i32,
    pub created_at: i64,
}

impl Clone for Player {
    fn clone(&self) -> (res: Self)
        ensures
            res == *self,
    {
        Player {
            id: self.id,
            name: self.name.clone(),
            position: self.position,
            secondary_position: self.secondary_position,
            is_top_player: self.is_top_player,
            team_name: self.team_name.clone(),
            photo_url: match &self.photo_url {
                Some(u) => Some(u.clone()),
                None => None,
            },
            price: self.price,
            total_points: self.total_points,
            created_at: self.created_at,
        }
    }
}

/// Query parameters for listing players.
#[derive(Debug)]
pub struct PlayerQuery {
    pub position: Option<String>,
    pub search: Option<String>,
}

/// A player may occupy their primary position or, if they have one, their
/// secondary position.
pub open spec fn eligible(player: Player, position: PlayerPosition) -> bool {
    player.position == position || player.secondary_position == Some(position)
}

/// Some catalog entry carries this id.
pub open spec fn resolves(catalog: Seq<Player>, id: u64) -> bool {
    exists|i: int| 0 <= i < catalog.len() && catalog[i].id == id
}

/// The first catalog entry carrying this id, if any.
pub open spec fn spec_find_player(catalog: Seq<Player>, id: u64) -> Option<Player>
    decreases catalog.len(),
{
    if catalog.len() == 0 {
        None
    } else if catalog[0].id == id {
        Some(catalog[0])
    } else {
        spec_find_player(catalog.drop_first(), id)
    }
}

/// The catalog entry carrying this id; meaningful only where `resolves` holds.
pub open spec fn player_of(catalog: Seq<Player>, id: u64) -> Player {
    spec_find_player(catalog, id)->Some_0
}

/// A well-formed catalog snapshot: ids are unique, and prices and accumulated
/// points stay within the bounds that make squad-wide sums fit their types.
pub open spec fn catalog_wf(catalog: Seq<Player>) -> bool {
    &&& forall|i: int, j: int|
        0 <= i < j < catalog.len() ==> catalog[i].id != catalog[j].id
    &&& forall|i: int| 0 <= i < catalog.len() ==> #[trigger] catalog[i].price <= PRICE_LIMIT
    &&& forall|i: int|
        0 <= i < catalog.len() ==> -POINTS_LIMIT <= #[trigger] catalog[i].total_points
            <= POINTS_LIMIT
}

proof fn lemma_find_player_first_match(catalog: Seq<Player>, id: u64, i: int)
    requires
        0 <= i < catalog.len(),
        catalog[i].id == id,
        forall|k: int| 0 <= k < i ==> catalog[k].id != id,
    ensures
        spec_find_player(catalog, id) == Some(catalog[i]),
    decreases i,
{
    if i > 0 {
        lemma_find_player_first_match(catalog.drop_first(), id, i - 1);
    }
}

proof fn lemma_find_player_no_match(catalog: Seq<Player>, id: u64)
    requires
        forall|k: int| 0 <= k < catalog.len() ==> catalog[k].id != id,
    ensures
        spec_find_player(catalog, id) is None,
    decreases catalog.len(),
{
    if catalog.len() > 0 {
        lemma_find_player_no_match(catalog.drop_first(), id);
    }
}

/// `spec_find_player` succeeds exactly on the ids that resolve, and returns an
/// entry of the catalog carrying that id.
pub proof fn lemma_find_player_resolves(catalog: Seq<Player>, id: u64)
    ensures
        resolves(catalog, id) <==> spec_find_player(catalog, id) is Some,
        spec_find_player(catalog, id) matches Some(p) ==> catalog.contains(p) && p.id == id,
    decreases catalog.len(),
{
    if catalog.len() > 0 {
        lemma_find_player_resolves(catalog.drop_first(), id);
        if catalog[0].id != id {
            assert(forall|i: int|
                0 <= i < catalog.drop_first().len() ==> catalog.drop_first()[i] == catalog[i + 1]);
            if resolves(catalog, id) {
                let i = choose|i: int| 0 <= i < catalog.len() && catalog[i].id == id;
                assert(catalog.drop_first()[i - 1].id == id);
            }
            if spec_find_player(catalog, id) is Some {
                let p = spec_find_player(catalog, id)->Some_0;
                let i = choose|i: int|
                    0 <= i < catalog.drop_first().len() && catalog.drop_first()[i] == p;
                assert(catalog[i + 1] == p);
            }
        }
    }
}

/// Look a player up by id in the catalog snapshot.
pub fn find_player<'a>(catalog: &'a Vec<Player>, id: u64) -> (found: Option<&'a Player>)
    ensures
        found matches Some(p) ==> spec_find_player(catalog@, id) == Some(*p),
        found is Some <==> resolves(catalog@, id),
{
    let n = catalog.len();
    let mut i: usize = 0;
    while i < n
        invariant
            0 <= i <= n,
            n == catalog@.len(),
            forall|k: int| 0 <= k < i ==> catalog@[k].id != id,
        decreases n - i,
    {
        if catalog[i].id == id {
            proof {
                lemma_find_player_first_match(catalog@, id, i as int);
                lemma_find_player_resolves(catalog@, id);
            }
            return Some(&catalog[i]);
        }
        i += 1;
    }
    proof {
        lemma_find_player_no_match(catalog@, id);
        lemma_find_player_resolves(catalog@, id);
    }
    None
}

} // verus!
