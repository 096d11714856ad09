use vstd::prelude::*;
use crate::account::{compare_ids, id_lt, lemma_id_lt_asymmetric, lemma_id_lt_transitive, AccountId, IdOrder};
use crate::structs::Player;

verus! {

/// The number of participants a game admits.
pub const PLAYER_LIMIT: usize = 80;

/// The shortest name a participant may have, in bytes.
pub const MIN_NAME_LEN: usize = 3;

/// The longest name a participant may have, in bytes.
pub const MAX_NAME_LEN: usize = 16;

/// The participants are strictly ascending by identifier.
pub open spec fn sorted_by_id(s: Seq<Player>) -> bool {
    forall|i: int, j: int| 0 <= i < j < s.len() ==> id_lt(#[trigger] s[i].id@, #[trigger] s[j].id@)
}

/// No two participants share a name.
pub open spec fn names_unique(s: Seq<Player>) -> bool {
    forall|i: int, j: int| 0 <= i < j < s.len() ==> #[trigger] s[i].name@ != #[trigger] s[j].name@
}

/// A registry: sorted by identifier, with distinct names.
pub open spec fn registry_valid(s: Seq<Player>) -> bool {
    sorted_by_id(s) && names_unique(s)
}

/// Some participant has identifier `id`.
pub open spec fn has_id(s: Seq<Player>, id: Seq<u8>) -> bool {
    exists|i: int| 0 <= i < s.len() && #[trigger] s[i].id@ == id
}

/// Some participant is called `name`.
pub open spec fn has_name(s: Seq<Player>, name: Seq<char>) -> bool {
    exists|i: int| 0 <= i < s.len() && #[trigger] s[i].name@ == name
}

/// The length of a name in bytes (UTF-8), as `str::len` reports it.
pub open spec fn name_len(name: Seq<char>) -> int {
    vstd::utf8::encode_utf8(name).len() as usize as int
}

/// Strictly ascending identifiers are distinct.
pub proof fn lemma_sorted_ids_distinct(s: Seq<Player>, i: int, j: int)
    requires
        sorted_by_id(s),
        0 <= i < s.len(),
        0 <= j < s.len(),
        i != j,
    ensures
        s[i].id@ != s[j].id@,
{
    if i < j {
        lemma_id_lt_asymmetric(s[i].id@, s[j].id@);
    } else {
        lemma_id_lt_asymmetric(s[j].id@, s[i].id@);
    }
}

/// Looks `id` up by binary search: `Ok` with its position, or `Err` with the
/// position at which it would be inserted to keep the order.
pub fn find_player(id: &AccountId, players: &Vec<Player>) -> (r: Result<usize, usize>)
    requires
        sorted_by_id(players@),
    ensures
        r matches Ok(i) ==> i < players@.len() && players@[i as int].id@ == id@,
        r matches Err(i) ==> i <= players@.len() && (forall|k: int|
            0 <= k < i ==> id_lt(#[trigger] players@[k].id@, id@)) && (forall|k: int|
            i <= k < players@.len() ==> id_lt(id@, #[trigger] players@[k].id@)),
        r is Ok <==> has_id(players@, id@),
{
    let mut lo: usize = 0;
    let mut hi: usize = players.len();
    while lo < hi
        invariant
            0 <= lo <= hi <= players@.len(),
            sorted_by_id(players@),
            forall|k: int| 0 <= k < lo ==> id_lt(#[trigger] players@[k].id@, id@),
            forall|k: int| hi <= k < players@.len() ==> id_lt(id@, #[trigger] players@[k].id@),
        decreases hi - lo,
    {
        let mid = lo + (hi - lo) / 2;
        match compare_ids(&players[mid].id, id) {
            IdOrder::Less => {
                assert forall|k: int| 0 <= k < mid + 1 implies id_lt(
                    #[trigger] players@[k].id@,
                    id@,
                ) by {
                    if k < mid {
                        lemma_id_lt_transitive(players@[k].id@, players@[mid as int].id@, id@);
                    }
                }
                lo = mid + 1;
            },
            IdOrder::Greater => {
                assert forall|k: int| mid <= k < players@.len() implies id_lt(
                    id@,
                    #[trigger] players@[k].id@,
                ) by {
                    if k > mid {
                        lemma_id_lt_transitive(id@, players@[mid as int].id@, players@[k].id@);
                    }
                }
                hi = mid;
            },
            IdOrder::Equal => {
                return Ok(mid);
            },
        }
    }
    proof {
        if has_id(players@, id@) {
            let k = choose|k: int| 0 <= k < players@.len() && #[trigger] players@[k].id@ == id@;
            if k < lo {
                lemma_id_lt_asymmetric(players@[k].id@, id@);
            } else {
                lemma_id_lt_asymmetric(id@, players@[k].id@);
            }
        }
    }
    Err(lo)
}

/// Whether some participant is called `name`.
pub fn name_taken(players: &Vec<Player>, name: &String) -> (r: bool)
    ensures
        r == has_name(players@, name@),
{
    let mut i: usize = 0;
    while i < players.len()
        invariant
            0 <= i <= players@.len(),
            forall|k: int| 0 <= k < i ==> #[trigger] players@[k].name@ != name@,
        decreases players@.len() - i,
    {
        if players[i].name == *name {
            return true;
        }
        i = i + 1;
    }
    false
}

/// Inserting a participant at its binary-search position keeps a registry
/// valid.
pub proof fn lemma_insert_keeps_registry_valid(s: Seq<Player>, pos: int, p: Player)
    requires
        registry_valid(s),
        0 <= pos <= s.len(),
        forall|k: int| 0 <= k < pos ==> id_lt(#[trigger] s[k].id@, p.id@),
        forall|k: int| pos <= k < s.len() ==> id_lt(p.id@, #[trigger] s[k].id@),
        !has_name(s, p.name@),
    ensures
        registry_valid(s.insert(pos, p)),
{
    let t = s.insert(pos, p);
    assert forall|i: int, j: int| 0 <= i < j < t.len() implies id_lt(
        #[trigger] t[i].id@,
        #[trigger] t[j].id@,
    ) by {
        if j < pos {
        } else if j == pos {
        } else if i < pos {
            lemma_id_lt_transitive(s[i].id@, p.id@, s[j - 1].id@);
        } else if i == pos {
        } else {
        }
    }
    assert forall|i: int, j: int| 0 <= i < j < t.len() implies #[trigger] t[i].name@
        != #[trigger] t[j].name@ by {
        if i == pos {
            assert(s[j - 1].name@ == t[j].name@);
        } else if j == pos {
            assert(s[i].name@ == t[i].name@);
        }
    }
}

} // verus!
