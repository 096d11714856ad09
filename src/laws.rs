use vstd::prelude::*;
use crate::field::Field;
use crate::game::SquinkSplash;
use crate::registry::lemma_sorted_ids_distinct;
use crate::structs::{FieldEntry, Player};
use crate::turn::{board_step, outcome_of, AgentReply};

verus! {

/// A well-formed game (which every operation keeps) has a registry sorted by
/// identifier, without two participants of the same identifier or name.
pub proof fn lemma_registry_sorted_and_unique(g: SquinkSplash)
    requires
        g.wf(),
    ensures
        crate::registry::sorted_by_id(g.players@),
        forall|i: int, j: int|
            0 <= i < g.players@.len() && 0 <= j < g.players@.len() && i != j ==> (
            #[trigger] g.players@[i]).id@ != (#[trigger] g.players@[j]).id@ && g.players@[i].name@
                != g.players@[j].name@,
{
    assert forall|i: int, j: int|
        0 <= i < g.players@.len() && 0 <= j < g.players@.len() && i != j implies (
        #[trigger] g.players@[i]).id@ != (#[trigger] g.players@[j]).id@ && g.players@[i].name@
            != g.players@[j].name@ by {
        lemma_sorted_ids_distinct(g.players@, i, j);
    }
}

/// A claimed field is never claimed again: after any round the claim stands
/// unchanged, and a later move onto the field finds it occupied by the
/// same owner.
pub proof fn lemma_claim_never_reassigned(
    before: Map<u32, FieldEntry>,
    after: Map<u32, FieldEntry>,
    players: Seq<Player>,
    round: int,
    dims: Field,
    turn: Field,
)
    requires
        board_step(before, after, players, round),
        dims.contains(turn),
        before.contains_key(dims.linear_index(turn) as u32),
    ensures
        after[dims.linear_index(turn) as u32] == before[dims.linear_index(turn) as u32],
        outcome_of(after, dims, AgentReply::Move(Some(turn))) is Occupied,
        outcome_of(after, dims, AgentReply::Move(Some(turn)))->Occupied_player
            == before[dims.linear_index(turn) as u32].owner,
{
    assert(after.contains_key(dims.linear_index(turn) as u32));
}

/// Once a round was played in `block`, no further round can be played in
/// that block: `submit_turn` refuses it and changes nothing.
pub proof fn lemma_one_round_per_block(g: SquinkSplash, block: u32)
    requires
        g.last_turn == Some(block),
    ensures
        g.turn_error(block) is Some,
{
}

} // verus!
