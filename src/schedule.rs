use vstd::prelude::*;

verus! {

/// The gas granted to all agents together within one round.
pub const GAS_LIMIT_ALL_PLAYERS: u64 = 250_000_000_000;

/// Above this many participants a round is split into two batches.
pub const SINGLE_BATCH_LIMIT: usize = 30;

/// The number of batches a round is split into for `n` participants.
pub open spec fn batches_for(n: int) -> int {
    if n > SINGLE_BATCH_LIMIT {
        2
    } else {
        1
    }
}

/// `a * b`, saturated at `u64::MAX`.
pub open spec fn saturating_mul_u64(a: int, b: int) -> int {
    if a * b > u64::MAX {
        u64::MAX as int
    } else {
        a * b
    }
}

/// The gas one agent may spend in one call, for `n` participants.
pub open spec fn gas_limit_for(n: int) -> int {
    if n == 0 {
        0
    } else {
        saturating_mul_u64(GAS_LIMIT_ALL_PLAYERS as int, batches_for(n)) / n
    }
}

/// The gas one agent may spend over the whole game.
pub open spec fn gas_budget_for(gas_limit: int, rounds: int) -> int {
    saturating_mul_u64(gas_limit, rounds / 4)
}

/// Participant `idx` moves in round `round` of a game split into `batches`.
pub open spec fn in_batch(idx: int, round: int, batches: int) -> bool {
    idx % batches == round % batches
}

/// `a * b`, saturated at `u64::MAX`.
pub fn saturating_mul_u64_exec(a: u64, b: u64) -> (r: u64)
    ensures
        r == saturating_mul_u64(a as int, b as int),
{
    assert((a as int) * (b as int) <= (u64::MAX as int) * (u64::MAX as int)) by (nonlinear_arith)
        requires
            a <= u64::MAX,
            b <= u64::MAX,
    ;
    let p: u128 = (a as u128) * (b as u128);
    if p > u64::MAX as u128 {
        u64::MAX
    } else {
        p as u64
    }
}

/// The number of batches a round is split into for `num_players` participants.
pub fn calc_num_batches(num_players: usize) -> (r: u32)
    ensures
        r == batches_for(num_players as int),
{
    if num_players > SINGLE_BATCH_LIMIT {
        2
    } else {
        1
    }
}

/// The gas one agent may spend in one call: the per-round total times the
/// number of batches, shared among the participants (zero without any).
pub fn calc_gas_limit(num_players: usize) -> (r: u64)
    ensures
        r == gas_limit_for(num_players as int),
{
    let batches = calc_num_batches(num_players) as u64;
    let total = saturating_mul_u64_exec(GAS_LIMIT_ALL_PLAYERS, batches);
    if num_players == 0 {
        0
    } else {
        total / (num_players as u64)
    }
}

/// The gas one agent may spend over the whole game: its per-call limit for a
/// quarter of the rounds.
pub fn calc_gas_budget(gas_limit: u64, num_rounds: u32) -> (r: u64)
    ensures
        r == gas_budget_for(gas_limit as int, num_rounds as int),
{
    saturating_mul_u64_exec(gas_limit, (num_rounds / 4) as u64)
}

/// The batch that moves in round `round`.
pub fn current_batch(round: u32, num_batches: u32) -> (r: u32)
    requires
        num_batches > 0,
    ensures
        r == round % num_batches,
        r < num_batches,
{
    round % num_batches
}

/// Every participant moves in exactly one of any `batches_for(n)`
/// consecutive rounds.
pub proof fn lemma_batches_partition(n: int, idx: int, start: int)
    requires
        0 <= idx < n,
        0 <= start,
    ensures
        n <= 30 ==> batches_for(n) == 1,
        n > 30 ==> batches_for(n) == 2,
        exists|k: int| #![trigger in_batch(idx, start + k, batches_for(n))]
            0 <= k < batches_for(n) && in_batch(idx, start + k, batches_for(n)),
        forall|k1: int, k2: int|
            0 <= k1 < batches_for(n) && 0 <= k2 < batches_for(n) && #[trigger] in_batch(
                idx,
                start + k1,
                batches_for(n),
            ) && #[trigger] in_batch(idx, start + k2, batches_for(n)) ==> k1 == k2,
{
    let b = batches_for(n);
    if b == 1 {
        assert(in_batch(idx, start + 0, b));
    } else {
        if idx % 2 == start % 2 {
            assert(in_batch(idx, start + 0, b));
        } else {
            assert((start + 1) % 2 == idx % 2);
            assert(in_batch(idx, start + 1, b));
        }
        assert forall|k1: int, k2: int|
            0 <= k1 < b && 0 <= k2 < b && #[trigger] in_batch(idx, start + k1, b) && #[trigger] in_batch(
                idx,
                start + k2,
                b,
            ) implies k1 == k2 by {
            if k1 != k2 {
                assert((start + 1) % 2 != start % 2);
            }
        }
    }
}

} // verus!
