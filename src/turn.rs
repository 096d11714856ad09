use vstd::prelude::*;
use crate::account::AccountId;
use crate::error::GameError;
use crate::field::Field;
use crate::game::{triangle, SquinkSplash};
use crate::registry::{has_id, registry_valid};
use crate::schedule::{
    batches_for, calc_gas_budget, calc_gas_limit, calc_num_batches, current_batch, gas_budget_for,
    gas_limit_for, in_batch,
};
use crate::structs::{FieldEntry, GameInfo, Player, State, TurnOutcome, TurnTaken};

verus! {

broadcast use vstd::std_specs::btree::group_btree_axioms, vstd::laws_cmp::group_laws_cmp;

/// What asking an agent for a move gave.
#[derive(Clone, Copy, Debug, PartialEq, Eq)]
pub enum AgentReply {
    /// The call failed: the agent trapped, ran out of gas or answered with
    /// something that is not a move.
    Broken,
    /// The agent answered: a field to claim, or no move.
    Move(Option<Field>),
}

/// An agent's reply together with the gas the call consumed.
#[derive(Clone, Copy, Debug, PartialEq, Eq)]
pub struct AgentCall {
    pub reply: AgentReply,
    pub gas_used: u64,
}

/// The move-proposal capability of the participants' agents. An agent is
/// untrusted: nothing is assumed of what it answers or of the gas it reports.
pub trait Agent {
    /// Asks the agent of `player` for a move, with `info` and at most
    /// `gas_limit` gas. The agent may read `game`.
    fn your_turn(
        &mut self,
        game: &SquinkSplash,
        player: &AccountId,
        info: &GameInfo,
        gas_limit: u64,
    ) -> AgentCall;
}

/// `a + b`, saturated at `u64::MAX`.
pub open spec fn saturating_add_u64(a: int, b: int) -> int {
    if a + b > u64::MAX {
        u64::MAX as int
    } else {
        a + b
    }
}

/// The effect of `reply` on a board of dimensions `dims` holding `board`.
pub open spec fn outcome_of(board: Map<u32, FieldEntry>, dims: Field, reply: AgentReply) -> TurnOutcome {
    match reply {
        AgentReply::Broken => TurnOutcome::BrokenPlayer,
        AgentReply::Move(None) => TurnOutcome::NoTurn,
        AgentReply::Move(Some(turn)) => if !dims.contains(turn) {
            TurnOutcome::OutOfBounds { turn }
        } else if board.contains_key(dims.linear_index(turn) as u32) {
            TurnOutcome::Occupied {
                turn,
                player: board[dims.linear_index(turn) as u32].owner,
            }
        } else {
            TurnOutcome::Success { turn }
        },
    }
}

/// How a round may change one participant: identity kept, gas never
/// refunded, and the score unchanged or raised by exactly `round + 1`.
pub open spec fn player_step(before: Player, after: Player, round: int) -> bool {
    &&& after.id == before.id
    &&& after.name == before.name
    &&& after.gas_used >= before.gas_used
    &&& (after.score == before.score || after.score == before.score + round + 1)
}

/// How a round may change the board: every earlier claim stays as it was,
/// and every new claim was made in `round` by a participant of `players`.
pub open spec fn board_step(
    before: Map<u32, FieldEntry>,
    after: Map<u32, FieldEntry>,
    players: Seq<Player>,
    round: int,
) -> bool {
    &&& forall|k: u32| #[trigger]
        before.contains_key(k) ==> after.contains_key(k) && after[k] == before[k]
    &&& forall|k: u32|
        #[trigger] after.contains_key(k) && !before.contains_key(k) ==> after[k].claimed_at == round
            && has_id(players, after[k].owner@)
}

/// What `outcome`, reported for participant `i` in round `round`, says
/// about how the game went from `g0` to `g`: a participant is skipped
/// exactly when its gas for the game is spent, and only a successful claim
/// raises its score, by `round + 1`, and records the claim.
#[verifier::opaque]
pub open spec fn turn_effect(
    g0: SquinkSplash,
    g: SquinkSplash,
    i: int,
    outcome: TurnOutcome,
    round: int,
    budget: int,
) -> bool {
    let before = g0.players@[i];
    let after = g.players@[i];
    let dims = g0.dimensions;
    &&& (outcome is BudgetExhausted) == (before.gas_used >= budget)
    &&& outcome is BudgetExhausted ==> after == before
    &&& !(outcome is Success) ==> after.score == before.score
    &&& match outcome {
        TurnOutcome::Success { turn } => {
            &&& dims.contains(turn)
            &&& !g0.board@.contains_key(dims.linear_index(turn) as u32)
            &&& g.board@.contains_key(dims.linear_index(turn) as u32)
            &&& g.board@[dims.linear_index(turn) as u32] == (FieldEntry {
                owner: before.id,
                claimed_at: round as u32,
            })
            &&& after.score == before.score + round + 1
        },
        TurnOutcome::OutOfBounds { turn } => !dims.contains(turn),
        TurnOutcome::Occupied { turn, player } => {
            &&& dims.contains(turn)
            &&& g.board@.contains_key(dims.linear_index(turn) as u32)
            &&& g.board@[dims.linear_index(turn) as u32].owner == player
        },
        _ => true,
    }
}

/// Turn `j` of `turns` belongs to participant `i` of the batch of round
/// `round` and is true of how the game went from `g0` to `g`.
pub open spec fn turn_of(
    g0: SquinkSplash,
    g: SquinkSplash,
    turns: Seq<TurnTaken>,
    round: int,
    budget: int,
    i: int,
    j: int,
) -> bool {
    &&& 0 <= i < g0.players@.len()
    &&& in_batch(i, round, batches_for(g0.players@.len() as int))
    &&& g0.players@[i].id == turns[j].player
    &&& turn_effect(g0, g, i, turns[j].outcome, round, budget)
}

/// Turn `j` of `turns` belongs to some participant of the batch.
pub open spec fn turn_accounted(
    g0: SquinkSplash,
    g: SquinkSplash,
    turns: Seq<TurnTaken>,
    round: int,
    budget: int,
    j: int,
) -> bool {
    exists|i: int| #[trigger] turn_of(g0, g, turns, round, budget, i, j)
}

/// Participant `i` has a turn in `turns`.
pub open spec fn has_turn(g0: SquinkSplash, turns: Seq<TurnTaken>, i: int) -> bool {
    exists|j: int| 0 <= j < turns.len() && #[trigger] turns[j].player == g0.players@[i].id
}

/// `turns` reports one turn for each participant of round `round`'s batch,
/// each true of how the game went from `g0` to `g`.
pub open spec fn turns_reported(
    g0: SquinkSplash,
    g: SquinkSplash,
    turns: Seq<TurnTaken>,
    round: int,
    budget: int,
) -> bool {
    &&& forall|j: int|
        0 <= j < turns.len() ==> #[trigger] turn_accounted(g0, g, turns, round, budget, j)
    &&& forall|i: int|
        0 <= i < g0.players@.len() && #[trigger] in_batch(
            i,
            round,
            batches_for(g0.players@.len() as int),
        ) ==> has_turn(g0, turns, i)
}

impl SquinkSplash {
    /// Why `submit_turn(block, ..)` is refused, if it is.
    pub open spec fn turn_error(&self, block: u32) -> Option<GameError> {
        if !self.running() {
            Some(GameError::GameCannotBeEndedOrHasAlreadyEnded)
        } else if self.last_turn.is_none() {
            Some(GameError::ValueWasNotSetWhenStartingTheGame)
        } else if self.last_turn.unwrap() >= block {
            Some(GameError::TurnWasAlreadySubmittedForThisBlock)
        } else {
            None
        }
    }

    /// What the agents are told in round `rounds_played`: the names and
    /// scores of all participants, in registry order.
    pub fn game_info(&self, rounds_played: u32) -> (r: GameInfo)
        ensures
            r.rounds_played == rounds_played,
            r.gas_left == 0,
            r.player_scores@.len() == self.players@.len(),
            forall|k: int|
                0 <= k < self.players@.len() ==> #[trigger] r.player_scores@[k].0@
                    == self.players@[k].name@ && r.player_scores@[k].1 == self.players@[k].score,
    {
        let mut scores: Vec<(String, u64)> = Vec::new();
        let mut i: usize = 0;
        while i < self.players.len()
            invariant
                0 <= i <= self.players@.len(),
                scores@.len() == i,
                forall|k: int|
                    0 <= k < i ==> #[trigger] scores@[k].0@ == self.players@[k].name@
                        && scores@[k].1 == self.players@[k].score,
            decreases self.players@.len() - i,
        {
            scores.push((self.players[i].name.clone(), self.players[i].score));
            i = i + 1;
        }
        GameInfo { rounds_played, gas_left: 0, player_scores: scores }
    }

    /// Applies one agent's reply in round `current_round` to participant
    /// `idx`: the gas the call used is charged whatever the reply, and a move
    /// onto a free field of the board claims it and adds `current_round + 1`
    /// to the score. A claimed field is never claimed again.
    pub fn resolve_turn(&mut self, idx: usize, current_round: u32, call: AgentCall) -> (r:
        TurnOutcome)
        requires
            old(self).wf(),
            idx < old(self).players@.len(),
            old(self).state == (State::Running { rounds_played: (current_round + 1) as u32 }),
            current_round < u32::MAX,
            old(self).players@[idx as int].score <= triangle(current_round as nat),
        ensures
            final(self).wf(),
            r == outcome_of(old(self).board@, old(self).dimensions, call.reply),
            final(self).players@ == old(self).players@.update(
                idx as int,
                Player {
                    gas_used: saturating_add_u64(
                        old(self).players@[idx as int].gas_used as int,
                        call.gas_used as int,
                    ) as u64,
                    score: if r is Success {
                        (old(self).players@[idx as int].score + current_round + 1) as u64
                    } else {
                        old(self).players@[idx as int].score
                    },
                    ..old(self).players@[idx as int]
                },
            ),
            final(self).board@ == if let TurnOutcome::Success { turn } = r {
                old(self).board@.insert(
                    old(self).dimensions.linear_index(turn) as u32,
                    FieldEntry { owner: old(self).players@[idx as int].id, claimed_at: current_round },
                )
            } else {
                old(self).board@
            },
            *final(self) == (SquinkSplash {
                players: final(self).players,
                board: final(self).board,
                ..*old(self)
            }),
    {
        let ghost before = self.players@;
        let p = &self.players[idx];
        let gas_used = if p.gas_used as u128 + call.gas_used as u128 > u64::MAX as u128 {
            u64::MAX
        } else {
            p.gas_used + call.gas_used
        };
        let mut score = p.score;
        let outcome = match call.reply {
            AgentReply::Broken => TurnOutcome::BrokenPlayer,
            AgentReply::Move(None) => TurnOutcome::NoTurn,
            AgentReply::Move(Some(turn)) => match self.dimensions.index_of(&turn) {
                None => TurnOutcome::OutOfBounds { turn },
                Some(i) => match self.board.get(&i) {
                    Some(entry) => TurnOutcome::Occupied { turn, player: entry.owner },
                    None => {
                        assert(triangle((current_round + 1) as nat) == current_round + 1
                            + triangle(current_round as nat));
                        assert(triangle((current_round + 1) as nat) <= triangle(u32::MAX as nat))
                            by {
                            crate::game::lemma_triangle_monotonic(
                                (current_round + 1) as nat,
                                u32::MAX as nat,
                            );
                        }
                        proof {
                            lemma_triangle_bound(u32::MAX as nat);
                        }
                        score = p.score + current_round as u64 + 1;
                        self.board.insert(i, FieldEntry { owner: p.id, claimed_at: current_round });
                        TurnOutcome::Success { turn }
                    },
                },
            },
        };
        let updated = Player { id: p.id, name: p.name.clone(), gas_used, score };
        self.players.set(idx, updated);
        proof {
            assert(self.players@ == before.update(idx as int, updated));
            assert forall|i: int, j: int| 0 <= i < j < self.players@.len() implies crate::account::id_lt(
                #[trigger] self.players@[i].id@,
                #[trigger] self.players@[j].id@,
            ) by {
                assert(self.players@[i].id == before[i].id);
                assert(self.players@[j].id == before[j].id);
            }
            assert forall|i: int, j: int| 0 <= i < j < self.players@.len() implies #[trigger] self.players@[i].name@
                != #[trigger] self.players@[j].name@ by {
                assert(self.players@[i].name == before[i].name);
                assert(self.players@[j].name == before[j].name);
            }
            assert forall|i: int| 0 <= i < self.players@.len() implies #[trigger] self.players@[i].score
                <= self.score_cap() by {
                if i != idx {
                    assert(self.players@[i] == before[i]);
                } else {
                    assert(triangle((current_round + 1) as nat) == current_round + 1
                        + triangle(current_round as nat));
                }
            }
        }
        outcome
    }

    /// Plays one round, at most once per block: the participants of the
    /// round's batch, in registry order, are each asked for a move within
    /// their gas limit and their replies resolved; a participant without gas
    /// left for the game is skipped. Returns what happened to each one asked.
    /// The round counter and the block marker move before any agent is asked,
    /// so an agent that calls back cannot play a second round in this block.
    pub fn submit_turn<A: Agent>(&mut self, block: u32, agent: &mut A) -> (r: Result<
        Vec<TurnTaken>,
        GameError,
    >)
        requires
            old(self).wf(),
        ensures
            final(self).wf(),
            match old(self).turn_error(block) {
                Some(e) => r == Err::<Vec<TurnTaken>, GameError>(e) && *final(self) == *old(self),
                None => {
                    let round = old(self).state->rounds_played;
                    let n = old(self).players@.len();
                    let batches = batches_for(n as int);
                    let budget = gas_budget_for(gas_limit_for(n as int), old(self).rounds as int);
                    &&& r is Ok
                    &&& turns_reported(*old(self), *final(self), r->Ok_0@, round as int, budget)
                    &&& final(self).state == (State::Running { rounds_played: (round + 1) as u32 })
                    &&& final(self).last_turn == Some(block)
                    &&& final(self).dimensions == old(self).dimensions
                    &&& final(self).buy_in == old(self).buy_in
                    &&& final(self).rounds == old(self).rounds
                    &&& final(self).opener == old(self).opener
                    &&& final(self).players@.len() == n
                    &&& forall|i: int|
                        0 <= i < n ==> player_step(
                            #[trigger] old(self).players@[i],
                            final(self).players@[i],
                            round as int,
                        )
                    &&& forall|i: int|
                        0 <= i < n && !in_batch(i, round as int, batches) ==> final(self).players@[i]
                            == #[trigger] old(self).players@[i]
                    &&& forall|i: int|
                        0 <= i < n && old(self).players@[i].gas_used >= gas_budget_for(
                            gas_limit_for(n as int),
                            old(self).rounds as int,
                        ) ==> final(self).players@[i] == #[trigger] old(self).players@[i]
                    &&& board_step(old(self).board@, final(self).board@, old(self).players@, round as int)
                },
            },
    {
        let current_round = match self.state {
            State::Running { rounds_played } => {
                if rounds_played >= self.rounds {
                    return Err(GameError::GameCannotBeEndedOrHasAlreadyEnded);
                }
                rounds_played
            },
            _ => {
                return Err(GameError::GameCannotBeEndedOrHasAlreadyEnded);
            },
        };
        match self.last_turn {
            None => {
                return Err(GameError::ValueWasNotSetWhenStartingTheGame);
            },
            Some(last) => {
                if last >= block {
                    return Err(GameError::TurnWasAlreadySubmittedForThisBlock);
                }
            },
        }
        let ghost g0 = *self;
        self.last_turn = Some(block);
        self.state = State::Running { rounds_played: current_round + 1 };
        assert(triangle(current_round as nat) <= triangle((current_round + 1) as nat));
        let num_players = self.players.len();
        let num_batches = calc_num_batches(num_players);
        let batch = current_batch(current_round, num_batches);
        let gas_limit = calc_gas_limit(num_players);
        let gas_budget = calc_gas_budget(gas_limit, self.rounds);
        let mut info = self.game_info(current_round);
        let mut turns: Vec<TurnTaken> = Vec::new();
        let mut idx: usize = 0;
        let ghost mut who: Seq<int> = Seq::empty();
        while idx < num_players
            invariant
                self.wf(),
                0 <= idx <= num_players,
                num_players == g0.players@.len(),
                num_batches == batches_for(num_players as int),
                batch == current_round % num_batches,
                gas_budget == gas_budget_for(gas_limit_for(num_players as int), g0.rounds as int),
                current_round == g0.state->rounds_played,
                current_round < u32::MAX,
                g0.wf(),
                g0.state == (State::Running { rounds_played: current_round }),
                who.len() == turns@.len(),
                forall|j: int|
                    0 <= j < who.len() ==> 0 <= #[trigger] who[j] < idx && in_batch(
                        who[j],
                        current_round as int,
                        num_batches as int,
                    ) && g0.players@[who[j]].id == turns@[j].player && turn_effect(
                        g0,
                        *self,
                        who[j],
                        turns@[j].outcome,
                        current_round as int,
                        gas_budget as int,
                    ),
                forall|i: int|
                    0 <= i < idx && #[trigger] in_batch(i, current_round as int, num_batches as int)
                        ==> who.contains(i),
                self.state == (State::Running { rounds_played: (current_round + 1) as u32 }),
                self.last_turn == Some(block),
                self.dimensions == g0.dimensions,
                self.buy_in == g0.buy_in,
                self.rounds == g0.rounds,
                self.opener == g0.opener,
                self.players@.len() == num_players,
                forall|i: int|
                    idx <= i < num_players ==> #[trigger] self.players@[i] == g0.players@[i],
                forall|i: int|
                    0 <= i < num_players ==> player_step(
                        #[trigger] g0.players@[i],
                        self.players@[i],
                        current_round as int,
                    ),
                forall|i: int|
                    0 <= i < num_players && !in_batch(i, current_round as int, num_batches as int)
                        ==> self.players@[i] == #[trigger] g0.players@[i],
                forall|i: int|
                    0 <= i < num_players && g0.players@[i].gas_used >= gas_budget
                        ==> self.players@[i] == #[trigger] g0.players@[i],
                board_step(g0.board@, self.board@, g0.players@, current_round as int),
            decreases num_players - idx,
        {
            let ghost turns_before = turns@;
            assert(num_players <= 80);
            if (idx as u32) % num_batches != batch {
                assert(!in_batch(idx as int, current_round as int, num_batches as int));
                idx = idx + 1;
                continue;
            }
            assert(in_batch(idx as int, current_round as int, num_batches as int));
            let id = self.players[idx].id;
            let used = self.players[idx].gas_used;
            let gas_left = if gas_budget > used {
                gas_budget - used
            } else {
                0
            };
            if gas_left == 0 {
                turns.push(TurnTaken { player: id, outcome: TurnOutcome::BudgetExhausted });
                proof {
                    assert(self.players@[idx as int] == g0.players@[idx as int]);
                    reveal(turn_effect);
                    assert(turn_effect(g0, *self, idx as int, turns@.last().outcome, current_round as int, gas_budget as int));
                    let ghost old_who = who;
                    who = who.push(idx as int);
                    assert forall|j: int| 0 <= j < who.len() implies 0 <= #[trigger] who[j] < idx + 1 && in_batch(
                        who[j],
                        current_round as int,
                        num_batches as int,
                    ) && g0.players@[who[j]].id == turns@[j].player && turn_effect(
                        g0,
                        *self,
                        who[j],
                        turns@[j].outcome,
                        current_round as int,
                        gas_budget as int,
                    ) by {
                        if j < old_who.len() {
                            assert(who[j] == old_who[j]);
                            assert(turns@[j] == turns_before[j]);
                        }
                    }
                    assert forall|i: int|
                        0 <= i < idx + 1 && #[trigger] in_batch(i, current_round as int, num_batches as int)
                            implies who.contains(i) by {
                        if i == idx {
                            assert(who[who.len() - 1] == i);
                        } else {
                            let j = choose|j: int| 0 <= j < old_who.len() && old_who[j] == i;
                            assert(who[j] == i);
                        }
                    }
                }
                idx = idx + 1;
                continue;
            }
            info.gas_left = gas_left;
            let call = agent.your_turn(&*self, &id, &info, gas_limit);
            let ghost before = *self;
            let outcome = self.resolve_turn(idx, current_round, call);
            proof {
                lemma_triangle_bound((current_round + 1) as nat);
                assert(triangle((current_round + 1) as nat) == current_round + 1 + triangle(
                    current_round as nat,
                ));
                assert(self.players@[idx as int].id == g0.players@[idx as int].id);
                assert forall|k: u32|
                    #[trigger] self.board@.contains_key(k) && !g0.board@.contains_key(k)
                        implies self.board@[k].claimed_at == current_round && has_id(
                        g0.players@,
                        self.board@[k].owner@,
                    ) by {
                    if !before.board@.contains_key(k) {
                        assert(g0.players@[idx as int].id@ == self.board@[k].owner@);
                    }
                }
            }
            turns.push(TurnTaken { player: id, outcome });
            proof {
                assert(before.players@[idx as int] == g0.players@[idx as int]);
                reveal(turn_effect);
                assert(turn_effect(g0, *self, idx as int, turns@.last().outcome, current_round as int, gas_budget as int));
                assert forall|j: int| 0 <= j < who.len() implies turn_effect(
                    g0,
                    *self,
                    #[trigger] who[j],
                    turns@[j].outcome,
                    current_round as int,
                    gas_budget as int,
                ) by {
                    assert(turns@[j] == turns_before[j]);
                    lemma_turn_effect_stable(g0, before, *self, who[j], turns@[j].outcome, current_round as int, gas_budget as int);
                }
                let ghost old_who = who;
                who = who.push(idx as int);
                assert forall|j: int| 0 <= j < who.len() implies 0 <= #[trigger] who[j] < idx + 1 && in_batch(
                    who[j],
                    current_round as int,
                    num_batches as int,
                ) && g0.players@[who[j]].id == turns@[j].player && turn_effect(
                    g0,
                    *self,
                    who[j],
                    turns@[j].outcome,
                    current_round as int,
                    gas_budget as int,
                ) by {
                    if j < old_who.len() {
                        assert(who[j] == old_who[j]);
                        assert(turns@[j] == turns_before[j]);
                    }
                }
                assert forall|i: int|
                    0 <= i < idx + 1 && #[trigger] in_batch(i, current_round as int, num_batches as int)
                        implies who.contains(i) by {
                    if i == idx {
                        assert(who[who.len() - 1] == i);
                    } else {
                        let j = choose|j: int| 0 <= j < old_who.len() && old_who[j] == i;
                        assert(who[j] == i);
                    }
                }
            }
            idx = idx + 1;
        }
        proof {
            let n = old(self).players@.len();
            let round = old(self).state->rounds_played;
            let batches = batches_for(n as int);
            let budget = gas_budget_for(gas_limit_for(n as int), old(self).rounds as int);
            assert(g0 == *old(self));
            assert forall|j: int| 0 <= j < turns@.len() implies #[trigger] turn_accounted(
                *old(self),
                *self,
                turns@,
                round as int,
                budget,
                j,
            ) by {
                assert(turn_of(*old(self), *self, turns@, round as int, budget, who[j], j));
            }
            assert forall|i: int|
                0 <= i < n && #[trigger] in_batch(i, round as int, batches) implies has_turn(
                *old(self),
                turns@,
                i,
            ) by {
                assert(in_batch(i, current_round as int, num_batches as int));
                assert(who.contains(i));
                let j = choose|j: int| 0 <= j < who.len() && who[j] == i;
                assert(turns@[j].player == old(self).players@[i].id);
            }
            assert(turns_reported(*old(self), *self, turns@, round as int, budget));
        }
        Ok(turns)
    }
}

/// A reported turn stays true while its participant is left alone and the
/// board only grows.
proof fn lemma_turn_effect_stable(
    g0: SquinkSplash,
    g1: SquinkSplash,
    g2: SquinkSplash,
    i: int,
    outcome: TurnOutcome,
    round: int,
    budget: int,
)
    requires
        turn_effect(g0, g1, i, outcome, round, budget),
        0 <= i < g1.players@.len(),
        g2.players@.len() == g1.players@.len(),
        g2.players@[i] == g1.players@[i],
        forall|k: u32| #[trigger]
            g1.board@.contains_key(k) ==> g2.board@.contains_key(k) && g2.board@[k] == g1.board@[k],
    ensures
        turn_effect(g0, g2, i, outcome, round, budget),
{
    reveal(turn_effect);
}

/// Nobody can score more than `u64::MAX` in any number of rounds a game
/// can count.
pub proof fn lemma_triangle_bound(n: nat)
    requires
        n <= u32::MAX,
    ensures
        triangle(n) <= n * n,
        triangle(n) <= u64::MAX,
    decreases n,
{
    if n > 0 {
        lemma_triangle_bound((n - 1) as nat);
        assert((n - 1) * (n - 1) + n <= n * n) by (nonlinear_arith)
            requires
                n >= 1,
        ;
    }
    assert(n * n <= (u32::MAX as nat) * (u32::MAX as nat)) by (nonlinear_arith)
        requires
            n <= u32::MAX,
    ;
}

} // verus!
