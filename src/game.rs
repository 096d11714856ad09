use vstd::prelude::*;
use std::collections::BTreeMap;
use crate::account::{compare_ids, AccountId, IdOrder};
use crate::error::GameError;
use crate::field::Field;
use crate::registry::{
    find_player, has_id, has_name, lemma_insert_keeps_registry_valid, name_len, name_taken,
    registry_valid, MAX_NAME_LEN, MIN_NAME_LEN, PLAYER_LIMIT,
};
use crate::schedule::{
    batches_for, calc_gas_budget, calc_gas_limit, calc_num_batches, gas_budget_for, gas_limit_for,
};
use crate::structs::{
    ranks_before, FieldEntry, GameDestroyed, GameEnded, GameStarted, Player, PlayerRegistered,
    State,
};

verus! {

broadcast use vstd::std_specs::btree::group_btree_axioms, vstd::laws_cmp::group_laws_cmp;

/// `a + b`, saturated at `u32::MAX`.
pub open spec fn saturating_add_u32(a: int, b: int) -> int {
    if a + b > u32::MAX {
        u32::MAX as int
    } else {
        a + b
    }
}

/// `a * b`, saturated at `u128::MAX`.
pub open spec fn saturating_mul_u128(a: int, b: int) -> int {
    if a * b > u128::MAX {
        u128::MAX as int
    } else {
        a * b
    }
}

/// `1 + 2 + ... + n`: the most a participant can score in `n` rounds.
pub open spec fn triangle(n: nat) -> nat
    decreases n,
{
    if n == 0 {
        0
    } else {
        n + triangle((n - 1) as nat)
    }
}

/// `w` is the winner of `s`: it ranks before every earlier participant and
/// no later participant ranks before it.
pub open spec fn is_winner_index(s: Seq<Player>, w: int) -> bool {
    &&& 0 <= w < s.len()
    &&& forall|k: int| 0 <= k < w ==> ranks_before(s[w], #[trigger] s[k])
    &&& forall|k: int| w < k < s.len() ==> !ranks_before(#[trigger] s[k], s[w])
}

/// What the winner is paid when the game ends.
#[derive(Clone, Copy, Debug, PartialEq, Eq)]
pub struct Payout {
    pub winner: AccountId,
    pub amount: u128,
}

/// One game: its phase, board, participants and settings.
pub struct SquinkSplash {
    /// The phase of the game.
    pub state: State,
    /// The claimed fields, by linear index.
    pub board: BTreeMap<u32, FieldEntry>,
    /// Width and height of the board.
    pub dimensions: Field,
    /// The participants, ascending by identifier.
    pub players: Vec<Player>,
    /// The stake each participant pays to register.
    pub buy_in: u128,
    /// The number of rounds a game lasts.
    pub rounds: u32,
    /// The block in which the last round was played, once one was.
    pub last_turn: Option<u32>,
    /// The account allowed to start the game.
    pub opener: AccountId,
}

impl SquinkSplash {
    /// The registry is valid and within capacity, every claim lies on the
    /// board, and no score exceeds what the rounds played allow.
    pub open spec fn wf(&self) -> bool {
        &&& registry_valid(self.players@)
        &&& self.players@.len() <= PLAYER_LIMIT
        &&& forall|k: u32| #[trigger] self.board@.contains_key(k) ==> k < self.dimensions.area()
        &&& forall|i: int|
            0 <= i < self.players@.len() ==> #[trigger] self.players@[i].score <= self.score_cap()
    }

    /// The highest score a participant can hold in the current phase.
    pub open spec fn score_cap(&self) -> nat {
        match self.state {
            State::Forming { .. } => 0,
            State::Running { rounds_played } => triangle(rounds_played as nat),
            State::Finished { .. } => triangle(u32::MAX as nat),
        }
    }

    /// The game is in its playing phase with rounds left to play.
    pub open spec fn running(&self) -> bool {
        match self.state {
            State::Running { rounds_played } => rounds_played < self.rounds,
            _ => false,
        }
    }

    /// Why `register_player(id, name, value)` is refused, if it is.
    pub open spec fn register_error(&self, id: AccountId, name: Seq<char>, value: u128) -> Option<
        GameError,
    > {
        if !(self.state is Forming) {
            Some(GameError::PlayersCanOnlyBeRegisteredInTheFormingPhase)
        } else if !(MIN_NAME_LEN <= name_len(name) <= MAX_NAME_LEN) {
            Some(GameError::InvalidLengthForName)
        } else if value != self.buy_in {
            Some(GameError::WrongBuyIn)
        } else if self.players@.len() >= PLAYER_LIMIT {
            Some(GameError::MaximumPlayerCountReached)
        } else if has_id(self.players@, id@) {
            Some(GameError::PlayerAlreadyRegistered)
        } else if has_name(self.players@, name) {
            Some(GameError::ThisNameIsAlreadyTaken)
        } else {
            None
        }
    }

    /// Why `start_game(caller, block)` is refused, if it is.
    pub open spec fn start_error(&self, caller: AccountId, block: u32) -> Option<GameError> {
        if caller@ != self.opener@ {
            Some(GameError::OnlyAdminCanStartTheGame)
        } else if !(self.state is Forming) {
            Some(GameError::GameAlreadyStarted)
        } else if block < self.state->earliest_start {
            Some(GameError::GameCantBeStartedYet)
        } else if self.players@.len() == 0 {
            Some(GameError::YouNeedAtLeastOnePlayer)
        } else {
            None
        }
    }

    /// Why the game cannot be ended, if it cannot.
    pub open spec fn end_error(&self) -> Option<GameError> {
        if !(self.state is Running) || self.state->rounds_played < self.rounds {
            Some(GameError::GameCantBeEndedOrHasAlreadyEnded)
        } else if self.players@.len() == 0 {
            Some(GameError::WeOnlyAllowStartingTheGameWithAtLeastOnePlayer)
        } else {
            None
        }
    }

    /// The pot: the buy-in times the number of participants.
    pub open spec fn pot(&self) -> int {
        saturating_mul_u128(self.players@.len() as int, self.buy_in as int)
    }

    /// A new game in its forming phase, opened by `caller` in block `block`.
    pub fn new(
        dimensions: Field,
        buy_in: u128,
        forming_rounds: u32,
        rounds: u32,
        block: u32,
        caller: AccountId,
    ) -> (r: Self)
        ensures
            r.wf(),
            r.state == (State::Forming {
                earliest_start: saturating_add_u32(block as int, forming_rounds as int) as u32,
            }),
            r.board@.is_empty(),
            r.players@.len() == 0,
            r.dimensions == dimensions,
            r.buy_in == buy_in,
            r.rounds == rounds,
            r.last_turn.is_none(),
            r.opener == caller,
    {
        let earliest_start = if block as u64 + forming_rounds as u64 > u32::MAX as u64 {
            u32::MAX
        } else {
            block + forming_rounds
        };
        SquinkSplash {
            state: State::Forming { earliest_start },
            board: BTreeMap::new(),
            dimensions,
            players: Vec::new(),
            buy_in,
            rounds,
            last_turn: None,
            opener: caller,
        }
    }

    /// Registers participant `id` called `name`, who paid `transferred_value`.
    /// On success the participant stands at the position that keeps the
    /// registry ascending by identifier, with no score and no gas used.
    pub fn register_player(&mut self, id: AccountId, name: String, transferred_value: u128) -> (r:
        Result<PlayerRegistered, GameError>)
        requires
            old(self).wf(),
        ensures
            final(self).wf(),
            match old(self).register_error(id, name@, transferred_value) {
                Some(e) => r == Err::<PlayerRegistered, GameError>(e) && *final(self) == *old(self),
                None => {
                    &&& r == Ok::<PlayerRegistered, GameError>(PlayerRegistered { player: id })
                    &&& exists|pos: int|
                        0 <= pos <= old(self).players@.len() && final(self).players@ == old(
                            self,
                        ).players@.insert(pos, Player { id, name, gas_used: 0, score: 0 })
                    &&& final(self).state == old(self).state
                    &&& final(self).board == old(self).board
                    &&& final(self).dimensions == old(self).dimensions
                    &&& final(self).buy_in == old(self).buy_in
                    &&& final(self).rounds == old(self).rounds
                    &&& final(self).last_turn == old(self).last_turn
                    &&& final(self).opener == old(self).opener
                },
            },
    {
        if !matches!(self.state, State::Forming { .. }) {
            return Err(GameError::PlayersCanOnlyBeRegisteredInTheFormingPhase);
        }
        let s = name.as_str();
        let len = s.len();
        assert(len == name_len(name@));
        if len < MIN_NAME_LEN || len > MAX_NAME_LEN {
            return Err(GameError::InvalidLengthForName);
        }
        if transferred_value != self.buy_in {
            return Err(GameError::WrongBuyIn);
        }
        if self.players.len() >= PLAYER_LIMIT {
            return Err(GameError::MaximumPlayerCountReached);
        }
        match find_player(&id, &self.players) {
            Ok(_) => Err(GameError::PlayerAlreadyRegistered),
            Err(idx) => {
                if name_taken(&self.players, &name) {
                    return Err(GameError::ThisNameIsAlreadyTaken);
                }
                let ghost before = self.players@;
                let player = Player { id, name, gas_used: 0, score: 0 };
                proof {
                    lemma_insert_keeps_registry_valid(before, idx as int, player);
                }
                self.players.insert(idx, player);
                assert forall|i: int| 0 <= i < self.players@.len() implies #[trigger] self.players@[i].score
                    <= self.score_cap() by {
                    if i != idx as int {
                        if i < idx {
                            assert(self.players@[i] == before[i]);
                        } else {
                            assert(self.players@[i] == before[i - 1]);
                        }
                    }
                }
                Ok(PlayerRegistered { player: id })
            },
        }
    }

    /// Starts the game: only the opener may, only in the forming phase, once
    /// block `earliest_start` is reached, and only with a participant. No round
    /// can be played in the block in which the game starts.
    pub fn start_game(&mut self, caller: AccountId, block: u32) -> (r: Result<
        GameStarted,
        GameError,
    >)
        requires
            old(self).wf(),
        ensures
            final(self).wf(),
            match old(self).start_error(caller, block) {
                Some(e) => r == Err::<GameStarted, GameError>(e) && *final(self) == *old(self),
                None => {
                    &&& r == Ok::<GameStarted, GameError>(GameStarted { starter: caller })
                    &&& *final(self) == (SquinkSplash {
                        state: State::Running { rounds_played: 0 },
                        last_turn: Some(block),
                        ..*old(self)
                    })
                },
            },
    {
        if compare_ids(&caller, &self.opener) != IdOrder::Equal {
            return Err(GameError::OnlyAdminCanStartTheGame);
        }
        match self.state {
            State::Forming { earliest_start } => {
                if block < earliest_start {
                    return Err(GameError::GameCantBeStartedYet);
                }
            },
            _ => {
                return Err(GameError::GameAlreadyStarted);
            },
        }
        if self.players.len() == 0 {
            return Err(GameError::YouNeedAtLeastOnePlayer);
        }
        self.state = State::Running { rounds_played: 0 };
        self.last_turn = Some(block);
        Ok(GameStarted { starter: caller })
    }

    /// The index of the winner: the first participant with the highest score,
    /// and among those with the least gas used.
    pub fn winner_index(players: &Vec<Player>) -> (r: usize)
        requires
            players@.len() > 0,
        ensures
            is_winner_index(players@, r as int),
    {
        let mut best: usize = 0;
        let mut i: usize = 1;
        while i < players.len()
            invariant
                1 <= i <= players@.len(),
                0 <= best < i,
                forall|k: int| 0 <= k < best ==> ranks_before(players@[best as int], #[trigger] players@[k]),
                forall|k: int| best < k < i ==> !ranks_before(#[trigger] players@[k], players@[best as int]),
            decreases players@.len() - i,
        {
            if players[i].ranks_before(&players[best]) {
                best = i;
            }
            i = i + 1;
        }
        best
    }

    /// What ending the game would pay, and to whom: the pot goes to the
    /// winner. Refused unless all rounds were played and someone takes part.
    pub fn payout(&self) -> (r: Result<Payout, GameError>)
        ensures
            match self.end_error() {
                Some(e) => r == Err::<Payout, GameError>(e),
                None => r matches Ok(p) && p.amount == self.pot() && exists|w: int|
                    is_winner_index(self.players@, w) && #[trigger] self.players@[w].id == p.winner,
            },
    {
        match self.state {
            State::Running { rounds_played } => {
                if rounds_played < self.rounds {
                    return Err(GameError::GameCantBeEndedOrHasAlreadyEnded);
                }
            },
            _ => {
                return Err(GameError::GameCantBeEndedOrHasAlreadyEnded);
            },
        }
        if self.players.len() == 0 {
            return Err(GameError::WeOnlyAllowStartingTheGameWithAtLeastOnePlayer);
        }
        let w = Self::winner_index(&self.players);
        let n = self.players.len() as u128;
        assert((n as int) * (self.buy_in as int) <= (u128::MAX as int) * (u128::MAX as int)) by (nonlinear_arith)
            requires
                n <= u128::MAX,
                self.buy_in <= u128::MAX,
        ;
        let amount = if n == 0 || self.buy_in > u128::MAX / n {
            proof {
                if n > 0 {
                    assert((n as int) * (self.buy_in as int) > u128::MAX) by (nonlinear_arith)
                        requires
                            n > 0,
                            self.buy_in > u128::MAX / n,
                    ;
                }
            }
            if n == 0 { 0 } else { u128::MAX }
        } else {
            assert((n as int) * (self.buy_in as int) <= u128::MAX) by (nonlinear_arith)
                requires
                    n > 0,
                    self.buy_in <= u128::MAX / n,
            ;
            n * self.buy_in
        };
        Ok(Payout { winner: self.players[w].id, amount })
    }

    /// Ends the game after the pot was handed over: `transfer` is what the
    /// transfer of `payout()` to the winner gave. On success the game is
    /// finished with that winner; a failed transfer, or a game that cannot be
    /// ended, changes nothing.
    pub fn end_game(&mut self, ender: AccountId, transfer: Result<(), GameError>) -> (r: Result<
        GameEnded,
        GameError,
    >)
        requires
            old(self).wf(),
        ensures
            final(self).wf(),
            match old(self).end_error() {
                Some(e) => r == Err::<GameEnded, GameError>(e) && *final(self) == *old(self),
                None => match transfer {
                    Err(e) => r == Err::<GameEnded, GameError>(e) && *final(self) == *old(self),
                    Ok(_) => {
                        &&& r == Ok::<GameEnded, GameError>(GameEnded { ender })
                        &&& exists|w: int|
                            is_winner_index(old(self).players@, w) && #[trigger] old(
                                self,
                            ).players@[w].id == final(self).state->winner
                        &&& final(self).state is Finished
                        &&& *final(self) == (SquinkSplash { state: final(self).state, ..*old(self) })
                    },
                },
            },
    {
        let payout = match self.payout() {
            Ok(p) => p,
            Err(e) => {
                return Err(e);
            },
        };
        if let Err(e) = transfer {
            return Err(e);
        }
        assert(triangle(self.state->rounds_played as nat) <= triangle(u32::MAX as nat)) by {
            lemma_triangle_monotonic(self.state->rounds_played as nat, u32::MAX as nat);
        }
        self.state = State::Finished { winner: payout.winner };
        Ok(GameEnded { ender })
    }

    /// Returns a finished game to its forming phase, open from `block` on,
    /// with an empty board, no participants and no round played.
    pub fn reset_game(&mut self, block: u32) -> (r: Result<(), GameError>)
        requires
            old(self).wf(),
        ensures
            final(self).wf(),
            old(self).state is Finished ==> {
                &&& r is Ok
                &&& final(self).state == (State::Forming { earliest_start: block })
                &&& final(self).board@.is_empty()
                &&& final(self).players@.len() == 0
                &&& final(self).last_turn == Some(0u32)
                &&& final(self).dimensions == old(self).dimensions
                &&& final(self).buy_in == old(self).buy_in
                &&& final(self).rounds == old(self).rounds
                &&& final(self).opener == old(self).opener
            },
            !(old(self).state is Finished) ==> r == Err::<(), GameError>(
                GameError::OnlyFinishedGameCanBeReset,
            ) && *final(self) == *old(self),
    {
        match self.state {
            State::Finished { .. } => {
                self.state = State::Forming { earliest_start: block };
                self.board.clear();
                self.players = Vec::new();
                self.last_turn = Some(0);
                Ok(())
            },
            _ => Err(GameError::OnlyFinishedGameCanBeReset),
        }
    }

    /// The winner's request to remove the finished game: hands back the
    /// winning participant, looked up again in the registry.
    pub fn destroy(&self, caller: AccountId) -> (r: Result<GameDestroyed, GameError>)
        requires
            self.wf(),
        ensures
            !(self.state is Finished) ==> r == Err::<GameDestroyed, GameError>(
                GameError::OnlyFinishedGamesCanBeDestroyed,
            ),
            self.state is Finished && caller@ != self.state->winner@ ==> r == Err::<
                GameDestroyed,
                GameError,
            >(GameError::OnlyWinnerIsAllowedToDestroyTheContract),
            self.state is Finished && caller@ == self.state->winner@ ==> {
                if has_id(self.players@, caller@) {
                    r matches Ok(d) && exists|i: int|
                        0 <= i < self.players@.len() && #[trigger] self.players@[i] == d.winner
                            && d.winner.id@ == caller@
                } else {
                    r == Err::<GameDestroyed, GameError>(GameError::TheWinnerIsNotAPlayer)
                }
            },
    {
        match self.state {
            State::Finished { winner } => {
                if compare_ids(&winner, &caller) != IdOrder::Equal {
                    return Err(GameError::OnlyWinnerIsAllowedToDestroyTheContract);
                }
                match find_player(&winner, &self.players) {
                    Ok(i) => Ok(GameDestroyed { winner: self.players[i].duplicate() }),
                    Err(_) => Err(GameError::TheWinnerIsNotAPlayer),
                }
            },
            _ => Err(GameError::OnlyFinishedGamesCanBeDestroyed),
        }
    }

    /// Whether rounds are being played and some are left.
    pub fn is_running(&self) -> (r: bool)
        ensures
            r == self.running(),
    {
        match self.state {
            State::Running { rounds_played } => rounds_played < self.rounds,
            _ => false,
        }
    }

    /// The stake a participant pays to register.
    pub fn buy_in_amount(&self) -> (r: u128)
        ensures
            r == self.buy_in,
    {
        self.buy_in
    }

    /// The number of rounds the game lasts.
    pub fn total_rounds(&self) -> (r: u32)
        ensures
            r == self.rounds,
    {
        self.rounds
    }

    /// The gas each agent may spend in one call.
    pub fn gas_limit(&self) -> (r: u64)
        ensures
            r == gas_limit_for(self.players@.len() as int),
    {
        calc_gas_limit(self.players.len())
    }

    /// The number of batches a round is split into.
    pub fn num_batches(&self) -> (r: u32)
        ensures
            r == batches_for(self.players@.len() as int),
    {
        calc_num_batches(self.players.len())
    }

    /// The gas each agent may spend over the whole game.
    pub fn gas_budget(&self) -> (r: u64)
        ensures
            r == gas_budget_for(gas_limit_for(self.players@.len() as int), self.rounds as int),
    {
        calc_gas_budget(self.gas_limit(), self.rounds)
    }

    /// The phase of the game.
    pub fn state(&self) -> (r: State)
        ensures
            r == self.state,
    {
        self.state
    }

    /// All participants ranked: higher scores first, among equal scores
    /// less gas used first.
    pub fn players_sorted(&self) -> (r: Vec<Player>)
        ensures
            r@.len() == self.players@.len(),
            forall|i: int, j: int|
                0 <= i < j < r@.len() ==> !ranks_before(#[trigger] r@[j], #[trigger] r@[i]),
            forall|j: int| 0 <= j < r@.len() ==> #[trigger] self.players@.contains(r@[j]),
            forall|i: int| 0 <= i < self.players@.len() ==> r@.contains(#[trigger] self.players@[i]),
    {
        let mut r: Vec<Player> = Vec::new();
        let mut i: usize = 0;
        while i < self.players.len()
            invariant
                0 <= i <= self.players@.len(),
                r@.len() == i,
                forall|a: int, b: int|
                    0 <= a < b < r@.len() ==> !ranks_before(#[trigger] r@[b], #[trigger] r@[a]),
                forall|j: int| 0 <= j < r@.len() ==> #[trigger] self.players@.contains(r@[j]),
                forall|k: int| 0 <= k < i ==> r@.contains(#[trigger] self.players@[k]),
            decreases self.players@.len() - i,
        {
            let p = self.players[i].duplicate();
            let mut pos: usize = 0;
            while pos < r.len() && !p.ranks_before(&r[pos])
                invariant
                    0 <= pos <= r@.len(),
                    forall|k: int| 0 <= k < pos ==> !ranks_before(p, #[trigger] r@[k]),
                decreases r@.len() - pos,
            {
                pos = pos + 1;
            }
            let ghost before = r@;
            r.insert(pos, p);
            proof {
                assert(r@[pos as int] == p);
                assert forall|a: int, b: int| 0 <= a < b < r@.len() implies !ranks_before(
                    #[trigger] r@[b],
                    #[trigger] r@[a],
                ) by {
                    if a < pos && b == pos {
                    } else if a < pos && b > pos {
                        assert(r@[b] == before[b - 1]);
                    } else if a == pos && b > pos {
                        assert(r@[b] == before[b - 1]);
                        if ranks_before(r@[b], p) {
                            assert(ranks_before(before[pos as int], p) || !ranks_before(p, before[pos as int]));
                            if b - 1 > pos {
                                assert(!ranks_before(before[b - 1], before[pos as int]));
                            }
                        }
                    } else if a > pos {
                        assert(r@[a] == before[a - 1]);
                        assert(r@[b] == before[b - 1]);
                    }
                }
                assert forall|j: int| 0 <= j < r@.len() implies #[trigger] self.players@.contains(
                    r@[j],
                ) by {
                    if j < pos {
                        assert(r@[j] == before[j]);
                    } else if j > pos {
                        assert(r@[j] == before[j - 1]);
                    } else {
                        assert(self.players@[i as int] == p);
                    }
                }
                assert forall|k: int| 0 <= k < i + 1 implies r@.contains(
                    #[trigger] self.players@[k],
                ) by {
                    if k < i {
                        let j = choose|j: int| 0 <= j < before.len() && before[j] == self.players@[k];
                        if j < pos {
                            assert(r@[j] == before[j]);
                        } else {
                            assert(r@[j + 1] == before[j]);
                        }
                    } else {
                        assert(r@[pos as int] == self.players@[k]);
                    }
                }
            }
            i = i + 1;
        }
        r
    }

    /// Width and height of the board.
    pub fn dimensions(&self) -> (r: Field)
        ensures
            r == self.dimensions,
    {
        self.dimensions
    }

    /// What the board records for `coord`: `None` for a free field or one
    /// off the board.
    pub fn field(&self, coord: Field) -> (r: Option<FieldEntry>)
        ensures
            !self.dimensions.contains(coord) ==> r.is_none(),
            self.dimensions.contains(coord) ==> r == self.board@.get(
                self.dimensions.linear_index(coord) as u32,
            ),
    {
        match self.dimensions.index_of(&coord) {
            Some(i) => match self.board.get(&i) {
                Some(e) => Some(*e),
                None => None,
            },
            None => None,
        }
    }

    /// The whole board in row-major order (index `x + y * width`).
    pub fn board(&self) -> (r: Vec<Option<FieldEntry>>)
        ensures
            r@.len() == self.dimensions.area(),
            forall|i: int| 0 <= i < r@.len() ==> #[trigger] r@[i] == self.board@.get(i as u32),
    {
        let len = self.dimensions.len();
        let mut r: Vec<Option<FieldEntry>> = Vec::new();
        let mut i: u32 = 0;
        while i < len
            invariant
                0 <= i <= len,
                len == self.dimensions.area(),
                r@.len() == i,
                forall|k: int| 0 <= k < i ==> #[trigger] r@[k] == self.board@.get(k as u32),
            decreases len - i,
        {
            let e = match self.board.get(&i) {
                Some(e) => Some(*e),
                None => None,
            };
            r.push(e);
            i = i + 1;
        }
        r
    }
}

/// More rounds never lower the most a participant can score.
pub proof fn lemma_triangle_monotonic(a: nat, b: nat)
    requires
        a <= b,
    ensures
        triangle(a) <= triangle(b),
    decreases b,
{
    if a < b {
        lemma_triangle_monotonic(a, (b - 1) as nat);
    }
}

} // verus!
