use vstd::prelude::*;
use crate::account::AccountId;
use crate::field::Field;

verus! {

/// What an agent is told about the game when it is asked for a move.
#[derive(Debug)]
pub struct GameInfo {
    pub rounds_played: u32,
    pub gas_left: u64,
    pub player_scores: Vec<(String, u64)>,
}

/// The phase of a game.
#[derive(Clone, Copy, Debug, PartialEq, Eq)]
pub enum State {
    /// Participants may register; the game may start once the block
    /// `earliest_start` is reached.
    Forming { earliest_start: u32 },
    /// Rounds are being played; `rounds_played` have been played so far.
    Running { rounds_played: u32 },
    /// The pot went to `winner`, who may destroy the game.
    Finished { winner: AccountId },
}

/// A registered participant.
#[derive(Debug, PartialEq, Eq)]
pub struct Player {
    pub id: AccountId,
    pub name: String,
    pub gas_used: u64,
    pub score: u64,
}

/// `a` ranks strictly before `b`: a higher score, or an equal score and
/// less gas used.
pub open spec fn ranks_before(a: Player, b: Player) -> bool {
    a.score > b.score || (a.score == b.score && a.gas_used < b.gas_used)
}

impl Player {
    /// The key by which participants are ranked: the winner has the
    /// smallest key in lexicographic order.
    pub fn scoring_order(&self) -> (r: (u64, u64))
        ensures
            r.0 == u64::MAX - self.score,
            r.1 == self.gas_used,
    {
        (u64::MAX - self.score, self.gas_used)
    }

    /// Whether `self` ranks strictly before `other`.
    pub fn ranks_before(&self, other: &Player) -> (r: bool)
        ensures
            r == ranks_before(*self, *other),
    {
        self.score > other.score || (self.score == other.score && self.gas_used < other.gas_used)
    }

    /// A copy of this participant.
    pub fn duplicate(&self) -> (r: Player)
        ensures
            r == *self,
    {
        Player { id: self.id, name: self.name.clone(), gas_used: self.gas_used, score: self.score }
    }
}

/// What the board records for a claimed field.
#[derive(Clone, Copy, Debug, PartialEq, Eq)]
pub struct FieldEntry {
    /// The participant that claimed the field.
    pub owner: AccountId,
    /// The round in which the field was claimed.
    pub claimed_at: u32,
}

/// The effect of asking one agent for a move. None of these makes the round
/// fail.
#[derive(Clone, Copy, Debug, PartialEq, Eq)]
pub enum TurnOutcome {
    /// The field was claimed.
    Success { turn: Field },
    /// The field lies off the board.
    OutOfBounds { turn: Field },
    /// `player` claimed the field earlier.
    Occupied { turn: Field, player: AccountId },
    /// The agent failed, ran out of gas or answered with garbage.
    BrokenPlayer,
    /// The agent chose not to move.
    NoTurn,
    /// The participant has no gas left for the game and was not asked.
    BudgetExhausted,
}

/// A participant joined the game.
#[derive(Clone, Copy, Debug, PartialEq, Eq)]
pub struct PlayerRegistered {
    pub player: AccountId,
}

/// A round was played; `rounds_played` now counts it.
#[derive(Clone, Copy, Debug, PartialEq, Eq)]
pub struct RoundIncremented {
    pub rounds_played: u32,
}

/// `starter` started the game.
#[derive(Clone, Copy, Debug, PartialEq, Eq)]
pub struct GameStarted {
    pub starter: AccountId,
}

/// `player`'s agent was asked for a move, with this effect.
#[derive(Clone, Copy, Debug, PartialEq, Eq)]
pub struct TurnTaken {
    pub player: AccountId,
    pub outcome: TurnOutcome,
}

/// `ender` ended the game.
#[derive(Clone, Copy, Debug, PartialEq, Eq)]
pub struct GameEnded {
    pub ender: AccountId,
}

/// The winner destroyed the finished game.
#[derive(Debug, PartialEq, Eq)]
pub struct GameDestroyed {
    pub winner: Player,
}

} // verus!
