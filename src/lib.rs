//! A turn-based board game engine: participants register, external agents
//! propose one field per round, claims are resolved on a shared board, and the
//! best-scoring participant wins the pot.
use vstd::prelude::*;

pub mod account;
pub mod error;
pub mod field;
pub mod game;
pub mod laws;
pub mod registry;
pub mod schedule;
pub mod structs;
pub mod turn;

verus! {

} // verus!
