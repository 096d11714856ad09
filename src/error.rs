use vstd::prelude::*;

verus! {

/// Why an operation on the game was refused. A refused operation changes
/// nothing.
#[derive(Debug, PartialEq, Eq)]
pub enum GameError {
    OnlyAdminCanStartTheGame,
    OnlyFinishedGamesCanBeDestroyed,
    GameAlreadyStarted,
    PlayerAlreadyRegistered,
    PlayersCanOnlyBeRegisteredInTheFormingPhase,
    InvalidLengthForName,
    WrongBuyIn,
    MaximumPlayerCountReached,
    ThisNameIsAlreadyTaken,
    GameCannotBeEndedOrHasAlreadyEnded,
    ThisGameDoesNotAcceptTurnsRightNow,
    TurnWasAlreadySubmittedForThisBlock,
    GameCantBeStartedYet,
    YouNeedAtLeastOnePlayer,
    GameCantBeEndedOrHasAlreadyEnded,
    OnlyWinnerIsAllowedToDestroyTheContract,
    OnlyFinishedGameCanBeReset,
    TheWinnerIsNotAPlayer,
    WeOnlyAllowStartingTheGameWithAtLeastOnePlayer,
    /// The execution environment refused an operation (a transfer); the
    /// text describes its error.
    InkEnvError(String),
    ValueWasNotSetWhenStartingTheGame,
}

} // verus!
