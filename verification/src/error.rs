use vstd::prelude::*;

verus! {

/// The reasons a deposited stake can be rejected.
#[derive(Debug, Clone, Copy, PartialEq, Eq, Structural)]
pub enum InvalidBetReason {
    WrongDenom,
    AmountTooLow,
    MissingBet,
    TooManyCoins,
    InvalidAmount,
}

/// Every way an operation can be rejected. A rejection is terminal for the
/// current operation and commits no state change.
#[derive(Debug, Clone, Copy, PartialEq, Eq, Structural)]
pub enum ContractError {
    Unauthorized,
    InvalidAddress,
    InvalidBet { reason: InvalidBetReason },
    InvalidOpponent,
    InvalidMatchId,
    UnknownMatch,
    NotMatchCreator,
    NotAwaitingOpponent,
    InvalidMoveEncoding,
    StillAwaitingOpponent,
    MatchAlreadyFinished,
    NotYourTurn,
    IllegalMove,
    InvalidBoardEncoding,
}

} // verus!
