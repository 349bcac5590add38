use vstd::prelude::*;

use crate::error::{ContractError, InvalidBetReason};

verus! {

/// A single fungible-asset stake: an amount of one denomination.
#[derive(Debug, PartialEq, Eq)]
pub struct Coin {
    pub amount: u128,
    pub denom: String,
}

/// The mathematical image of a [`Coin`].
#[verifier::ext_equal]
pub struct CoinV {
    pub amount: u128,
    pub denom: Seq<char>,
}

impl View for Coin {
    type V = CoinV;

    open spec fn view(&self) -> CoinV {
        CoinV { amount: self.amount, denom: self.denom@ }
    }
}

impl Clone for Coin {
    fn clone(&self) -> (r: Self)
        ensures
            r@ == self@,
    {
        Coin { amount: self.amount, denom: self.denom.clone() }
    }
}

/// Why the deposited funds fail the stake policy `(min amount, denomination)`,
/// or `None` when they pass: exactly one coin, of the configured denomination,
/// of at least the minimum amount.
pub open spec fn bet_error(funds: Seq<CoinV>, min_bet: CoinV) -> Option<InvalidBetReason> {
    if funds.len() == 0 {
        Some(InvalidBetReason::MissingBet)
    } else if funds.len() > 1 {
        Some(InvalidBetReason::TooManyCoins)
    } else if funds[0].denom != min_bet.denom {
        Some(InvalidBetReason::WrongDenom)
    } else if funds[0].amount < min_bet.amount {
        Some(InvalidBetReason::AmountTooLow)
    } else {
        None
    }
}

/// The view of a list of deposited coins.
pub open spec fn funds_view(funds: Seq<Coin>) -> Seq<CoinV> {
    funds.map_values(|c: Coin| c@)
}

/// Checks the deposited funds against a stake policy: exactly one coin must be
/// attached, its denomination must equal the policy's, and its amount must be
/// at least the policy's. Returns the accepted stake.
pub fn validate_bet(funds: &Vec<Coin>, min_bet: &Coin) -> (r: Result<Coin, ContractError>)
    ensures
        match bet_error(funds_view(funds@), min_bet@) {
            Some(reason) => r == Err::<Coin, ContractError>(
                ContractError::InvalidBet { reason },
            ),
            None => r matches Ok(bet) && bet@ == funds@[0]@,
        },
{
    if funds.len() == 0 {
        return Err(ContractError::InvalidBet { reason: InvalidBetReason::MissingBet });
    }
    if funds.len() > 1 {
        return Err(ContractError::InvalidBet { reason: InvalidBetReason::TooManyCoins });
    }
    let bet = &funds[0];
    if bet.denom != min_bet.denom {
        return Err(ContractError::InvalidBet { reason: InvalidBetReason::WrongDenom });
    }
    if bet.amount < min_bet.amount {
        return Err(ContractError::InvalidBet { reason: InvalidBetReason::AmountTooLow });
    }
    Ok(bet.clone())
}

/// Why the deposited funds fail the join check against the challenger's
/// stake, or `None` when they pass: exactly one coin, of the stake's
/// denomination, of exactly the stake's amount — neither more nor less.
pub open spec fn join_bet_error(funds: Seq<CoinV>, stake: CoinV) -> Option<InvalidBetReason> {
    if funds.len() == 0 {
        Some(InvalidBetReason::MissingBet)
    } else if funds.len() > 1 {
        Some(InvalidBetReason::TooManyCoins)
    } else if funds[0].denom != stake.denom {
        Some(InvalidBetReason::WrongDenom)
    } else if funds[0].amount != stake.amount {
        Some(InvalidBetReason::InvalidAmount)
    } else {
        None
    }
}

/// Checks the joining side's deposit against the challenger's stake: exactly
/// one coin must be attached, its denomination must equal the stake's, and
/// its amount must equal the stake's exactly. Returns the accepted stake.
pub fn validate_join_bet(funds: &Vec<Coin>, stake: &Coin) -> (r: Result<Coin, ContractError>)
    ensures
        match join_bet_error(funds_view(funds@), stake@) {
            Some(reason) => r == Err::<Coin, ContractError>(
                ContractError::InvalidBet { reason },
            ),
            None => r matches Ok(bet) && bet@ == funds@[0]@,
        },
{
    if funds.len() == 0 {
        return Err(ContractError::InvalidBet { reason: InvalidBetReason::MissingBet });
    }
    if funds.len() > 1 {
        return Err(ContractError::InvalidBet { reason: InvalidBetReason::TooManyCoins });
    }
    let bet = &funds[0];
    if bet.denom != stake.denom {
        return Err(ContractError::InvalidBet { reason: InvalidBetReason::WrongDenom });
    }
    match validate_opponent_bet(stake.amount, bet.amount) {
        Err(e) => {
            return Err(e);
        },
        Ok(_) => {},
    }
    Ok(bet.clone())
}

/// Checks that the joining side's stake equals the challenger's stake exactly
/// in amount; a differing amount is rejected as `InvalidAmount`.
pub fn validate_opponent_bet(initial_bet: u128, opponent_bet: u128) -> (r: Result<
    (),
    ContractError,
>)
    ensures
        r == if opponent_bet != initial_bet {
            Err::<(), ContractError>(
                ContractError::InvalidBet { reason: InvalidBetReason::InvalidAmount },
            )
        } else {
            Ok::<(), ContractError>(())
        },
{
    if opponent_bet != initial_bet {
        return Err(ContractError::InvalidBet { reason: InvalidBetReason::InvalidAmount });
    }
    Ok(())
}

} // verus!
