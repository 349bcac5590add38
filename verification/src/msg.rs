use vstd::prelude::*;

use crate::coin::Coin;

verus! {

/// What the host hands each operation about its caller: the sender and the
/// funds deposited with the call.
#[derive(Debug, PartialEq)]
pub struct MessageInfo {
    pub sender: String,
    pub funds: Vec<Coin>,
}

/// The initialization request: the minimum-bet policy.
#[derive(Debug, PartialEq)]
pub struct InstantiateMsg {
    pub min_bet: Coin,
}

/// The four state-changing operations. Identifiers travel as 64-character
/// lowercase hexadecimal text; moves as 4-character coordinate pairs.
#[derive(Debug, PartialEq)]
pub enum ExecuteMsg {
    CreateMatch { opponent: String },
    AbortMatch { match_id: String },
    JoinMatch { match_id: String },
    MakeMove { match_id: String, move_fen: String },
}

/// The migration request; it carries nothing.
#[derive(Debug, PartialEq)]
pub struct MigrateMsg {}

} // verus!
