//! Table betting limits, wager validation, and the action vocabulary.

use vstd::prelude::*;

verus! {

/// The table-wide betting limits, fixed for a session.
#[derive(Debug, Clone, Copy, PartialEq, Eq, Structural)]
pub struct Betting {
    pub min_bet: u32,
    pub max_bet: u32,
}

/// Why a wager was rejected.
#[derive(Debug, Clone, Copy, PartialEq, Eq, Structural)]
pub enum BetError {
    TooSmall,
    TooLarge,
    NotEnoughCash,
}

/// The actions a seat can take during its turn. `Split` is recognized but
/// unsupported: the state machine rejects it with `NotImplemented`.
#[derive(Debug, Clone, Copy, PartialEq, Eq, Structural)]
pub enum Play {
    Hit,
    Stand,
    Double,
    Split,
}

/// Why an action could not be applied to a seat.
#[derive(Debug, Clone, Copy, PartialEq, Eq, Structural)]
pub enum ActionError {
    NotImplemented,
}

/// What `validate` returns: the checks run in a fixed order and the first
/// failing one names the error, so each error pins down exactly which checks
/// had passed before it.
pub open spec fn validate_spec(bet: u32, bankroll: u32, betting: Betting) -> Result<u32, BetError> {
    if bet > bankroll {
        Err(BetError::NotEnoughCash)
    } else if bet < betting.min_bet {
        Err(BetError::TooSmall)
    } else if bet > betting.max_bet {
        Err(BetError::TooLarge)
    } else {
        Ok(bet)
    }
}

/// Validates a wager against a bankroll and the table limits. Pure: the
/// caller debits the bankroll on success; this function mutates nothing.
pub fn validate(bet: u32, bankroll: u32, betting: Betting) -> (r: Result<u32, BetError>)
    ensures
        r == validate_spec(bet, bankroll, betting),
{
    if bet > bankroll {
        Err(BetError::NotEnoughCash)
    } else if bet < betting.min_bet {
        Err(BetError::TooSmall)
    } else if bet > betting.max_bet {
        Err(BetError::TooLarge)
    } else {
        Ok(bet)
    }
}

} // verus!
