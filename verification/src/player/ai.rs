//! The automated decision policy (a simplified basic-strategy table over the
//! hand total and the dealer's visible card) and automated bet sizing.

use crate::betting::{Betting, Play};
use crate::card::Card;
use crate::player::{PlayerData, hand_total, total};
use crate::rng::random_below;
use vstd::prelude::*;

verus! {

/// The strategy table. A dealer ace (value 11) overrides everything: stand
/// from 17 up, otherwise hit. Against any other card the own total decides:
/// 8 or less hits; 9 doubles into a weak dealer 2-6; 10 doubles into 2-9; 11
/// always doubles; 12 stands only against 4-6; 13-16 stand against 2-6;
/// 17-21 stand; anything above 21 falls back to hit.
pub open spec fn decide(total: int, dealer_value: int) -> Play {
    if dealer_value == 11 {
        if total >= 17 {
            Play::Stand
        } else {
            Play::Hit
        }
    } else if total <= 8 {
        Play::Hit
    } else if total == 9 {
        if 2 <= dealer_value <= 6 {
            Play::Double
        } else {
            Play::Hit
        }
    } else if total == 10 {
        if 2 <= dealer_value <= 9 {
            Play::Double
        } else {
            Play::Hit
        }
    } else if total == 11 {
        Play::Double
    } else if total == 12 {
        if 4 <= dealer_value <= 6 {
            Play::Stand
        } else {
            Play::Hit
        }
    } else if 13 <= total <= 16 {
        if 2 <= dealer_value <= 6 {
            Play::Stand
        } else {
            Play::Hit
        }
    } else if 17 <= total <= 21 {
        Play::Stand
    } else {
        Play::Hit
    }
}

/// A hand total of eleven always doubles, whatever the dealer shows short of
/// a face-up ace (the ace override hits below 17 instead).
pub proof fn lemma_eleven_always_doubles(dealer_value: int)
    requires
        2 <= dealer_value <= 10,
    ensures
        decide(11, dealer_value) == Play::Double,
{
}

/// A hand total of seventeen through twenty-one always stands, whatever the
/// dealer shows.
pub proof fn lemma_seventeen_up_always_stands(total: int, dealer_value: int)
    requires
        17 <= total <= 21,
        2 <= dealer_value <= 11,
    ensures
        decide(total, dealer_value) == Play::Stand,
{
}

/// The strategy table as executable code: exactly `decide`.
pub fn decide_play(total: usize, dealer_value: usize) -> (p: Play)
    ensures
        p == decide(total as int, dealer_value as int),
{
    if dealer_value == 11 {
        return if total >= 17 {
            Play::Stand
        } else {
            Play::Hit
        };
    }

    match total {
        0..=8 => Play::Hit,
        9 => match dealer_value {
            2..=6 => Play::Double,
            _ => Play::Hit,
        },
        10 => match dealer_value {
            2..=9 => Play::Double,
            _ => Play::Hit,
        },
        11 => Play::Double,
        12 => match dealer_value {
            4..=6 => Play::Stand,
            _ => Play::Hit,
        },
        13..=16 => match dealer_value {
            2..=6 => Play::Stand,
            _ => Play::Hit,
        },
        17..=21 => Play::Stand,
        _ => Play::Hit,
    }
}

/// The automated turn: look the hand total and the dealer's visible card up
/// in the strategy table.
pub fn turn(player_data: &PlayerData, dealer_visible_card: &Card) -> (p: Play)
    requires
        11 * player_data.cards@.len() <= usize::MAX,
    ensures
        p == decide(hand_total(player_data.cards@), dealer_visible_card.value_spec()),
{
    let own_total = total(player_data.cards.as_slice());
    let dealer_value = dealer_visible_card.value();
    decide_play(own_total, dealer_value)
}

/// The four amounts the risky path can come up with, from a roll of
/// hundredths: everything (capped at the table maximum), or three quarters,
/// half, or a quarter of the bankroll, rounded half up.
pub open spec fn risky_bet_spec(cash: u32, betting: Betting, roll: int) -> int {
    if roll >= 95 {
        if cash > betting.max_bet {
            betting.max_bet as int
        } else {
            cash as int
        }
    } else if roll >= 75 {
        (3 * cash + 2) / 4
    } else if roll >= 50 {
        (cash + 1) / 2
    } else {
        (cash + 2) / 4
    }
}

/// Whether `bet` is one of the amounts the risky path can produce for this
/// bankroll, whatever was rolled.
pub open spec fn is_risky_outcome(bet: int, cash: u32, betting: Betting) -> bool {
    exists|roll: int| 0 <= roll < 100 && bet == risky_bet_spec(cash, betting, roll)
}

/// No risky amount exceeds the bankroll, so debiting it is always safe.
pub proof fn lemma_risky_outcome_le_cash(bet: int, cash: u32, betting: Betting)
    requires
        is_risky_outcome(bet, cash, betting),
    ensures
        0 <= bet <= cash,
{
}

/// The risky amount for a concrete roll of hundredths; deterministic, so the
/// contract pins the exact value.
pub fn risky_bet_amount(cash: u32, betting: &Betting, roll: u32) -> (bet: u32)
    requires
        roll < 100,
    ensures
        bet == risky_bet_spec(cash, *betting, roll as int),
{
    if roll >= 95 {
        if cash > betting.max_bet {
            betting.max_bet
        } else {
            cash
        }
    } else if roll >= 75 {
        ((3 * (cash as u64) + 2) / 4) as u32
    } else if roll >= 50 {
        ((cash as u64 + 1) / 2) as u32
    } else {
        ((cash as u64 + 2) / 4) as u32
    }
}

/// Draws a fresh roll and sizes a risky bet with it. The result is one of
/// the four risky amounts and never exceeds the bankroll.
pub fn risky_bet(player_data: &PlayerData, betting: &Betting) -> (bet: u32)
    ensures
        is_risky_outcome(bet as int, player_data.cash, *betting),
        bet <= player_data.cash,
{
    let roll = random_below(100) as u32;
    let bet = risky_bet_amount(player_data.cash, betting, roll);
    proof {
        assert(is_risky_outcome(bet as int, player_data.cash, *betting));
        lemma_risky_outcome_le_cash(bet as int, player_data.cash, *betting);
    }
    bet
}

/// The automated wager: three times out of four the table minimum, otherwise
/// a risky amount; the bankroll is debited by exactly the wager either way.
pub fn bet(player_data: &mut PlayerData, betting: &Betting) -> (bet: u32)
    requires
        betting.min_bet <= old(player_data).cash,
    ensures
        bet == betting.min_bet || is_risky_outcome(
            bet as int,
            old(player_data).cash,
            *betting,
        ),
        bet <= old(player_data).cash,
        final(player_data).cash == old(player_data).cash - bet,
        final(player_data).name == old(player_data).name,
        final(player_data).current_bet == old(player_data).current_bet,
        final(player_data).cards == old(player_data).cards,
{
    let probability = random_below(100) as u32;

    let bet = if probability >= 75 {
        risky_bet(player_data, betting)
    } else {
        betting.min_bet
    };

    player_data.cash = player_data.cash - bet;

    bet
}

} // verus!
