//! The table: the betting limits, the shoe, and the seats.

pub mod seat;

use crate::betting::Betting;
use crate::deck::Deck;
use crate::player::Player;
use crate::table::seat::{RoundStatus, Seat};
use vstd::prelude::*;

verus! {

#[derive(Debug)]
pub struct Table {
    pub betting: Betting,
    pub deck: Deck,
    pub seats: Vec<Seat>,
}

impl Table {
    /// Seats the given players, in order, each with a cleared hand and no
    /// wager, around the given shoe and limits.
    pub fn create(betting: Betting, deck: Deck, players: Vec<Player>) -> (table: Table)
        ensures
            table.betting == betting,
            table.deck == deck,
            table.seats@.len() == players@.len(),
            forall|i: int|
                0 <= i < players@.len() ==> {
                    &&& (#[trigger] table.seats@[i]).player == Some(players@[i])
                    &&& table.seats@[i].current_bet == 0
                    &&& table.seats@[i].cards@.len() == 0
                    &&& table.seats@[i].round_status == RoundStatus::AwaitingBet
                },
    {
        let ghost orig_players = players@;
        let mut players = players;
        let mut seats: Vec<Seat> = Vec::new();

        while players.len() > 0
            invariant
                players@ == orig_players.skip(seats@.len() as int),
                seats@.len() <= orig_players.len(),
                forall|i: int|
                    0 <= i < seats@.len() ==> {
                        &&& (#[trigger] seats@[i]).player == Some(orig_players[i])
                        &&& seats@[i].current_bet == 0
                        &&& seats@[i].cards@.len() == 0
                        &&& seats@[i].round_status == RoundStatus::AwaitingBet
                    },
            decreases players@.len(),
        {
            let ghost k = seats@.len() as int;
            let player = players.remove(0);
            let mut seat = Seat::new();
            seat.add_player(player);
            seats.push(seat);
            proof {
                assert(players@ =~= orig_players.skip(k + 1));
            }
        }

        Table { betting, deck, seats }
    }

    /// A fresh six-seat table over a newly built six-deck shoe.
    pub fn new(min_bet: u32, max_bet: u32) -> (table: Table)
        ensures
            table.betting == (Betting { min_bet, max_bet }),
            table.seats@.len() == 6,
            forall|i: int|
                0 <= i < 6 ==> {
                    &&& (#[trigger] table.seats@[i]).player is None
                    &&& table.seats@[i].current_bet == 0
                    &&& table.seats@[i].cards@.len() == 0
                    &&& table.seats@[i].round_status == RoundStatus::AwaitingBet
                },
            table.deck.cards@.len() == 312,
            table.deck.discard@.len() == 0,
    {
        let deck = Deck::new(6);
        let mut seats: Vec<Seat> = Vec::new();
        let mut i: usize = 0;
        while i < 6
            invariant
                i <= 6,
                seats@.len() == i,
                forall|j: int|
                    0 <= j < i ==> {
                        &&& (#[trigger] seats@[j]).player is None
                        &&& seats@[j].current_bet == 0
                        &&& seats@[j].cards@.len() == 0
                        &&& seats@[j].round_status == RoundStatus::AwaitingBet
                    },
            decreases 6 - i,
        {
            seats.push(Seat::new());
            i = i + 1;
        }

        Table { betting: Betting { min_bet, max_bet }, deck, seats }
    }
}

} // verus!
