//! One seat at the table: its occupant, wager, hand, and the round state
//! machine. A seat goes AwaitingBet -> Dealt -> Playing -> one of the
//! terminal states (Stood, Busted, DoubledStand), is then resolved against
//! the dealer to Win, Lose or Push, and is settled back to AwaitingBet.

use crate::betting::{ActionError, BetError, Betting, Play, validate_spec};
use crate::card::Card;
use crate::deck::Deck;
use crate::player::{Player, hand_total, total};
use vstd::pervasive::unreached;
use vstd::multiset::Multiset;
use vstd::prelude::*;

verus! {

broadcast use vstd::seq_lib::group_to_multiset_ensures;

/// Where a seat stands in the round.
#[derive(Debug, Clone, Copy, PartialEq, Eq, Structural)]
pub enum RoundStatus {
    AwaitingBet,
    Dealt,
    Playing,
    Stood,
    Busted,
    DoubledStand,
    Win,
    Lose,
    Push,
}

impl RoundStatus {
    /// The states a turn can end in, before resolution against the dealer.
    pub open spec fn is_terminal(self) -> bool {
        self == RoundStatus::Stood || self == RoundStatus::Busted || self
            == RoundStatus::DoubledStand
    }

    /// The states in which a seat may take an action.
    pub open spec fn is_actionable(self) -> bool {
        self == RoundStatus::Dealt || self == RoundStatus::Playing
    }
}

/// How a terminal seat fares against the dealer's total: a busted seat loses
/// outright; otherwise a busted dealer loses to it, a higher total wins,
/// equal totals push.
pub open spec fn outcome_of(status: RoundStatus, total: int, dealer_total: int) -> RoundStatus {
    if status == RoundStatus::Busted {
        RoundStatus::Lose
    } else if dealer_total > 21 {
        RoundStatus::Win
    } else if total > dealer_total {
        RoundStatus::Win
    } else if total == dealer_total {
        RoundStatus::Push
    } else {
        RoundStatus::Lose
    }
}

/// What a resolved seat is owed: a win pays the wager back doubled, a push
/// returns it, a loss pays nothing.
pub open spec fn payout_of(status: RoundStatus, bet: u32) -> int {
    if status == RoundStatus::Win {
        2 * bet
    } else if status == RoundStatus::Push {
        bet as int
    } else {
        0
    }
}

#[derive(Debug)]
pub struct Seat {
    pub player: Option<Player>,
    pub round_status: RoundStatus,
    pub current_bet: u32,
    pub cards: Vec<Card>,
}

impl Seat {
    /// An unoccupied seat carries no cards and no wager.
    pub open spec fn bare_when_empty(self) -> bool {
        self.player is None ==> self.cards@.len() == 0 && self.current_bet == 0
    }

    pub fn new() -> (seat: Seat)
        ensures
            seat.player is None,
            seat.round_status == RoundStatus::AwaitingBet,
            seat.current_bet == 0,
            seat.cards@ == Seq::<Card>::empty(),
    {
        Seat {
            player: None,
            round_status: RoundStatus::AwaitingBet,
            current_bet: 0,
            cards: Vec::new(),
        }
    }

    /// Seats a player. Assigning an occupant starts the seat over: any
    /// previous hand and wager are cleared.
    pub fn add_player(&mut self, player: Player)
        ensures
            final(self).player == Some(player),
            final(self).round_status == RoundStatus::AwaitingBet,
            final(self).current_bet == 0,
            final(self).cards@ == Seq::<Card>::empty(),
    {
        self.player = Some(player);
        self.round_status = RoundStatus::AwaitingBet;
        self.current_bet = 0;
        self.cards = Vec::new();
    }

    /// Removes the occupant; hand and wager are cleared with the player.
    pub fn remove_player(&mut self)
        ensures
            final(self).player is None,
            final(self).round_status == RoundStatus::AwaitingBet,
            final(self).current_bet == 0,
            final(self).cards@ == Seq::<Card>::empty(),
    {
        self.player = None;
        self.round_status = RoundStatus::AwaitingBet;
        self.current_bet = 0;
        self.cards = Vec::new();
    }

    pub fn has_player(&self) -> (r: bool)
        ensures
            r == (self.player is Some),
    {
        self.player.is_some()
    }

    /// Raises the seat's wager by `bet`.
    pub fn add_bet(&mut self, bet: u32)
        requires
            old(self).current_bet + bet <= u32::MAX,
        ensures
            final(self).current_bet == old(self).current_bet + bet,
            final(self).player == old(self).player,
            final(self).round_status == old(self).round_status,
            final(self).cards == old(self).cards,
    {
        self.current_bet = self.current_bet + bet;
    }

    pub fn reset_bet(&mut self)
        ensures
            final(self).current_bet == 0,
            final(self).player == old(self).player,
            final(self).round_status == old(self).round_status,
            final(self).cards == old(self).cards,
    {
        self.current_bet = 0;
    }

    /// The seat's hand total under the ace rule.
    pub fn total(&self) -> (r: usize)
        requires
            11 * self.cards@.len() <= usize::MAX,
        ensures
            r == hand_total(self.cards@),
    {
        total(self.cards.as_slice())
    }

    pub fn deal_card(&mut self, card: Card)
        ensures
            final(self).cards@ == old(self).cards@.push(card),
            final(self).player == old(self).player,
            final(self).round_status == old(self).round_status,
            final(self).current_bet == old(self).current_bet,
    {
        self.cards.push(card);
    }

    /// Empties the hand and hands the cards back, newest first, so the
    /// caller can return every one of them to the shoe's discard pile.
    pub fn remove_cards(&mut self) -> (removed: Vec<Card>)
        ensures
            removed@ == old(self).cards@.reverse(),
            removed@.to_multiset() == old(self).cards@.to_multiset(),
            final(self).cards@ == Seq::<Card>::empty(),
            final(self).player == old(self).player,
            final(self).round_status == old(self).round_status,
            final(self).current_bet == old(self).current_bet,
    {
        let ghost orig = *self;
        let mut removed = Vec::new();
        proof {
            assert(orig.cards@.take(orig.cards@.len() as int) =~= orig.cards@);
            assert(orig.cards@.skip(orig.cards@.len() as int).reverse() =~= Seq::<Card>::empty());
        }

        while self.cards.len() > 0
            invariant
                self.cards@.len() <= orig.cards@.len(),
                self.cards@ == orig.cards@.take(self.cards@.len() as int),
                removed@ == orig.cards@.skip(self.cards@.len() as int).reverse(),
                self.player == orig.player,
                self.round_status == orig.round_status,
                self.current_bet == orig.current_bet,
            decreases self.cards@.len(),
        {
            let ghost k = self.cards@.len() as int;
            let removed_card = self.cards.pop();

            match removed_card {
                Some(card) => {
                    removed.push(card);
                    proof {
                        assert(self.cards@ =~= orig.cards@.take(k - 1));
                        assert(removed@ =~= orig.cards@.skip(k - 1).reverse());
                    }
                },
                None => (),
            }
        }

        proof {
            assert(removed@ =~= orig.cards@.reverse());
            orig.cards@.lemma_reverse_to_multiset();
        }

        removed
    }

    /// Marks the seat as having received its initial two-card deal.
    pub fn mark_dealt(&mut self)
        ensures
            final(self).round_status == RoundStatus::Dealt,
            final(self).player == old(self).player,
            final(self).current_bet == old(self).current_bet,
            final(self).cards == old(self).cards,
    {
        self.round_status = RoundStatus::Dealt;
    }

    /// Places the occupant's wager: validated against the bankroll and the
    /// table limits, debited from the bankroll, and added to the seat's
    /// wager. A rejected wager changes nothing.
    pub fn place_bet(&mut self, bet: u32, betting: Betting) -> (r: Result<u32, BetError>)
        requires
            old(self).player is Some,
            old(self).current_bet + bet <= u32::MAX,
        ensures
            r == validate_spec(bet, old(self).player->Some_0.cash, betting),
            r is Err ==> *final(self) == *old(self),
            r is Ok ==> {
                &&& final(self).player is Some
                &&& final(self).player->Some_0.cash == old(self).player->Some_0.cash - bet
                &&& final(self).player->Some_0.name == old(self).player->Some_0.name
                &&& final(self).current_bet == old(self).current_bet + bet
                &&& final(self).round_status == old(self).round_status
                &&& final(self).cards == old(self).cards
            },
    {
        let result = match &mut self.player {
            Some(occupant) => occupant.bet(betting, bet),
            None => unreached(),
        };
        match result {
            Ok(amount) => {
                self.current_bet = self.current_bet + amount;
                Ok(amount)
            },
            Err(e) => Err(e),
        }
    }

    /// Debits a wager the automated sizing already computed, without
    /// re-checking it against the table limits. The risky sizing path keeps
    /// that behaviour deliberately; only the bankroll bound is required.
    pub fn debit_wager(&mut self, bet: u32)
        requires
            old(self).player is Some,
            old(self).player->Some_0.cash >= bet,
            old(self).current_bet + bet <= u32::MAX,
        ensures
            final(self).player is Some,
            final(self).player->Some_0.cash == old(self).player->Some_0.cash - bet,
            final(self).player->Some_0.name == old(self).player->Some_0.name,
            final(self).current_bet == old(self).current_bet + bet,
            final(self).round_status == old(self).round_status,
            final(self).cards == old(self).cards,
    {
        match &mut self.player {
            Some(occupant) => {
                occupant.cash = occupant.cash - bet;
            },
            None => (),
        }
        self.current_bet = self.current_bet + bet;
    }

    /// Applies one action to a seat whose turn is under way, drawing from the
    /// shoe as needed. Hit draws one card and busts the seat or leaves it
    /// playing; Stand ends the turn standing; Double — only on the initial
    /// two cards, with the bankroll covering the wager — debits and doubles
    /// the wager, draws exactly one card, and ends the turn terminally
    /// whatever that card was. Split is recognized but unsupported, and is
    /// the only action that fails; it changes nothing. No card is created or
    /// lost: whatever leaves the shoe enters this hand.
    pub fn apply_action(&mut self, action: Play, deck: &mut Deck) -> (r: Result<(), ActionError>)
        requires
            old(self).player is Some,
            old(self).round_status.is_actionable(),
            old(deck).total_len() >= 1,
            11 * (old(self).cards@.len() + 1) <= usize::MAX,
            action == Play::Double ==> {
                &&& old(self).cards@.len() == 2
                &&& old(self).player->Some_0.cash >= old(self).current_bet
                &&& 2 * old(self).current_bet <= u32::MAX
            },
        ensures
            final(deck).held_cards().add(final(self).cards@.to_multiset()) == old(
                deck,
            ).held_cards().add(old(self).cards@.to_multiset()),
            final(self).player is Some,
            r is Err <==> action == Play::Split,
            r is Err ==> *final(self) == *old(self) && *final(deck) == *old(deck),
            action == Play::Stand ==> {
                &&& final(self).round_status == RoundStatus::Stood
                &&& final(self).cards == old(self).cards
                &&& final(self).current_bet == old(self).current_bet
                &&& final(self).player == old(self).player
                &&& *final(deck) == *old(deck)
            },
            action == Play::Hit ==> {
                &&& final(self).cards@.len() == old(self).cards@.len() + 1
                &&& final(self).cards@.take(old(self).cards@.len() as int) == old(self).cards@
                &&& final(self).round_status == (if hand_total(final(self).cards@) > 21 {
                    RoundStatus::Busted
                } else {
                    RoundStatus::Playing
                })
                &&& final(self).current_bet == old(self).current_bet
                &&& final(self).player == old(self).player
            },
            action == Play::Double ==> {
                &&& final(self).cards@.len() == old(self).cards@.len() + 1
                &&& final(self).cards@.take(old(self).cards@.len() as int) == old(self).cards@
                &&& final(self).round_status == (if hand_total(final(self).cards@) > 21 {
                    RoundStatus::Busted
                } else {
                    RoundStatus::DoubledStand
                })
                &&& final(self).round_status.is_terminal()
                &&& final(self).current_bet == 2 * old(self).current_bet
                &&& final(self).player->Some_0.cash == old(self).player->Some_0.cash - old(
                    self,
                ).current_bet
                &&& final(self).player->Some_0.name == old(self).player->Some_0.name
            },
    {
        match action {
            Play::Stand => {
                self.round_status = RoundStatus::Stood;
                Ok(())
            },
            Play::Hit => {
                let card = deck.deal_card();
                self.cards.push(card);
                let new_total = total(self.cards.as_slice());
                if new_total > 21 {
                    self.round_status = RoundStatus::Busted;
                } else {
                    self.round_status = RoundStatus::Playing;
                }
                proof {
                    assert(deck.held_cards().add(self.cards@.to_multiset()) =~= old(
                        deck,
                    ).held_cards().add(old(self).cards@.to_multiset()));
                    assert(self.cards@.take(old(self).cards@.len() as int) =~= old(self).cards@);
                }
                Ok(())
            },
            Play::Double => {
                let wager = self.current_bet;
                match &mut self.player {
                    Some(occupant) => {
                        occupant.cash = occupant.cash - wager;
                    },
                    None => (),
                }
                self.current_bet = 2 * self.current_bet;
                let card = deck.deal_card();
                self.cards.push(card);
                let new_total = total(self.cards.as_slice());
                if new_total > 21 {
                    self.round_status = RoundStatus::Busted;
                } else {
                    self.round_status = RoundStatus::DoubledStand;
                }
                proof {
                    assert(deck.held_cards().add(self.cards@.to_multiset()) =~= old(
                        deck,
                    ).held_cards().add(old(self).cards@.to_multiset()));
                    assert(self.cards@.take(old(self).cards@.len() as int) =~= old(self).cards@);
                }
                Ok(())
            },
            Play::Split => Err(ActionError::NotImplemented),
        }
    }

    /// Resolves a terminal seat against the dealer's total, per `outcome_of`.
    pub fn resolve(&mut self, dealer_total: usize)
        requires
            old(self).round_status.is_terminal(),
            11 * old(self).cards@.len() <= usize::MAX,
        ensures
            final(self).round_status == outcome_of(
                old(self).round_status,
                hand_total(old(self).cards@),
                dealer_total as int,
            ),
            final(self).player == old(self).player,
            final(self).current_bet == old(self).current_bet,
            final(self).cards == old(self).cards,
    {
        if matches!(self.round_status, RoundStatus::Busted) {
            self.round_status = RoundStatus::Lose;
            return ;
        }
        let own_total = total(self.cards.as_slice());
        if dealer_total > 21 {
            self.round_status = RoundStatus::Win;
        } else if own_total > dealer_total {
            self.round_status = RoundStatus::Win;
        } else if own_total == dealer_total {
            self.round_status = RoundStatus::Push;
        } else {
            self.round_status = RoundStatus::Lose;
        }
    }

    /// Pays a resolved seat out — a win returns the wager doubled, a push
    /// returns it plain — and readies the seat for the next round's bet.
    pub fn settle(&mut self)
        requires
            old(self).player is Some,
            old(self).round_status == RoundStatus::Win || old(self).round_status
                == RoundStatus::Lose || old(self).round_status == RoundStatus::Push,
            old(self).player->Some_0.cash + 2 * old(self).current_bet <= u32::MAX,
        ensures
            final(self).player is Some,
            final(self).player->Some_0.cash == old(self).player->Some_0.cash + payout_of(
                old(self).round_status,
                old(self).current_bet,
            ),
            final(self).player->Some_0.name == old(self).player->Some_0.name,
            final(self).current_bet == 0,
            final(self).round_status == RoundStatus::AwaitingBet,
            final(self).cards == old(self).cards,
    {
        let bet = self.current_bet;
        let won = matches!(self.round_status, RoundStatus::Win);
        let pushed = matches!(self.round_status, RoundStatus::Push);
        match &mut self.player {
            Some(occupant) => {
                if won {
                    occupant.cash = occupant.cash + 2 * bet;
                } else if pushed {
                    occupant.cash = occupant.cash + bet;
                }
            },
            None => (),
        }
        self.current_bet = 0;
        self.round_status = RoundStatus::AwaitingBet;
    }
}

} // verus!
