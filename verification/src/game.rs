//! The round orchestrator: bets, the deal, the seats' turns, the dealer's
//! fixed policy, resolution, and settlement, all over one shared shoe. Every
//! mutating operation's contract accounts for the whole multiset of cards in
//! play — the shoe's two piles, every seat's hand, and the dealer's hand —
//! so no card is ever created, lost, or dealt twice while another hand still
//! holds it.

pub mod dealer;

use crate::betting::{BetError, Betting, Play, validate_spec};
use crate::card::Card;
use crate::deck::{Deck, fresh_shoe};
use crate::game::dealer::Dealer;
use crate::player::{Player, ai, hand_total};
use crate::table::seat::{RoundStatus, Seat, outcome_of, payout_of};
use vstd::multiset::Multiset;
use vstd::prelude::*;

verus! {

broadcast use vstd::seq_lib::group_to_multiset_ensures, vstd::multiset::group_multiset_axioms;

/// Every card held by the given seats' hands.
pub open spec fn seats_cards(seats: Seq<Seat>) -> Multiset<Card>
    decreases seats.len(),
{
    if seats.len() == 0 {
        Multiset::empty()
    } else {
        seats_cards(seats.drop_last()).add(seats.last().cards@.to_multiset())
    }
}

/// Replacing one seat changes the seats' cards by exactly the difference
/// between the two hands.
pub proof fn lemma_seats_cards_update(seats: Seq<Seat>, i: int, seat: Seat)
    requires
        0 <= i < seats.len(),
    ensures
        seats_cards(seats.update(i, seat)).add(seats[i].cards@.to_multiset()) == seats_cards(
            seats,
        ).add(seat.cards@.to_multiset()),
    decreases seats.len(),
{
    let upd = seats.update(i, seat);
    if i == seats.len() - 1 {
        assert(upd.drop_last() =~= seats.drop_last());
        assert(upd.last() == seat);
        assert(seats_cards(upd).add(seats[i].cards@.to_multiset()) =~= seats_cards(seats).add(
            seat.cards@.to_multiset(),
        ));
    } else {
        lemma_seats_cards_update(seats.drop_last(), i, seat);
        assert(upd.drop_last() =~= seats.drop_last().update(i, seat));
        assert(upd.last() == seats.last());
        assert(seats.drop_last()[i] == seats[i]);
        let sub_upd = seats.drop_last().update(i, seat);
        let sub = seats.drop_last();
        assert forall|c: Card|
            seats_cards(upd).add(seats[i].cards@.to_multiset()).count(c) == seats_cards(
                seats,
            ).add(seat.cards@.to_multiset()).count(c) by {
            assert(seats_cards(sub_upd).add(sub[i].cards@.to_multiset()).count(c) == seats_cards(
                sub,
            ).add(seat.cards@.to_multiset()).count(c));
            assert(seats_cards(upd) == seats_cards(sub_upd).add(
                upd.last().cards@.to_multiset(),
            ));
            assert(seats_cards(seats) == seats_cards(sub).add(seats.last().cards@.to_multiset()));
        }
        assert(seats_cards(upd).add(seats[i].cards@.to_multiset()) =~= seats_cards(seats).add(
            seat.cards@.to_multiset(),
        ));
    }
}

/// Replacing a seat without touching its hand leaves the seats' cards alone.
pub proof fn lemma_seats_cards_update_same_cards(seats: Seq<Seat>, i: int, seat: Seat)
    requires
        0 <= i < seats.len(),
        seat.cards@ == seats[i].cards@,
    ensures
        seats_cards(seats.update(i, seat)) == seats_cards(seats),
{
    lemma_seats_cards_update(seats, i, seat);
    let upd = seats.update(i, seat);
    let hand = seats[i].cards@.to_multiset();
    assert forall|c: Card| seats_cards(upd).count(c) == seats_cards(seats).count(c) by {
        assert(seats_cards(upd).add(hand).count(c) == seats_cards(seats).add(hand).count(c));
    }
    assert(seats_cards(upd) =~= seats_cards(seats));
}

/// Seats whose hands are all empty hold no cards at all.
pub proof fn lemma_seats_cards_all_empty(seats: Seq<Seat>)
    requires
        forall|i: int| 0 <= i < seats.len() ==> (#[trigger] seats[i]).cards@.len() == 0,
    ensures
        seats_cards(seats) == Multiset::<Card>::empty(),
    decreases seats.len(),
{
    if seats.len() > 0 {
        lemma_seats_cards_all_empty(seats.drop_last());
        assert(seats.last() == seats[seats.len() - 1]);
        assert(seats_cards(seats) =~= Multiset::<Card>::empty());
    }
}

/// A table round in progress: the limits, the shoe, six seats, and the
/// dealer.
#[derive(Debug)]
pub struct Game {
    pub betting: Betting,
    pub deck: Deck,
    pub seats: Vec<Seat>,
    pub dealer: Dealer,
}

impl Game {
    /// Every card in play: the shoe's two piles, the seats' hands, and the
    /// dealer's hand. The orchestrator's contracts keep this multiset
    /// constant from the moment the shoe is built.
    pub open spec fn cards_in_play(self) -> Multiset<Card> {
        self.deck.held_cards().add(seats_cards(self.seats@)).add(self.dealer.cards@.to_multiset())
    }

    /// Unoccupied seats carry no cards and no wager.
    pub open spec fn empty_seats_bare(self) -> bool {
        forall|i: int|
            0 <= i < self.seats@.len() ==> (#[trigger] self.seats@[i]).bare_when_empty()
    }

    /// A seat is in the round once it is occupied and a wager stands on it.
    pub open spec fn seat_is_dealt_in(seat: Seat) -> bool {
        seat.player is Some && seat.current_bet > 0
    }

    /// A fresh table: limits 10 to 100, a six-deck shoe, six empty seats,
    /// and a dealer with no cards. Everything in play is exactly the six
    /// fresh decks.
    pub fn new() -> (game: Game)
        ensures
            game.betting == (Betting { min_bet: 10, max_bet: 100 }),
            game.seats@.len() == 6,
            forall|i: int|
                0 <= i < 6 ==> {
                    &&& (#[trigger] game.seats@[i]).player is None
                    &&& game.seats@[i].current_bet == 0
                    &&& game.seats@[i].cards@.len() == 0
                    &&& game.seats@[i].round_status == RoundStatus::AwaitingBet
                },
            game.dealer.cards@.len() == 0,
            game.deck.cards@.len() == 312,
            game.deck.discard@.len() == 0,
            game.cards_in_play() == fresh_shoe(6).to_multiset(),
            game.empty_seats_bare(),
    {
        let deck = Deck::new(6);
        let mut seats: Vec<Seat> = Vec::new();
        let mut i: usize = 0;
        while i < 6
            invariant
                i <= 6,
                seats@.len() == i,
                forall|j: int|
                    0 <= j < i ==> {
                        &&& (#[trigger] seats@[j]).player is None
                        &&& seats@[j].current_bet == 0
                        &&& seats@[j].cards@.len() == 0
                        &&& seats@[j].round_status == RoundStatus::AwaitingBet
                    },
            decreases 6 - i,
        {
            seats.push(Seat::new());
            i = i + 1;
        }

        let game = Game {
            betting: Betting { min_bet: 10, max_bet: 100 },
            deck,
            seats,
            dealer: Dealer::new(),
        };
        proof {
            lemma_seats_cards_all_empty(game.seats@);
            assert(game.cards_in_play() =~= fresh_shoe(6).to_multiset());
        }
        game
    }

    /// Seats the player at the first free seat, if one is free; a full table
    /// turns the player away unchanged.
    pub fn add_player(&mut self, player: Player) -> (added: bool)
        requires
            old(self).empty_seats_bare(),
        ensures
            added <==> exists|i: int|
                0 <= i < old(self).seats@.len() && (#[trigger] old(self).seats@[i]).player is None,
            !added ==> *final(self) == *old(self),
            final(self).cards_in_play() == old(self).cards_in_play(),
            final(self).empty_seats_bare(),
            final(self).betting == old(self).betting,
            final(self).deck == old(self).deck,
            final(self).dealer == old(self).dealer,
            final(self).seats@.len() == old(self).seats@.len(),
            added ==> exists|i: int|
                {
                    &&& 0 <= i < old(self).seats@.len()
                    &&& (#[trigger] old(self).seats@[i]).player is None
                    &&& final(self).seats@ == old(self).seats@.update(
                        i,
                        final(self).seats@[i],
                    )
                    &&& final(self).seats@[i].player == Some(player)
                    &&& final(self).seats@[i].current_bet == 0
                    &&& final(self).seats@[i].cards@.len() == 0
                    &&& final(self).seats@[i].round_status == RoundStatus::AwaitingBet
                },
    {
        let mut i: usize = 0;
        let mut found = false;
        while i < self.seats.len() && !found
            invariant
                i <= self.seats@.len(),
                forall|j: int| 0 <= j < i ==> (#[trigger] self.seats@[j]).player is Some,
                found ==> i < self.seats@.len() && self.seats@[i as int].player is None,
            decreases self.seats@.len() - i + (if found { 0int } else { 1int }),
        {
            if !self.seats[i].has_player() {
                found = true;
            } else {
                i = i + 1;
            }
        }

        if found {
            self.seats[i].add_player(player);
            proof {
                assert(old(self).seats@[i as int].bare_when_empty());
                assert(self.seats@[i as int].cards@ =~= old(self).seats@[i as int].cards@);
                lemma_seats_cards_update_same_cards(
                    old(self).seats@,
                    i as int,
                    self.seats@[i as int],
                );
                assert(self.cards_in_play() =~= old(self).cards_in_play());
                assert(self.seats@ == old(self).seats@.update(i as int, self.seats@[i as int]));
            }
            true
        } else {
            false
        }
    }

    /// Clears a seat: its cards go back to the shoe's discard pile, then the
    /// occupant, wager and hand are removed together.
    pub fn remove_player(&mut self, index: usize)
        requires
            index < old(self).seats@.len(),
        ensures
            final(self).cards_in_play() == old(self).cards_in_play(),
            final(self).seats@.len() == old(self).seats@.len(),
            final(self).seats@[index as int].player is None,
            final(self).seats@[index as int].current_bet == 0,
            final(self).seats@[index as int].cards@.len() == 0,
            forall|j: int|
                0 <= j < old(self).seats@.len() && j != index ==> final(self).seats@[j] == old(
                    self,
                ).seats@[j],
            final(self).betting == old(self).betting,
            final(self).dealer == old(self).dealer,
            final(self).deck.held_cards() == old(self).deck.held_cards().add(
                old(self).seats@[index as int].cards@.to_multiset(),
            ),
    {
        let ghost orig = *self;
        let removed = self.seats[index].remove_cards();
        proof {
            lemma_seats_cards_update(orig.seats@, index as int, self.seats@[index as int]);
        }
        let ghost mid = *self;
        self.deck.add_all_to_discard_pile(removed);
        self.seats[index].remove_player();
        proof {
            lemma_seats_cards_update_same_cards(
                mid.seats@,
                index as int,
                self.seats@[index as int],
            );
            let hand = orig.seats@[index as int].cards@.to_multiset();
            assert forall|c: Card|
                final(self).cards_in_play().count(c) == orig.cards_in_play().count(c) by {
                assert(seats_cards(mid.seats@).add(hand).count(c) == seats_cards(
                    orig.seats@,
                ).add(Multiset::<Card>::empty()).count(c));
            }
            assert(final(self).cards_in_play() =~= orig.cards_in_play());
        }
    }

    /// Draws the top card of the shoe for the orchestrator; the card leaves
    /// play until it is dealt to a hand or discarded.
    pub fn deal_card(&mut self) -> (card: Card)
        requires
            old(self).deck.total_len() >= 1,
        ensures
            old(self).cards_in_play() == final(self).cards_in_play().insert(card),
            final(self).deck.total_len() == old(self).deck.total_len() - 1,
            final(self).seats == old(self).seats,
            final(self).dealer == old(self).dealer,
            final(self).betting == old(self).betting,
    {
        let card = self.deck.deal_card();
        proof {
            assert(old(self).cards_in_play() =~= final(self).cards_in_play().insert(card));
        }
        card
    }

    /// Places a wager for the seat at `index`: validated against the
    /// occupant's bankroll and the table limits, debited on success, and
    /// added to the seat's standing wager. A rejected wager changes nothing.
    pub fn place_bet(&mut self, index: usize, bet: u32) -> (r: Result<u32, BetError>)
        requires
            index < old(self).seats@.len(),
            old(self).seats@[index as int].player is Some,
            old(self).seats@[index as int].current_bet + bet <= u32::MAX,
        ensures
            r == validate_spec(
                bet,
                old(self).seats@[index as int].player->Some_0.cash,
                old(self).betting,
            ),
            r is Err ==> final(self).seats@ == old(self).seats@,
            final(self).cards_in_play() == old(self).cards_in_play(),
            final(self).seats@.len() == old(self).seats@.len(),
            forall|j: int|
                0 <= j < old(self).seats@.len() && j != index ==> final(self).seats@[j] == old(
                    self,
                ).seats@[j],
            r is Ok ==> {
                &&& final(self).seats@[index as int].player is Some
                &&& final(self).seats@[index as int].player->Some_0.cash == old(
                    self,
                ).seats@[index as int].player->Some_0.cash - bet
                &&& final(self).seats@[index as int].current_bet == old(
                    self,
                ).seats@[index as int].current_bet + bet
                &&& final(self).seats@[index as int].cards == old(self).seats@[index as int].cards
                &&& final(self).seats@[index as int].round_status == old(
                    self,
                ).seats@[index as int].round_status
            },
            final(self).betting == old(self).betting,
            final(self).deck == old(self).deck,
            final(self).dealer == old(self).dealer,
    {
        let ghost orig = *self;
        let betting = self.betting;
        let r = self.seats[index].place_bet(bet, betting);
        proof {
            lemma_seats_cards_update_same_cards(orig.seats@, index as int, self.seats@[index as int]);
            assert(self.cards_in_play() =~= orig.cards_in_play());
            if r is Err {
                assert(self.seats@ =~= orig.seats@);
            }
        }
        r
    }

    /// Deals the shoe's top card into the hand of the seat at `index`;
    /// nothing else moves, and no card is gained or lost.
    pub fn deal_card_to_seat(&mut self, index: usize)
        requires
            index < old(self).seats@.len(),
            old(self).deck.total_len() >= 1,
        ensures
            final(self).cards_in_play() == old(self).cards_in_play(),
            final(self).seats@.len() == old(self).seats@.len(),
            forall|j: int|
                0 <= j < old(self).seats@.len() && j != index ==> final(self).seats@[j] == old(
                    self,
                ).seats@[j],
            final(self).seats@[index as int].cards@.len() == old(
                self,
            ).seats@[index as int].cards@.len() + 1,
            final(self).seats@[index as int].cards@.take(
                old(self).seats@[index as int].cards@.len() as int,
            ) == old(self).seats@[index as int].cards@,
            final(self).seats@[index as int].player == old(self).seats@[index as int].player,
            final(self).seats@[index as int].current_bet == old(
                self,
            ).seats@[index as int].current_bet,
            final(self).seats@[index as int].round_status == old(
                self,
            ).seats@[index as int].round_status,
            old(self).deck.cards@.len() >= 1 ==> final(self).seats@[index as int].cards@.last()
                == old(self).deck.cards@.last(),
            final(self).deck.total_len() == old(self).deck.total_len() - 1,
            final(self).dealer == old(self).dealer,
            final(self).betting == old(self).betting,
    {
        let ghost orig = *self;
        let card = self.deck.deal_card();
        let ghost mid = *self;
        self.seats[index].deal_card(card);
        proof {
            lemma_seats_cards_update(mid.seats@, index as int, self.seats@[index as int]);
            assert(self.seats@[index as int].cards@.to_multiset() == orig.seats@[
                index as int
            ].cards@.to_multiset().insert(card));
            assert forall|c: Card|
                self.cards_in_play().count(c) == orig.cards_in_play().count(c) by {
                assert(seats_cards(self.seats@).add(orig.seats@[
                    index as int
                ].cards@.to_multiset()).count(c) == seats_cards(mid.seats@).add(self.seats@[
                    index as int
                ].cards@.to_multiset()).count(c));
                assert(orig.deck.held_cards().count(c) == mid.deck.held_cards().insert(
                    card,
                ).count(c));
            }
            assert(self.cards_in_play() =~= orig.cards_in_play());
            assert(self.seats@[index as int].cards@.take(orig.seats@[
                index as int
            ].cards@.len() as int) =~= orig.seats@[index as int].cards@);
        }
    }

    /// Deals the shoe's top card into the dealer's hand.
    pub fn deal_card_to_dealer(&mut self)
        requires
            old(self).deck.total_len() >= 1,
        ensures
            final(self).cards_in_play() == old(self).cards_in_play(),
            final(self).seats == old(self).seats,
            final(self).dealer.cards@.len() == old(self).dealer.cards@.len() + 1,
            final(self).dealer.cards@.take(old(self).dealer.cards@.len() as int) == old(
                self,
            ).dealer.cards@,
            old(self).deck.cards@.len() >= 1 ==> final(self).dealer.cards@.last() == old(
                self,
            ).deck.cards@.last(),
            final(self).deck.total_len() == old(self).deck.total_len() - 1,
            final(self).betting == old(self).betting,
    {
        let ghost orig = *self;
        let card = self.deck.deal_card();
        let ghost mid = *self;
        self.dealer.deal_card(card);
        proof {
            assert(self.dealer.cards@.to_multiset() == orig.dealer.cards@.to_multiset().insert(
                card,
            ));
            assert forall|c: Card|
                self.cards_in_play().count(c) == orig.cards_in_play().count(c) by {
                assert(orig.deck.held_cards().count(c) == mid.deck.held_cards().insert(
                    card,
                ).count(c));
            }
            assert(self.cards_in_play() =~= orig.cards_in_play());
            assert(self.dealer.cards@.take(orig.dealer.cards@.len() as int) =~= orig.dealer.cards@);
        }
    }

    /// The initial deal: two cards to every seat that is dealt in (occupied,
    /// with a wager standing), round-robin — one card per seat per pass —
    /// then two cards to the dealer. Dealt-in seats come out holding exactly
    /// two cards and marked Dealt; every other seat is untouched.
    pub fn initialize_round(&mut self)
        requires
            old(self).deck.total_len() >= 2 * old(self).seats@.len() + 2,
            forall|i: int|
                0 <= i < old(self).seats@.len() ==> (#[trigger] old(
                    self,
                ).seats@[i]).cards@.len() == 0,
            old(self).dealer.cards@.len() == 0,
        ensures
            final(self).cards_in_play() == old(self).cards_in_play(),
            final(self).betting == old(self).betting,
            final(self).seats@.len() == old(self).seats@.len(),
            forall|i: int|
                0 <= i < old(self).seats@.len() && Game::seat_is_dealt_in(
                    #[trigger] old(self).seats@[i],
                ) ==> {
                    &&& final(self).seats@[i].cards@.len() == 2
                    &&& final(self).seats@[i].round_status == RoundStatus::Dealt
                    &&& final(self).seats@[i].player == old(self).seats@[i].player
                    &&& final(self).seats@[i].current_bet == old(self).seats@[i].current_bet
                },
            forall|i: int|
                0 <= i < old(self).seats@.len() && !Game::seat_is_dealt_in(
                    #[trigger] old(self).seats@[i],
                ) ==> final(self).seats@[i] == old(self).seats@[i],
            final(self).dealer.cards@.len() == 2,
    {
        let ghost orig = *self;
        let seat_count = self.seats.len();

        let mut i: usize = 0;
        while i < seat_count
            invariant
                i <= seat_count,
                seat_count == orig.seats@.len(),
                self.seats@.len() == orig.seats@.len(),
                self.cards_in_play() == orig.cards_in_play(),
                self.betting == orig.betting,
                self.dealer == orig.dealer,
                self.deck.total_len() >= orig.deck.total_len() - i,
                orig.deck.total_len() >= 2 * orig.seats@.len() + 2,
                forall|j: int|
                    0 <= j < orig.seats@.len() ==> (#[trigger] orig.seats@[j]).cards@.len() == 0,
                forall|j: int|
                    i <= j < orig.seats@.len() ==> #[trigger] self.seats@[j] == orig.seats@[j],
                forall|j: int|
                    0 <= j < i && Game::seat_is_dealt_in(#[trigger] orig.seats@[j]) ==> {
                        &&& self.seats@[j].cards@.len() == 1
                        &&& self.seats@[j].player == orig.seats@[j].player
                        &&& self.seats@[j].current_bet == orig.seats@[j].current_bet
                        &&& self.seats@[j].round_status == orig.seats@[j].round_status
                    },
                forall|j: int|
                    0 <= j < i && !Game::seat_is_dealt_in(#[trigger] orig.seats@[j]) ==>
                        self.seats@[j] == orig.seats@[j],
            decreases seat_count - i,
        {
            let occupied = self.seats[i].has_player();
            let wagered = self.seats[i].current_bet > 0;
            if occupied && wagered {
                self.deal_card_to_seat(i);
            }
            i = i + 1;
        }

        let ghost mid = *self;

        let mut i: usize = 0;
        while i < seat_count
            invariant
                i <= seat_count,
                seat_count == orig.seats@.len(),
                self.seats@.len() == orig.seats@.len(),
                mid.seats@.len() == orig.seats@.len(),
                self.cards_in_play() == orig.cards_in_play(),
                self.betting == orig.betting,
                self.dealer == orig.dealer,
                self.deck.total_len() >= mid.deck.total_len() - i,
                mid.deck.total_len() >= orig.deck.total_len() - orig.seats@.len(),
                orig.deck.total_len() >= 2 * orig.seats@.len() + 2,
                forall|j: int|
                    i <= j < orig.seats@.len() ==> #[trigger] self.seats@[j] == mid.seats@[j],
                forall|j: int|
                    0 <= j < orig.seats@.len() && Game::seat_is_dealt_in(
                        #[trigger] orig.seats@[j],
                    ) ==> {
                        &&& mid.seats@[j].cards@.len() == 1
                        &&& mid.seats@[j].player == orig.seats@[j].player
                        &&& mid.seats@[j].current_bet == orig.seats@[j].current_bet
                        &&& mid.seats@[j].round_status == orig.seats@[j].round_status
                    },
                forall|j: int|
                    0 <= j < orig.seats@.len() && !Game::seat_is_dealt_in(
                        #[trigger] orig.seats@[j],
                    ) ==> mid.seats@[j] == orig.seats@[j],
                forall|j: int|
                    0 <= j < i && Game::seat_is_dealt_in(#[trigger] orig.seats@[j]) ==> {
                        &&& self.seats@[j].cards@.len() == 2
                        &&& self.seats@[j].player == orig.seats@[j].player
                        &&& self.seats@[j].current_bet == orig.seats@[j].current_bet
                        &&& self.seats@[j].round_status == orig.seats@[j].round_status
                    },
                forall|j: int|
                    0 <= j < i && !Game::seat_is_dealt_in(#[trigger] orig.seats@[j]) ==>
                        self.seats@[j] == orig.seats@[j],
            decreases seat_count - i,
        {
            let occupied = self.seats[i].has_player();
            let wagered = self.seats[i].current_bet > 0;
            if occupied && wagered {
                self.deal_card_to_seat(i);
            }
            i = i + 1;
        }

        let ghost second = *self;

        let mut i: usize = 0;
        while i < seat_count
            invariant
                i <= seat_count,
                seat_count == orig.seats@.len(),
                self.seats@.len() == orig.seats@.len(),
                second.seats@.len() == orig.seats@.len(),
                self.cards_in_play() == orig.cards_in_play(),
                self.betting == orig.betting,
                self.dealer == orig.dealer,
                self.deck == second.deck,
                forall|j: int|
                    i <= j < orig.seats@.len() ==> #[trigger] self.seats@[j] == second.seats@[j],
                forall|j: int|
                    0 <= j < orig.seats@.len() && Game::seat_is_dealt_in(
                        #[trigger] orig.seats@[j],
                    ) ==> {
                        &&& second.seats@[j].cards@.len() == 2
                        &&& second.seats@[j].player == orig.seats@[j].player
                        &&& second.seats@[j].current_bet == orig.seats@[j].current_bet
                    },
                forall|j: int|
                    0 <= j < orig.seats@.len() && !Game::seat_is_dealt_in(
                        #[trigger] orig.seats@[j],
                    ) ==> second.seats@[j] == orig.seats@[j],
                forall|j: int|
                    0 <= j < i && Game::seat_is_dealt_in(#[trigger] orig.seats@[j]) ==> {
                        &&& self.seats@[j].cards@.len() == 2
                        &&& self.seats@[j].round_status == RoundStatus::Dealt
                        &&& self.seats@[j].player == orig.seats@[j].player
                        &&& self.seats@[j].current_bet == orig.seats@[j].current_bet
                    },
                forall|j: int|
                    0 <= j < i && !Game::seat_is_dealt_in(#[trigger] orig.seats@[j]) ==>
                        self.seats@[j] == orig.seats@[j],
            decreases seat_count - i,
        {
            let occupied = self.seats[i].has_player();
            let wagered = self.seats[i].current_bet > 0;
            if occupied && wagered {
                let ghost before = *self;
                self.seats[i].mark_dealt();
                proof {
                    lemma_seats_cards_update_same_cards(
                        before.seats@,
                        i as int,
                        self.seats@[i as int],
                    );
                    assert(self.cards_in_play() =~= before.cards_in_play());
                }
            }
            i = i + 1;
        }

        self.deal_card_to_dealer();
        self.deal_card_to_dealer();
    }

    /// Fills every free seat: the first player to join is the table's guest,
    /// the rest are numbered house-run players, each starting with the
    /// session bankroll of 100.
    pub fn generate_players(&mut self)
        requires
            old(self).empty_seats_bare(),
        ensures
            final(self).cards_in_play() == old(self).cards_in_play(),
            final(self).betting == old(self).betting,
            final(self).deck == old(self).deck,
            final(self).dealer == old(self).dealer,
            final(self).seats@.len() == old(self).seats@.len(),
            forall|i: int|
                0 <= i < old(self).seats@.len() ==> (#[trigger] final(self).seats@[i]).player
                    is Some,
            forall|i: int|
                0 <= i < old(self).seats@.len() && (#[trigger] old(self).seats@[i]).player
                    is Some ==> final(self).seats@[i] == old(self).seats@[i],
            forall|i: int|
                0 <= i < old(self).seats@.len() && (#[trigger] old(self).seats@[i]).player
                    is None ==> {
                    &&& final(self).seats@[i].player is Some
                    &&& final(self).seats@[i].player->Some_0.cash == 100
                    &&& final(self).seats@[i].current_bet == 0
                    &&& final(self).seats@[i].cards@.len() == 0
                    &&& final(self).seats@[i].round_status == RoundStatus::AwaitingBet
                },
            final(self).empty_seats_bare(),
    {
        let ghost orig = *self;
        let mut i: usize = 0;
        let mut ai_index: u32 = 0;

        while i < self.seats.len()
            invariant
                i <= self.seats@.len(),
                self.seats@.len() == orig.seats@.len(),
                self.cards_in_play() == orig.cards_in_play(),
                self.betting == orig.betting,
                self.deck == orig.deck,
                self.dealer == orig.dealer,
                orig.empty_seats_bare(),
                forall|j: int|
                    i <= j < orig.seats@.len() ==> #[trigger] self.seats@[j] == orig.seats@[j],
                forall|j: int|
                    0 <= j < i && (#[trigger] orig.seats@[j]).player is Some ==> self.seats@[j]
                        == orig.seats@[j],
                forall|j: int|
                    0 <= j < i && (#[trigger] orig.seats@[j]).player is None ==> {
                        &&& self.seats@[j].player is Some
                        &&& self.seats@[j].player->Some_0.cash == 100
                        &&& self.seats@[j].current_bet == 0
                        &&& self.seats@[j].cards@.len() == 0
                        &&& self.seats@[j].round_status == RoundStatus::AwaitingBet
                    },
            decreases self.seats@.len() - i,
        {
            if !self.seats[i].has_player() {
                let name = if ai_index == 0 {
                    "Player".to_owned()
                } else {
                    ai_name(ai_index)
                };
                ai_index = if ai_index < u32::MAX {
                    ai_index + 1
                } else {
                    ai_index
                };
                let ghost before = *self;
                self.seats[i].add_player(Player::new(name, false, 100));
                proof {
                    assert(before.seats@[i as int].bare_when_empty());
                    assert(self.seats@[i as int].cards@ =~= before.seats@[i as int].cards@);
                    lemma_seats_cards_update_same_cards(
                        before.seats@,
                        i as int,
                        self.seats@[i as int],
                    );
                    assert(self.cards_in_play() =~= before.cards_in_play());
                }
            }
            i = i + 1;
        }

        proof {
            assert forall|k: int|
                0 <= k < orig.seats@.len() implies (#[trigger] self.seats@[k]).player is Some by {
                if orig.seats@[k].player is Some {
                    assert(self.seats@[k] == orig.seats@[k]);
                }
            }
            assert(self.empty_seats_bare());
        }
    }


    /// What the automated turn actually does first: the strategy table's
    /// verdict, except that a doubling verdict falls back to a hit when
    /// doubling is not available to this seat.
    pub open spec fn clamped_play(seat: Seat, dealer_value: int) -> Play {
        let table_play = ai::decide(hand_total(seat.cards@), dealer_value);
        if table_play == Play::Double && !(seat.cards@.len() == 2
            && seat.player->Some_0.cash >= seat.current_bet && seat.current_bet <= u32::MAX / 2) {
            Play::Hit
        } else {
            table_play
        }
    }

    /// Runs the automated policy for the seat at `index` until its turn ends:
    /// look the hand and the dealer's visible card up in the strategy table,
    /// apply the action, and repeat while the seat is still playing. A
    /// doubling verdict is downgraded to a hit whenever doubling is not
    /// actually available (the hand is no longer two cards, or the bankroll
    /// or the wager arithmetic cannot carry it). The seat always ends in a
    /// terminal state, busted exactly when its total exceeds 21, and no card
    /// is gained or lost.
    pub fn play_seat(&mut self, index: usize)
        requires
            index < old(self).seats@.len(),
            old(self).seats@[index as int].player is Some,
            old(self).seats@[index as int].round_status.is_actionable(),
            old(self).seats@[index as int].round_status == RoundStatus::Playing ==> hand_total(
                old(self).seats@[index as int].cards@,
            ) <= 21,
            old(self).seats@[index as int].round_status == RoundStatus::Dealt ==> old(
                self,
            ).seats@[index as int].cards@.len() == 2,
            old(self).deck.total_len() + old(self).seats@[index as int].cards@.len() >= 23,
            old(self).dealer.cards@.len() >= 2,
        ensures
            final(self).cards_in_play() == old(self).cards_in_play(),
            final(self).betting == old(self).betting,
            final(self).dealer == old(self).dealer,
            final(self).seats@.len() == old(self).seats@.len(),
            forall|j: int|
                0 <= j < old(self).seats@.len() && j != index ==> final(self).seats@[j] == old(
                    self,
                ).seats@[j],
            final(self).seats@[index as int].player is Some,
            final(self).seats@[index as int].player->Some_0.name == old(
                self,
            ).seats@[index as int].player->Some_0.name,
            final(self).seats@[index as int].round_status.is_terminal(),
            final(self).seats@[index as int].round_status == RoundStatus::Busted <==> hand_total(
                final(self).seats@[index as int].cards@,
            ) > 21,
            final(self).seats@[index as int].current_bet == old(
                self,
            ).seats@[index as int].current_bet || final(self).seats@[index as int].current_bet
                == 2 * old(self).seats@[index as int].current_bet,
            final(self).deck.total_len() + final(self).seats@[index as int].cards@.len() == old(
                self,
            ).deck.total_len() + old(self).seats@[index as int].cards@.len(),
            Game::clamped_play(
                old(self).seats@[index as int],
                old(self).dealer.cards@[1].value_spec(),
            ) == Play::Stand ==> {
                &&& final(self).seats@[index as int].round_status == RoundStatus::Stood
                &&& final(self).seats@[index as int].cards == old(self).seats@[index as int].cards
                &&& final(self).seats@[index as int].current_bet == old(
                    self,
                ).seats@[index as int].current_bet
            },
            Game::clamped_play(
                old(self).seats@[index as int],
                old(self).dealer.cards@[1].value_spec(),
            ) == Play::Double ==> {
                &&& final(self).seats@[index as int].cards@.len() == old(
                    self,
                ).seats@[index as int].cards@.len() + 1
                &&& final(self).seats@[index as int].current_bet == 2 * old(
                    self,
                ).seats@[index as int].current_bet
            },
            Game::clamped_play(
                old(self).seats@[index as int],
                old(self).dealer.cards@[1].value_spec(),
            ) == Play::Hit ==> final(self).seats@[index as int].cards@.len() > old(
                self,
            ).seats@[index as int].cards@.len(),
    {
        let ghost orig = *self;
        let ghost dealer_value_spec = orig.dealer.cards@[1].value_spec();
        let ghost first_play = Game::clamped_play(orig.seats@[index as int], dealer_value_spec);
        let ghost mut started = false;
        let mut done = false;

        proof {
            if orig.seats@[index as int].round_status == RoundStatus::Dealt {
                crate::player::lemma_two_card_total_le_21(orig.seats@[index as int].cards@);
            }
            crate::player::lemma_hand_total_ge_len(orig.seats@[index as int].cards@);
        }

        while !done
            invariant
                index < self.seats@.len(),
                self.seats@.len() == orig.seats@.len(),
                self.cards_in_play() == orig.cards_in_play(),
                self.betting == orig.betting,
                self.dealer == orig.dealer,
                orig.dealer.cards@.len() >= 2,
                forall|j: int|
                    0 <= j < orig.seats@.len() && j != index ==> self.seats@[j] == orig.seats@[j],
                self.seats@[index as int].player is Some,
                self.seats@[index as int].player->Some_0.name == orig.seats@[
                    index as int
                ].player->Some_0.name,
                !done ==> self.seats@[index as int].current_bet == orig.seats@[
                    index as int
                ].current_bet,
                done ==> self.seats@[index as int].current_bet == orig.seats@[
                    index as int
                ].current_bet || self.seats@[index as int].current_bet == 2 * orig.seats@[
                    index as int
                ].current_bet,
                self.deck.total_len() + self.seats@[index as int].cards@.len() == orig.deck.total_len()
                    + orig.seats@[index as int].cards@.len(),
                orig.deck.total_len() + orig.seats@[index as int].cards@.len() >= 23,
                !done ==> self.seats@[index as int].round_status.is_actionable(),
                !done ==> hand_total(self.seats@[index as int].cards@) <= 21,
                !done ==> self.seats@[index as int].cards@.len() <= 21,
                done ==> self.seats@[index as int].round_status.is_terminal(),
                done ==> (self.seats@[index as int].round_status == RoundStatus::Busted
                    <==> hand_total(self.seats@[index as int].cards@) > 21),
                first_play == Game::clamped_play(orig.seats@[index as int], dealer_value_spec),
                dealer_value_spec == orig.dealer.cards@[1].value_spec(),
                !started ==> *self == orig && !done,
                started && first_play == Play::Stand ==> {
                    &&& done
                    &&& self.seats@[index as int].round_status == RoundStatus::Stood
                    &&& self.seats@[index as int].cards == orig.seats@[index as int].cards
                    &&& self.seats@[index as int].current_bet == orig.seats@[
                        index as int
                    ].current_bet
                },
                started && first_play == Play::Double ==> {
                    &&& done
                    &&& self.seats@[index as int].cards@.len() == orig.seats@[
                        index as int
                    ].cards@.len() + 1
                    &&& self.seats@[index as int].current_bet == 2 * orig.seats@[
                        index as int
                    ].current_bet
                },
                started && first_play == Play::Hit ==> self.seats@[index as int].cards@.len()
                    > orig.seats@[index as int].cards@.len(),
            decreases (if done { 0int } else { 1int }), 22 - self.seats@[index as int].cards@.len(),
        {
            let hand_total_now = self.seats[index].total();
            let dealer_value = self.dealer.face_up_card().value();
            let mut play = ai::decide_play(hand_total_now, dealer_value);

            if matches!(play, Play::Double) {
                let hand_len = self.seats[index].cards.len();
                let wager = self.seats[index].current_bet;
                let bankroll = match &self.seats[index].player {
                    Some(occupant) => occupant.cash,
                    None => 0,
                };
                if !(hand_len == 2 && bankroll >= wager && wager <= u32::MAX / 2) {
                    play = Play::Hit;
                }
            }

            proof {
                assert(play != Play::Split);
                if !started {
                    assert(play == first_play);
                    started = true;
                }
            }

            let ghost before = *self;
            let r = self.seats[index].apply_action(play, &mut self.deck);
            proof {
                lemma_seats_cards_update(before.seats@, index as int, self.seats@[index as int]);
                let pre_hand = before.seats@[index as int].cards@.to_multiset();
                let post_hand = self.seats@[index as int].cards@.to_multiset();
                assert forall|c: Card|
                    self.cards_in_play().count(c) == before.cards_in_play().count(c) by {
                    assert(seats_cards(self.seats@).add(pre_hand).count(c) == seats_cards(
                        before.seats@,
                    ).add(post_hand).count(c));
                    assert(self.deck.held_cards().add(post_hand).count(c)
                        == before.deck.held_cards().add(pre_hand).count(c));
                }
                assert(self.cards_in_play() =~= before.cards_in_play());
                assert(self.deck.held_cards().add(post_hand).len() == before.deck.held_cards().add(
                    pre_hand,
                ).len());
                crate::player::lemma_hand_total_ge_len(self.seats@[index as int].cards@);
            }

            let status = self.seats[index].round_status;
            if matches!(
                status,
                RoundStatus::Stood | RoundStatus::Busted | RoundStatus::DoubledStand,
            ) {
                done = true;
            }
        }
    }

    /// Runs the dealer's fixed policy to completion: hit below 17, stand at
    /// 17 or more. No card is gained or lost.
    pub fn play_dealer(&mut self)
        requires
            old(self).dealer.cards@.len() <= 21,
            old(self).deck.total_len() + old(self).dealer.cards@.len() >= 17,
        ensures
            final(self).cards_in_play() == old(self).cards_in_play(),
            final(self).betting == old(self).betting,
            final(self).seats == old(self).seats,
            hand_total(final(self).dealer.cards@) >= 17,
            final(self).dealer.cards@.take(old(self).dealer.cards@.len() as int) == old(
                self,
            ).dealer.cards@,
            final(self).deck.total_len() + final(self).dealer.cards@.len() == old(
                self,
            ).deck.total_len() + old(self).dealer.cards@.len(),
            hand_total(old(self).dealer.cards@) >= 17 ==> final(self).dealer == old(self).dealer
                && final(self).deck == old(self).deck,
    {
        let ghost orig = *self;
        proof {
            crate::player::lemma_hand_total_ge_len(orig.dealer.cards@);
        }
        let mut dealer_total = crate::player::total(self.dealer.cards.as_slice());

        while dealer_total < 17
            invariant
                self.cards_in_play() == orig.cards_in_play(),
                self.betting == orig.betting,
                self.seats == orig.seats,
                dealer_total == hand_total(self.dealer.cards@),
                self.dealer.cards@.len() <= 21,
                self.dealer.cards@.take(orig.dealer.cards@.len() as int) == orig.dealer.cards@,
                self.dealer.cards@.len() >= orig.dealer.cards@.len(),
                self.deck.total_len() + self.dealer.cards@.len() == orig.deck.total_len()
                    + orig.dealer.cards@.len(),
                orig.deck.total_len() + orig.dealer.cards@.len() >= 17,
                hand_total(orig.dealer.cards@) >= 17 ==> *self == orig,
            decreases 17 - self.dealer.cards@.len(),
        {
            proof {
                crate::player::lemma_hand_total_ge_len(self.dealer.cards@);
            }
            let ghost before = *self;
            self.deal_card_to_dealer();
            proof {
                assert(self.dealer.cards@.take(orig.dealer.cards@.len() as int)
                    =~= orig.dealer.cards@);
                assert(self.dealer.cards@.to_multiset().len() == self.dealer.cards@.len());
            }
            dealer_total = crate::player::total(self.dealer.cards.as_slice());
        }
    }

    /// Resolves and settles every seat whose turn ended, against the
    /// dealer's final total: busted seats lose; if the dealer busted the
    /// rest win; otherwise the higher total wins and equal totals push. A
    /// win pays the wager back doubled, a push returns it. Every settled
    /// hand and the dealer's hand go back to the shoe's discard pile, wagers
    /// are cleared, and the settled seats await the next round's bets. No
    /// card is gained or lost.
    pub fn settle_round(&mut self)
        requires
            11 * old(self).dealer.cards@.len() <= usize::MAX,
            forall|i: int|
                0 <= i < old(self).seats@.len() && (#[trigger] old(
                    self,
                ).seats@[i]).round_status.is_terminal() ==> {
                    &&& old(self).seats@[i].player is Some
                    &&& old(self).seats@[i].player->Some_0.cash + 2 * old(
                        self,
                    ).seats@[i].current_bet <= u32::MAX
                    &&& 11 * old(self).seats@[i].cards@.len() <= usize::MAX
                },
        ensures
            final(self).cards_in_play() == old(self).cards_in_play(),
            final(self).betting == old(self).betting,
            final(self).seats@.len() == old(self).seats@.len(),
            final(self).dealer.cards@.len() == 0,
            forall|i: int|
                0 <= i < old(self).seats@.len() && (#[trigger] old(
                    self,
                ).seats@[i]).round_status.is_terminal() ==> {
                    &&& final(self).seats@[i].player is Some
                    &&& final(self).seats@[i].player->Some_0.cash == old(
                        self,
                    ).seats@[i].player->Some_0.cash + payout_of(
                        outcome_of(
                            old(self).seats@[i].round_status,
                            hand_total(old(self).seats@[i].cards@),
                            hand_total(old(self).dealer.cards@),
                        ),
                        old(self).seats@[i].current_bet,
                    )
                    &&& final(self).seats@[i].player->Some_0.name == old(
                        self,
                    ).seats@[i].player->Some_0.name
                    &&& final(self).seats@[i].current_bet == 0
                    &&& final(self).seats@[i].round_status == RoundStatus::AwaitingBet
                    &&& final(self).seats@[i].cards@.len() == 0
                },
            forall|i: int|
                0 <= i < old(self).seats@.len() && !(#[trigger] old(
                    self,
                ).seats@[i]).round_status.is_terminal() ==> final(self).seats@[i] == old(
                    self,
                ).seats@[i],
    {
        let ghost orig = *self;
        let dealer_total = crate::player::total(self.dealer.cards.as_slice());
        let seat_count = self.seats.len();

        let mut i: usize = 0;
        while i < seat_count
            invariant
                i <= seat_count,
                seat_count == orig.seats@.len(),
                self.seats@.len() == orig.seats@.len(),
                self.cards_in_play() == orig.cards_in_play(),
                self.betting == orig.betting,
                self.dealer == orig.dealer,
                dealer_total == hand_total(orig.dealer.cards@),
                forall|j: int|
                    0 <= j < orig.seats@.len() && (#[trigger] orig.seats@[
                        j
                    ]).round_status.is_terminal() ==> {
                        &&& orig.seats@[j].player is Some
                        &&& orig.seats@[j].player->Some_0.cash + 2 * orig.seats@[j].current_bet
                            <= u32::MAX
                        &&& 11 * orig.seats@[j].cards@.len() <= usize::MAX
                    },
                forall|j: int|
                    i <= j < orig.seats@.len() ==> #[trigger] self.seats@[j] == orig.seats@[j],
                forall|j: int|
                    0 <= j < i && (#[trigger] orig.seats@[j]).round_status.is_terminal() ==> {
                        &&& self.seats@[j].player is Some
                        &&& self.seats@[j].player->Some_0.cash == orig.seats@[
                            j
                        ].player->Some_0.cash + payout_of(
                            outcome_of(
                                orig.seats@[j].round_status,
                                hand_total(orig.seats@[j].cards@),
                                hand_total(orig.dealer.cards@),
                            ),
                            orig.seats@[j].current_bet,
                        )
                        &&& self.seats@[j].player->Some_0.name == orig.seats@[
                            j
                        ].player->Some_0.name
                        &&& self.seats@[j].current_bet == 0
                        &&& self.seats@[j].round_status == RoundStatus::AwaitingBet
                        &&& self.seats@[j].cards@.len() == 0
                    },
                forall|j: int|
                    0 <= j < i && !(#[trigger] orig.seats@[j]).round_status.is_terminal() ==>
                        self.seats@[j] == orig.seats@[j],
            decreases seat_count - i,
        {
            let status = self.seats[i].round_status;
            if matches!(
                status,
                RoundStatus::Stood | RoundStatus::Busted | RoundStatus::DoubledStand,
            ) {
                let ghost s0 = *self;
                self.seats[i].resolve(dealer_total);
                proof {
                    lemma_seats_cards_update_same_cards(
                        s0.seats@,
                        i as int,
                        self.seats@[i as int],
                    );
                    assert(self.cards_in_play() =~= s0.cards_in_play());
                }
                let ghost s1 = *self;
                self.seats[i].settle();
                proof {
                    lemma_seats_cards_update_same_cards(
                        s1.seats@,
                        i as int,
                        self.seats@[i as int],
                    );
                    assert(self.cards_in_play() =~= s1.cards_in_play());
                }
                let ghost s2 = *self;
                let removed = self.seats[i].remove_cards();
                proof {
                    lemma_seats_cards_update(s2.seats@, i as int, self.seats@[i as int]);
                }
                let ghost s3 = *self;
                self.deck.add_all_to_discard_pile(removed);
                proof {
                    let hand = s2.seats@[i as int].cards@.to_multiset();
                    assert forall|c: Card|
                        self.cards_in_play().count(c) == s2.cards_in_play().count(c) by {
                        assert(seats_cards(s3.seats@).add(hand).count(c) == seats_cards(
                            s2.seats@,
                        ).add(Multiset::<Card>::empty()).count(c));
                        assert(self.deck.held_cards().count(c) == s3.deck.held_cards().add(
                            hand,
                        ).count(c));
                    }
                    assert(self.cards_in_play() =~= s2.cards_in_play());
                }
            }
            i = i + 1;
        }

        let ghost cleared = *self;
        let dealer_cards = self.dealer.remove_cards();
        let ghost d1 = *self;
        self.deck.add_all_to_discard_pile(dealer_cards);
        proof {
            let dealer_hand = cleared.dealer.cards@.to_multiset();
            assert forall|c: Card|
                self.cards_in_play().count(c) == cleared.cards_in_play().count(c) by {
                assert(self.deck.held_cards().count(c) == d1.deck.held_cards().add(
                    dealer_hand,
                ).count(c));
                assert(self.dealer.cards@.to_multiset().count(c) == 0);
            }
            assert(self.cards_in_play() =~= cleared.cards_in_play());
        }
    }

    /// The automated wager for the seat at `index`: three rolls out of four
    /// take the table minimum, the rest a risky slice of the bankroll
    /// (everything capped at the maximum, or three quarters, half or a
    /// quarter, rounded). The risky amounts are debited without another pass
    /// through the limit checks — the sizing itself is what bounds them.
    pub fn place_automated_bet(&mut self, index: usize) -> (bet: u32)
        requires
            index < old(self).seats@.len(),
            old(self).seats@[index as int].player is Some,
            old(self).betting.min_bet <= old(self).seats@[index as int].player->Some_0.cash,
            old(self).seats@[index as int].current_bet + old(
                self,
            ).seats@[index as int].player->Some_0.cash <= u32::MAX,
        ensures
            final(self).cards_in_play() == old(self).cards_in_play(),
            final(self).betting == old(self).betting,
            final(self).deck == old(self).deck,
            final(self).dealer == old(self).dealer,
            final(self).seats@.len() == old(self).seats@.len(),
            forall|j: int|
                0 <= j < old(self).seats@.len() && j != index ==> final(self).seats@[j] == old(
                    self,
                ).seats@[j],
            bet == old(self).betting.min_bet || ai::is_risky_outcome(
                bet as int,
                old(self).seats@[index as int].player->Some_0.cash,
                old(self).betting,
            ),
            bet <= old(self).seats@[index as int].player->Some_0.cash,
            final(self).seats@[index as int].player is Some,
            final(self).seats@[index as int].player->Some_0.cash == old(
                self,
            ).seats@[index as int].player->Some_0.cash - bet,
            final(self).seats@[index as int].current_bet == old(
                self,
            ).seats@[index as int].current_bet + bet,
            final(self).seats@[index as int].cards == old(self).seats@[index as int].cards,
            final(self).seats@[index as int].round_status == old(
                self,
            ).seats@[index as int].round_status,
    {
        let ghost orig = *self;
        let betting = self.betting;
        let cash = match &self.seats[index].player {
            Some(occupant) => occupant.cash,
            None => 0,
        };

        let probability = crate::rng::random_below(100) as u32;
        let bet = if probability >= 75 {
            let roll = crate::rng::random_below(100) as u32;
            let risky = ai::risky_bet_amount(cash, &betting, roll);
            proof {
                assert(ai::is_risky_outcome(risky as int, cash, betting));
                ai::lemma_risky_outcome_le_cash(risky as int, cash, betting);
            }
            risky
        } else {
            betting.min_bet
        };

        self.seats[index].debit_wager(bet);
        proof {
            lemma_seats_cards_update_same_cards(
                orig.seats@,
                index as int,
                self.seats@[index as int],
            );
            assert(self.cards_in_play() =~= orig.cards_in_play());
        }
        bet
    }

    /// The cut-card policy, applied between rounds: once the cards that have
    /// piled up in the discard pile pass the cut-card position, the shoe is
    /// reshuffled before the next round begins; otherwise nothing changes.
    pub fn reshuffle_if_cut_card_reached(&mut self)
        ensures
            final(self).cards_in_play() == old(self).cards_in_play(),
            final(self).betting == old(self).betting,
            final(self).seats == old(self).seats,
            final(self).dealer == old(self).dealer,
            final(self).deck.held_cards() == old(self).deck.held_cards(),
            old(self).deck.discard@.len() > old(self).deck.break_card_position
                ==> final(self).deck.discard@.len() == 0,
            old(self).deck.discard@.len() <= old(self).deck.break_card_position
                ==> final(self).deck == old(self).deck,
    {
        if self.deck.discard.len() > self.deck.break_card_position {
            self.deck.reset();
            proof {
                assert(self.cards_in_play() =~= old(self).cards_in_play());
            }
        }
    }
}

/// Relies on std's string formatting to print the index after the
/// house-player prefix.
#[verifier::external_body]
fn ai_name(index: u32) -> (r: String)
    ensures
        r@.len() >= 4,
{
    format!("AI #{}", index)
}

} // verus!
