//! The shoe: a draw pile and a discard pile built from one or more 52-card
//! decks, with a randomly placed cut card. Cards are never created or
//! destroyed after the build; they only move between the two piles and the
//! hands, and the contracts here account for every one of them.

use crate::card::{Card, CardRank, Suit};
use crate::rng::{random_below, shuffle_cards};
use vstd::multiset::Multiset;
use vstd::pervasive::unreached;
use vstd::prelude::*;

verus! {

broadcast use vstd::seq_lib::group_to_multiset_ensures, vstd::seq_lib::lemma_multiset_commutative;

/// The only construction-time failure: a shoe cannot be built from zero decks.
#[derive(Debug, Clone, Copy, PartialEq, Eq, Structural)]
pub enum ConfigurationError {
    InvalidDeckCount,
}

/// The shoe. `cards` is the draw pile (top of the pile = end of the vector),
/// `discard` the discard pile, and `break_card_position` the cut-card index
/// chosen at build and at each reshuffle: once that many cards have been
/// dealt the table should reshuffle before the next round.
#[derive(Debug)]
pub struct Deck {
    pub cards: Vec<Card>,
    pub discard: Vec<Card>,
    pub break_card_position: usize,
}

pub open spec fn suit_of_index(j: int) -> Suit {
    if j == 0 {
        Suit::Spades
    } else if j == 1 {
        Suit::Hearts
    } else if j == 2 {
        Suit::Diamonds
    } else {
        Suit::Clubs
    }
}

pub open spec fn rank_of_index(i: int) -> CardRank {
    if i == 0 {
        CardRank::Ace
    } else if i == 1 {
        CardRank::Two
    } else if i == 2 {
        CardRank::Three
    } else if i == 3 {
        CardRank::Four
    } else if i == 4 {
        CardRank::Five
    } else if i == 5 {
        CardRank::Six
    } else if i == 6 {
        CardRank::Seven
    } else if i == 7 {
        CardRank::Eight
    } else if i == 8 {
        CardRank::Nine
    } else if i == 9 {
        CardRank::Ten
    } else if i == 10 {
        CardRank::Jack
    } else if i == 11 {
        CardRank::Queen
    } else {
        CardRank::King
    }
}

/// The card at position `k` of an unshuffled shoe: within each run of 52 the
/// ranks go Ace through King, each rank over the four suits.
pub open spec fn card_of_index(k: int) -> Card {
    Card { suit: suit_of_index(k % 4), rank: rank_of_index((k % 52) / 4) }
}

/// The cards of a freshly built `n`-deck shoe, before the shuffle.
pub open spec fn fresh_shoe(n: int) -> Seq<Card> {
    Seq::new((52 * n) as nat, |k: int| card_of_index(k))
}

fn suit_from_index(j: usize) -> (s: Suit)
    requires
        j < 4,
    ensures
        s == suit_of_index(j as int),
{
    if j == 0 {
        Suit::Spades
    } else if j == 1 {
        Suit::Hearts
    } else if j == 2 {
        Suit::Diamonds
    } else {
        Suit::Clubs
    }
}

fn rank_from_index(i: usize) -> (r: CardRank)
    requires
        i < 13,
    ensures
        r == rank_of_index(i as int),
{
    if i == 0 {
        CardRank::Ace
    } else if i == 1 {
        CardRank::Two
    } else if i == 2 {
        CardRank::Three
    } else if i == 3 {
        CardRank::Four
    } else if i == 4 {
        CardRank::Five
    } else if i == 5 {
        CardRank::Six
    } else if i == 6 {
        CardRank::Seven
    } else if i == 7 {
        CardRank::Eight
    } else if i == 8 {
        CardRank::Nine
    } else if i == 9 {
        CardRank::Ten
    } else if i == 10 {
        CardRank::Jack
    } else if i == 11 {
        CardRank::Queen
    } else {
        CardRank::King
    }
}

impl Deck {
    /// Every card the shoe still holds, in the draw pile or the discard pile.
    pub open spec fn held_cards(self) -> Multiset<Card> {
        self.cards@.to_multiset().add(self.discard@.to_multiset())
    }

    /// How many cards the shoe still holds.
    pub open spec fn total_len(self) -> int {
        self.cards@.len() + self.discard@.len() as int
    }

    /// Builds a shoe of `amount_of_decks` decks: all 52 rank-suit
    /// combinations per deck, shuffled, with an empty discard pile and a
    /// fresh cut-card position.
    pub fn new(amount_of_decks: usize) -> (deck: Deck)
        requires
            1 <= amount_of_decks,
            52 * amount_of_decks <= usize::MAX,
        ensures
            deck.held_cards() == fresh_shoe(amount_of_decks as int).to_multiset(),
            deck.cards@.len() == 52 * amount_of_decks,
            deck.discard@.len() == 0,
            deck.break_card_position < 52 * amount_of_decks,
    {
        let total: usize = 52 * amount_of_decks;
        let mut cards: Vec<Card> = Vec::with_capacity(total);

        let mut k: usize = 0;
        while k < total
            invariant
                k <= total,
                total == 52 * amount_of_decks,
                cards@.len() == k,
                forall|i: int| 0 <= i < k ==> cards@[i] == card_of_index(i),
            decreases total - k,
        {
            let within_deck: usize = k % 52;
            let rank = rank_from_index(within_deck / 4);
            let suit = suit_from_index(k % 4);
            cards.push(Card { suit, rank });
            assert(k % 4 == (k % 52) % 4) by (nonlinear_arith);
            k = k + 1;
        }

        assert(cards@ =~= fresh_shoe(amount_of_decks as int));
        shuffle_cards(&mut cards);
        let break_card_position = random_below(cards.len());

        let deck = Deck { cards, discard: Vec::new(), break_card_position };
        proof {
            assert(deck.discard@.to_multiset().len() == 0);
            assert(deck.held_cards() =~= fresh_shoe(amount_of_decks as int).to_multiset());
        }
        deck
    }

    /// Builds a shoe as `new` does, but reports a zero deck count as the
    /// configuration error instead of requiring the caller to rule it out.
    pub fn build(amount_of_decks: usize) -> (r: Result<Deck, ConfigurationError>)
        requires
            52 * amount_of_decks <= usize::MAX,
        ensures
            match r {
                Ok(deck) => {
                    &&& amount_of_decks >= 1
                    &&& deck.held_cards() == fresh_shoe(amount_of_decks as int).to_multiset()
                    &&& deck.cards@.len() == 52 * amount_of_decks
                    &&& deck.discard@.len() == 0
                    &&& deck.break_card_position < 52 * amount_of_decks
                },
                Err(e) => amount_of_decks == 0 && e == ConfigurationError::InvalidDeckCount,
            },
    {
        if amount_of_decks == 0 {
            Err(ConfigurationError::InvalidDeckCount)
        } else {
            Ok(Deck::new(amount_of_decks))
        }
    }

    /// Builds a shoe of `amount_of_decks` decks, exactly as `new` does.
    pub fn generate(amount_of_decks: usize) -> (deck: Deck)
        requires
            1 <= amount_of_decks,
            52 * amount_of_decks <= usize::MAX,
        ensures
            deck.held_cards() == fresh_shoe(amount_of_decks as int).to_multiset(),
            deck.cards@.len() == 52 * amount_of_decks,
            deck.discard@.len() == 0,
            deck.break_card_position < 52 * amount_of_decks,
    {
        Deck::new(amount_of_decks)
    }

    fn shuffle(&mut self)
        ensures
            final(self).cards@.to_multiset() == old(self).cards@.to_multiset(),
            final(self).cards@.len() == old(self).cards@.len(),
            final(self).discard@ == old(self).discard@,
            final(self).break_card_position == old(self).break_card_position,
    {
        shuffle_cards(&mut self.cards);
    }

    /// The reshuffle: merges the discard pile back into the draw pile,
    /// shuffles the whole pile, and picks a new cut-card position. No card is
    /// gained or lost.
    pub fn reset(&mut self)
        requires
            old(self).total_len() >= 1,
        ensures
            final(self).held_cards() == old(self).held_cards(),
            final(self).cards@.len() == old(self).total_len(),
            final(self).discard@.len() == 0,
            final(self).break_card_position < final(self).cards@.len(),
    {
        let ghost old_cards = self.cards@;
        let ghost old_discard = self.discard@;
        self.cards.append(&mut self.discard);
        assert(self.cards@.to_multiset() == old_cards.to_multiset().add(old_discard.to_multiset()));
        self.shuffle();
        self.break_card_position = random_below(self.cards.len());
        proof {
            assert(self.discard@.to_multiset().len() == 0);
            assert(self.held_cards() =~= old_cards.to_multiset().add(old_discard.to_multiset()));
        }
    }

    /// Removes and returns the top card of the draw pile. An exhausted draw
    /// pile is first replenished by an implicit reshuffle, so a shoe that
    /// still holds at least one card always yields one.
    pub fn deal_card(&mut self) -> (card: Card)
        requires
            old(self).total_len() >= 1,
        ensures
            old(self).held_cards() == final(self).held_cards().insert(card),
            final(self).total_len() == old(self).total_len() - 1,
            old(self).cards@.len() >= 1 ==> {
                &&& card == old(self).cards@.last()
                &&& final(self).cards@ == old(self).cards@.drop_last()
                &&& final(self).discard@ == old(self).discard@
                &&& final(self).break_card_position == old(self).break_card_position
            },
            old(self).cards@.len() == 0 ==> final(self).discard@.len() == 0,
    {
        if self.cards.len() == 0 {
            self.reset();
        }
        let ghost mid = *self;
        assert(mid.held_cards() == old(self).held_cards());
        let card_opt = self.cards.pop();
        match card_opt {
            Some(card) => {
                proof {
                    assert(mid.cards@ =~= self.cards@.push(card));
                    assert(mid.cards@.to_multiset() == self.cards@.to_multiset().insert(card));
                    assert(mid.held_cards() =~= self.held_cards().insert(card));
                    if old(self).cards@.len() >= 1 {
                        assert(self.cards@ =~= old(self).cards@.drop_last());
                    }
                }
                card
            },
            None => unreached(),
        }
    }

    /// Appends one card to the discard pile.
    pub fn add_to_discard_pile(&mut self, card: Card)
        ensures
            final(self).discard@ == old(self).discard@.push(card),
            final(self).cards@ == old(self).cards@,
            final(self).break_card_position == old(self).break_card_position,
            final(self).held_cards() == old(self).held_cards().insert(card),
            final(self).total_len() == old(self).total_len() + 1,
    {
        self.discard.push(card);
        proof {
            assert(self.held_cards() =~= old(self).held_cards().insert(card));
        }
    }

    /// Appends a whole hand to the discard pile in one move, as a cleared
    /// hand is returned to the shoe.
    pub fn add_all_to_discard_pile(&mut self, cards: Vec<Card>)
        ensures
            final(self).discard@ == old(self).discard@ + cards@,
            final(self).cards@ == old(self).cards@,
            final(self).break_card_position == old(self).break_card_position,
            final(self).held_cards() == old(self).held_cards().add(cards@.to_multiset()),
            final(self).total_len() == old(self).total_len() + cards@.len(),
    {
        let mut incoming = cards;
        self.discard.append(&mut incoming);
        proof {
            assert(self.held_cards() =~= old(self).held_cards().add(cards@.to_multiset()));
        }
    }
}

} // verus!
