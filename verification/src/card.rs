//! The card model: suit, rank, and the derived point value.

use vstd::prelude::*;

verus! {

/// A playing card. Immutable once created; cards are built once per shoe and
/// only ever move between the draw pile, the discard pile, and hands.
#[derive(Debug, Clone, Copy, PartialEq, Eq, Structural)]
pub struct Card {
    pub suit: Suit,
    pub rank: CardRank,
}

#[derive(Debug, Clone, Copy, PartialEq, Eq, Structural)]
pub enum Suit {
    Spades,
    Hearts,
    Diamonds,
    Clubs,
}

#[derive(Debug, Clone, Copy, PartialEq, Eq, Structural)]
pub enum CardRank {
    Ace,
    Two,
    Three,
    Four,
    Five,
    Six,
    Seven,
    Eight,
    Nine,
    Ten,
    Jack,
    Queen,
    King,
}

/// The point value of a rank: an Ace counts 11 (it may later be softened to 1
/// by the hand valuator), numerals count their face value, and the face cards
/// count 10.
pub open spec fn rank_value(rank: CardRank) -> int {
    match rank {
        CardRank::Ace => 11,
        CardRank::Two => 2,
        CardRank::Three => 3,
        CardRank::Four => 4,
        CardRank::Five => 5,
        CardRank::Six => 6,
        CardRank::Seven => 7,
        CardRank::Eight => 8,
        CardRank::Nine => 9,
        CardRank::Ten => 10,
        CardRank::Jack => 10,
        CardRank::Queen => 10,
        CardRank::King => 10,
    }
}

impl Card {
    /// The card's point value, as `rank_value` states it.
    pub open spec fn value_spec(self) -> int {
        rank_value(self.rank)
    }

    pub fn new(suit: Suit, rank: CardRank) -> (card: Card)
        ensures
            card == (Card { suit, rank }),
    {
        Card { suit, rank }
    }

    pub fn value(&self) -> (v: usize)
        ensures
            v == self.value_spec(),
            2 <= v <= 11,
    {
        match self.rank {
            CardRank::Ace => 11,
            CardRank::Two => 2,
            CardRank::Three => 3,
            CardRank::Four => 4,
            CardRank::Five => 5,
            CardRank::Six => 6,
            CardRank::Seven => 7,
            CardRank::Eight => 8,
            CardRank::Nine => 9,
            _ => 10,
        }
    }
}

} // verus!
