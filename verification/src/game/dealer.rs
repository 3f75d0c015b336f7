//! The dealer: a hand and the house's fixed policy — hit below 17, stand at
//! 17 or more. The first card stays hidden; only the second is face up, and
//! every decision input the other seats receive is that visible card.

use crate::betting::Play;
use crate::card::Card;
use crate::player::hand_total;
use vstd::prelude::*;

verus! {

#[derive(Debug)]
pub struct Dealer {
    pub cards: Vec<Card>,
}

impl Dealer {
    pub fn new() -> (dealer: Dealer)
        ensures
            dealer.cards@ == Seq::<Card>::empty(),
    {
        Dealer { cards: Vec::new() }
    }

    /// The house policy: stand from 17 up, hit below.
    pub fn turn(&mut self) -> (p: Play)
        requires
            11 * old(self).cards@.len() <= usize::MAX,
        ensures
            *final(self) == *old(self),
            p == (if hand_total(old(self).cards@) >= 17 {
                Play::Stand
            } else {
                Play::Hit
            }),
    {
        let total = crate::player::total(self.cards.as_slice());

        if total >= 17 {
            Play::Stand
        } else {
            Play::Hit
        }
    }

    /// The dealer's visible card: the second one dealt.
    pub fn face_up_card(&self) -> (card: &Card)
        requires
            self.cards@.len() >= 2,
        ensures
            *card == self.cards@[1],
    {
        &self.cards[1]
    }

    pub fn deal_card(&mut self, card: Card)
        ensures
            final(self).cards@ == old(self).cards@.push(card),
    {
        self.cards.push(card);
    }

    /// Empties the dealer's hand and hands the cards back, newest first, so
    /// they can be returned to the shoe's discard pile at round end.
    pub fn remove_cards(&mut self) -> (removed: Vec<Card>)
        ensures
            removed@ == old(self).cards@.reverse(),
            removed@.to_multiset() == old(self).cards@.to_multiset(),
            final(self).cards@ == Seq::<Card>::empty(),
    {
        let ghost orig = *self;
        let mut removed = Vec::new();
        proof {
            assert(orig.cards@.take(orig.cards@.len() as int) =~= orig.cards@);
            assert(orig.cards@.skip(orig.cards@.len() as int).reverse() =~= Seq::<Card>::empty());
        }

        while self.cards.len() > 0
            invariant
                self.cards@.len() <= orig.cards@.len(),
                self.cards@ == orig.cards@.take(self.cards@.len() as int),
                removed@ == orig.cards@.skip(self.cards@.len() as int).reverse(),
            decreases self.cards@.len(),
        {
            let ghost k = self.cards@.len() as int;
            let removed_card = self.cards.pop();

            match removed_card {
                Some(card) => {
                    removed.push(card);
                    proof {
                        assert(self.cards@ =~= orig.cards@.take(k - 1));
                        assert(removed@ =~= orig.cards@.skip(k - 1).reverse());
                    }
                },
                None => (),
            }
        }

        proof {
            assert(removed@ =~= orig.cards@.reverse());
            orig.cards@.lemma_reverse_to_multiset();
        }

        removed
    }
}

} // verus!
