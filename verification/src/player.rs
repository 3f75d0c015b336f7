//! Players and hand valuation. `total` is the ace-aware valuator: aces are
//! counted as 11 first, and if the raw sum busts, every ace in the hand is
//! softened to 1 at once (an all-or-nothing rule, kept deliberately: it is
//! the rule the rest of the design is written against).

pub mod actions;
pub mod ai;

use crate::betting::{BetError, Betting, Play, validate, validate_spec};
use crate::card::{Card, CardRank};
use vstd::prelude::*;

verus! {

/// Sum of the point values of a hand, an ace counting 11.
pub open spec fn raw_total(cards: Seq<Card>) -> int
    decreases cards.len(),
{
    if cards.len() == 0 {
        0
    } else {
        raw_total(cards.drop_last()) + cards.last().value_spec()
    }
}

/// How many aces a hand holds.
pub open spec fn ace_count(cards: Seq<Card>) -> int
    decreases cards.len(),
{
    if cards.len() == 0 {
        0
    } else {
        ace_count(cards.drop_last()) + if cards.last().rank == CardRank::Ace {
            1int
        } else {
            0int
        }
    }
}

/// The hand's total: the raw ace-high sum, except that when that sum busts,
/// every ace drops from 11 to 1.
pub open spec fn hand_total(cards: Seq<Card>) -> int {
    if raw_total(cards) > 21 {
        raw_total(cards) - 10 * ace_count(cards)
    } else {
        raw_total(cards)
    }
}

/// Every card is worth 2 to 11 points, aces exactly 11, so the raw sum is
/// bounded by the hand size and pays at least 11 per ace.
pub proof fn lemma_raw_total_bounds(cards: Seq<Card>)
    ensures
        0 <= ace_count(cards) <= cards.len(),
        2 * cards.len() <= raw_total(cards) <= 11 * cards.len(),
        raw_total(cards) - 10 * ace_count(cards) >= cards.len(),
    decreases cards.len(),
{
    if cards.len() > 0 {
        lemma_raw_total_bounds(cards.drop_last());
    }
}

/// The softened total still counts at least one point per card, so a hand
/// that has not busted holds at most 21 cards.
pub proof fn lemma_hand_total_ge_len(cards: Seq<Card>)
    ensures
        hand_total(cards) >= cards.len(),
        hand_total(cards) >= 0,
    decreases cards.len(),
{
    lemma_raw_total_bounds(cards);
}

/// Computes the hand's best total under the all-or-nothing ace rule stated
/// by `hand_total`.
pub fn total(cards: &[Card]) -> (r: usize)
    requires
        11 * cards@.len() <= usize::MAX,
    ensures
        r == hand_total(cards@),
{
    let mut initial_total: usize = 0;
    let mut aces: usize = 0;
    let mut i: usize = 0;
    while i < cards.len()
        invariant
            i <= cards@.len(),
            11 * cards@.len() <= usize::MAX,
            initial_total == raw_total(cards@.take(i as int)),
            aces == ace_count(cards@.take(i as int)),
        decreases cards@.len() - i,
    {
        proof {
            lemma_raw_total_bounds(cards@.take(i as int));
            assert(cards@.take(i + 1).drop_last() =~= cards@.take(i as int));
        }
        let card = cards[i];
        initial_total = initial_total + card.value();
        if card.rank == CardRank::Ace {
            aces = aces + 1;
        }
        i = i + 1;
    }
    proof {
        assert(cards@.take(cards@.len() as int) =~= cards@);
        lemma_raw_total_bounds(cards@);
    }
    if initial_total > 21 {
        initial_total - aces * 10
    } else {
        initial_total
    }
}

/// A hand of two cards never starts busted: the worst raw sum is 22, two
/// aces, and the ace rule softens that to 2.
pub proof fn lemma_two_card_total_le_21(cards: Seq<Card>)
    requires
        cards.len() == 2,
    ensures
        hand_total(cards) <= 21,
{
    let first = cards[0];
    let second = cards[1];
    let rest = cards.drop_last();
    assert(rest.len() == 1);
    assert(rest.last() == first);
    assert(rest.drop_last().len() == 0);
    assert(raw_total(rest.drop_last()) == 0);
    assert(ace_count(rest.drop_last()) == 0);
    assert(raw_total(rest) == first.value_spec());
    assert(raw_total(cards) == first.value_spec() + second.value_spec());
    assert(ace_count(rest) == (if first.rank == CardRank::Ace { 1int } else { 0int }));
    assert(ace_count(cards) == (if first.rank == CardRank::Ace { 1int } else { 0int }) + (
    if second.rank == CardRank::Ace {
        1int
    } else {
        0int
    }));
    if raw_total(cards) > 21 {
        assert(first.value_spec() == 11 && second.value_spec() == 11);
        assert(first.rank == CardRank::Ace && second.rank == CardRank::Ace);
    }
}

/// One participant: a name, a bankroll, a hand, and whether the participant
/// deals for the house. The bankroll only ever moves by a validated bet
/// (down) or a payout (up).
#[derive(Debug)]
pub struct Player {
    pub name: String,
    pub is_dealer: bool,
    pub cash: u32,
    pub hand: Vec<Card>,
}

impl Player {
    pub fn new(name: String, is_dealer: bool, cash: u32) -> (player: Player)
        ensures
            player.name == name,
            player.is_dealer == is_dealer,
            player.cash == cash,
            player.hand@ == Seq::<Card>::empty(),
    {
        Player { name, is_dealer, cash, hand: Vec::new() }
    }

    /// A player can join a round only with at least the table minimum in hand.
    pub fn can_play(&self, betting: Betting) -> (r: bool)
        ensures
            r == (self.cash >= betting.min_bet),
    {
        self.cash >= betting.min_bet
    }

    /// Validates the wager against the bankroll and the table limits, and
    /// debits the bankroll by exactly the wager when it passes. Nothing
    /// changes on a rejected wager.
    pub fn bet(&mut self, betting: Betting, bet: u32) -> (r: Result<u32, BetError>)
        ensures
            r == validate_spec(bet, old(self).cash, betting),
            r is Ok ==> final(self).cash == old(self).cash - bet,
            r is Err ==> final(self).cash == old(self).cash,
            final(self).name == old(self).name,
            final(self).is_dealer == old(self).is_dealer,
            final(self).hand == old(self).hand,
    {
        match validate(bet, self.cash, betting) {
            Ok(amount) => {
                self.cash = self.cash - amount;
                Ok(amount)
            },
            Err(e) => Err(e),
        }
    }

    /// The player's hand total under the ace rule.
    pub fn total(&self) -> (r: usize)
        requires
            11 * self.hand@.len() <= usize::MAX,
        ensures
            r == hand_total(self.hand@),
    {
        total(self.hand.as_slice())
    }

    /// The automated decision for this player's hand against the dealer's
    /// visible card, straight from the strategy table.
    pub fn turn(&self, dealer_visible_card: &Card) -> (p: Play)
        requires
            11 * self.hand@.len() <= usize::MAX,
        ensures
            p == ai::decide(hand_total(self.hand@), dealer_visible_card.value_spec()),
    {
        let own_total = total(self.hand.as_slice());
        let dealer_value = dealer_visible_card.value();
        ai::decide_play(own_total, dealer_value)
    }

    pub fn add_card(&mut self, card: &Card)
        ensures
            final(self).hand@ == old(self).hand@.push(*card),
            final(self).name == old(self).name,
            final(self).is_dealer == old(self).is_dealer,
            final(self).cash == old(self).cash,
    {
        self.hand.push(*card);
    }

    /// Takes one dealt card into the hand.
    pub fn deal_card(&mut self, card: Card)
        ensures
            final(self).hand@ == old(self).hand@.push(card),
            final(self).name == old(self).name,
            final(self).is_dealer == old(self).is_dealer,
            final(self).cash == old(self).cash,
    {
        self.hand.push(card);
    }

    /// A player keeps playing while the hand has not busted.
    pub fn can_keep_playing(&self) -> (r: bool)
        requires
            11 * self.hand@.len() <= usize::MAX,
        ensures
            r == (hand_total(self.hand@) <= 21),
    {
        total(self.hand.as_slice()) <= 21
    }

    /// Pays a settled amount into the bankroll.
    pub fn give_winnings(&mut self, cash: u32)
        requires
            old(self).cash + cash <= u32::MAX,
        ensures
            final(self).cash == old(self).cash + cash,
            final(self).name == old(self).name,
            final(self).is_dealer == old(self).is_dealer,
            final(self).hand == old(self).hand,
    {
        self.cash = self.cash + cash;
    }
}

/// The per-seat data a decision policy sees: the occupant's name, bankroll,
/// current wager, and cards.
#[derive(Debug)]
pub struct PlayerData {
    pub name: String,
    pub cash: u32,
    pub current_bet: u32,
    pub cards: Vec<Card>,
}

impl PlayerData {
    /// A fresh participant record with the session's starting bankroll.
    pub fn new(name: String) -> (data: PlayerData)
        ensures
            data.name == name,
            data.cash == 100,
            data.current_bet == 0,
            data.cards@ == Seq::<Card>::empty(),
    {
        PlayerData { name, cash: 100, current_bet: 0, cards: Vec::new() }
    }

    pub fn can_play(&self, betting: &Betting) -> (r: bool)
        ensures
            r == (self.cash >= betting.min_bet),
    {
        self.cash >= betting.min_bet
    }

    /// Validates and places a wager, debiting the bankroll by exactly the
    /// wager on success and changing nothing on failure.
    pub fn bet(&mut self, bet: u32, betting: &Betting) -> (r: Result<u32, BetError>)
        ensures
            r == validate_spec(bet, old(self).cash, *betting),
            r is Ok ==> final(self).cash == old(self).cash - bet,
            r is Err ==> final(self).cash == old(self).cash,
            final(self).name == old(self).name,
            final(self).current_bet == old(self).current_bet,
            final(self).cards == old(self).cards,
    {
        match validate(bet, self.cash, *betting) {
            Ok(amount) => {
                self.cash = self.cash - amount;
                Ok(amount)
            },
            Err(e) => Err(e),
        }
    }

    /// Pays a settled amount into the bankroll.
    pub fn give_winnings(&mut self, cash: u32)
        requires
            old(self).cash + cash <= u32::MAX,
        ensures
            final(self).cash == old(self).cash + cash,
            final(self).name == old(self).name,
            final(self).current_bet == old(self).current_bet,
            final(self).cards == old(self).cards,
    {
        self.cash = self.cash + cash;
    }

    pub fn deal_card(&mut self, card: Card)
        ensures
            final(self).cards@ == old(self).cards@.push(card),
            final(self).name == old(self).name,
            final(self).cash == old(self).cash,
            final(self).current_bet == old(self).current_bet,
    {
        self.cards.push(card);
    }

    /// The actions open right now: hit and stand always, doubling only on
    /// the initial two cards. Splitting is never offered.
    pub fn possible_plays(&self) -> (plays: Vec<Play>)
        ensures
            self.cards@.len() == 2 ==> plays@ == seq![Play::Hit, Play::Stand, Play::Double],
            self.cards@.len() != 2 ==> plays@ == seq![Play::Hit, Play::Stand],
    {
        let mut plays = Vec::new();
        plays.push(Play::Hit);
        plays.push(Play::Stand);
        if self.can_double() {
            plays.push(Play::Double);
        }
        proof {
            if self.cards@.len() == 2 {
                assert(plays@ =~= seq![Play::Hit, Play::Stand, Play::Double]);
            } else {
                assert(plays@ =~= seq![Play::Hit, Play::Stand]);
            }
        }
        plays
    }

    /// Doubling is only available on the initial two-card hand.
    pub fn can_double(&self) -> (r: bool)
        ensures
            r == (self.cards@.len() == 2),
    {
        self.cards.len() == 2
    }

    /// Splitting a pair is recognized but unsupported; no hand can split.
    pub fn can_split(&self) -> (r: bool)
        ensures
            r == false,
    {
        false
    }
}

} // verus!
