use black_jack::card::Card;
use black_jack::card::CardRank::{
    Ace, Eight, Five, Four, Jack, King, Nine, Queen, Seven, Six, Ten, Three, Two,
};
use black_jack::card::Suit::{Clubs, Diamonds, Hearts, Spades};
use black_jack::deck::{ConfigurationError, Deck};

#[test]
fn fresh_shoe_holds_every_card_once_per_deck() {
    let mut deck = Deck::new(1);
    assert_eq!(deck.cards.len(), 52);
    assert_eq!(deck.discard.len(), 0);
    assert!(deck.break_card_position < 52);

    let mut drawn: Vec<Card> = Vec::new();
    for _ in 0..52 {
        drawn.push(deck.deal_card());
    }
    assert_eq!(deck.cards.len(), 0);
    assert_eq!(deck.discard.len(), 0);

    for suit in [Spades, Hearts, Diamonds, Clubs] {
        for rank in [
            Ace, Two, Three, Four, Five, Six, Seven, Eight, Nine, Ten, Jack, Queen, King,
        ] {
            let count = drawn.iter().filter(|c| c.suit == suit && c.rank == rank).count();
            assert_eq!(count, 1);
        }
    }
}

#[test]
fn pile_sizes_stay_balanced_through_draws_and_discards() {
    let mut deck = Deck::new(2);
    assert_eq!(deck.cards.len() + deck.discard.len(), 104);

    let mut held: Vec<Card> = Vec::new();
    for _ in 0..5 {
        held.push(deck.deal_card());
    }
    assert_eq!(deck.cards.len() + deck.discard.len() + held.len(), 104);

    for _ in 0..3 {
        deck.add_to_discard_pile(held.pop().unwrap());
    }
    assert_eq!(deck.cards.len() + deck.discard.len() + held.len(), 104);
}

#[test]
fn draw_after_exhaustion_reshuffles_and_yields_a_card() {
    let mut deck = Deck::new(1);
    let mut drawn: Vec<Card> = Vec::new();
    for _ in 0..52 {
        drawn.push(deck.deal_card());
    }
    for card in drawn {
        deck.add_to_discard_pile(card);
    }
    assert_eq!(deck.cards.len(), 0);
    assert_eq!(deck.discard.len(), 52);

    let _card = deck.deal_card();
    assert_eq!(deck.cards.len() + deck.discard.len(), 51);
    assert!(deck.break_card_position < 52);
}

#[test]
fn reset_merges_discard_back_into_the_draw_pile() {
    let mut deck = Deck::new(1);
    for _ in 0..10 {
        let card = deck.deal_card();
        deck.add_to_discard_pile(card);
    }
    assert_eq!(deck.cards.len(), 42);
    assert_eq!(deck.discard.len(), 10);

    deck.reset();
    assert_eq!(deck.cards.len(), 52);
    assert_eq!(deck.discard.len(), 0);
    assert!(deck.break_card_position < 52);
}

#[test]
fn batch_discard_moves_a_whole_hand() {
    let mut deck = Deck::new(1);
    let hand = vec![deck.deal_card(), deck.deal_card(), deck.deal_card()];
    deck.add_all_to_discard_pile(hand);
    assert_eq!(deck.cards.len(), 49);
    assert_eq!(deck.discard.len(), 3);
}

#[test]
fn build_rejects_a_zero_deck_count() {
    let result = Deck::build(0);
    assert_eq!(result.err(), Some(ConfigurationError::InvalidDeckCount));
}

#[test]
fn build_accepts_a_positive_deck_count() {
    let deck = Deck::build(3).unwrap();
    assert_eq!(deck.cards.len(), 156);
    assert_eq!(deck.discard.len(), 0);
}

#[test]
fn generate_builds_the_same_shoe_shape_as_new() {
    let deck = Deck::generate(2);
    assert_eq!(deck.cards.len(), 104);
    assert_eq!(deck.discard.len(), 0);
    assert!(deck.break_card_position < 104);
}
