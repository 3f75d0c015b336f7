use black_jack::betting::BetError::{NotEnoughCash, TooLarge, TooSmall};
use black_jack::betting::Betting;
use black_jack::betting::Play::{Double, Hit, Stand};
use black_jack::card::Card;
use black_jack::card::CardRank::{
    Ace, Eight, Five, Four, King, Nine, Queen, Seven, Six, Ten, Three,
};
use black_jack::card::Suit::{Clubs, Diamonds, Hearts, Spades};
use black_jack::player::Player;

#[test]
fn player_hits_properly_below_8() {
    let mut player = Player::new(String::from("Landon"), false, 0);
    player.add_card(&Card { suit: Diamonds, rank: Three });
    player.add_card(&Card { suit: Spades, rank: Three });

    let dealer_card = Card { suit: Hearts, rank: Three };

    let turn = player.turn(&dealer_card);

    assert_eq!(turn, Hit);
}

#[test]
fn player_hits_on_8() {
    let mut player = Player::new(String::from("P1"), false, 0);
    player.add_card(&Card { suit: Hearts, rank: Four });
    player.add_card(&Card { suit: Clubs, rank: Four });

    let dealer_card = Card { suit: Spades, rank: Five };
    let turn = player.turn(&dealer_card);
    assert_eq!(turn, Hit);
}

#[test]
fn player_doubles_on_9_vs_6() {
    let mut player = Player::new(String::from("P2"), false, 0);
    player.add_card(&Card { suit: Hearts, rank: Five });
    player.add_card(&Card { suit: Clubs, rank: Four });

    let dealer_card = Card { suit: Spades, rank: Six };
    let turn = player.turn(&dealer_card);
    assert_eq!(turn, Double);
}

#[test]
fn player_hits_on_9_vs_10() {
    let mut player = Player::new(String::from("P3"), false, 0);
    player.add_card(&Card { suit: Hearts, rank: Five });
    player.add_card(&Card { suit: Clubs, rank: Four });

    let dealer_card = Card { suit: Spades, rank: Ten };
    let turn = player.turn(&dealer_card);
    assert_eq!(turn, Hit);
}

#[test]
fn player_doubles_on_10_vs_9() {
    let mut player = Player::new(String::from("P4"), false, 0);
    player.add_card(&Card { suit: Hearts, rank: Six });
    player.add_card(&Card { suit: Clubs, rank: Four });

    let dealer_card = Card { suit: Spades, rank: Nine };
    let turn = player.turn(&dealer_card);
    assert_eq!(turn, Double);
}

#[test]
fn player_hits_on_10_vs_10() {
    let mut player = Player::new(String::from("P5"), false, 0);
    player.add_card(&Card { suit: Hearts, rank: Six });
    player.add_card(&Card { suit: Clubs, rank: Four });

    let dealer_card = Card { suit: Spades, rank: King };
    let turn = player.turn(&dealer_card);
    assert_eq!(turn, Hit);
}

#[test]
fn player_always_doubles_on_11() {
    let mut player = Player::new(String::from("P6"), false, 0);
    player.add_card(&Card { suit: Hearts, rank: Six });
    player.add_card(&Card { suit: Clubs, rank: Five });

    let dealer_card = Card { suit: Spades, rank: Queen };
    let turn = player.turn(&dealer_card);
    assert_eq!(turn, Double);
}

#[test]
fn player_stands_on_12_vs_4() {
    let mut player = Player::new(String::from("P7"), false, 0);
    player.add_card(&Card { suit: Hearts, rank: Seven });
    player.add_card(&Card { suit: Clubs, rank: Five });

    let dealer_card = Card { suit: Spades, rank: Four };
    let turn = player.turn(&dealer_card);
    assert_eq!(turn, Stand);
}

#[test]
fn player_hits_on_12_vs_3() {
    let mut player = Player::new(String::from("P8"), false, 0);
    player.add_card(&Card { suit: Hearts, rank: Seven });
    player.add_card(&Card { suit: Clubs, rank: Five });

    let dealer_card = Card { suit: Spades, rank: Three };
    let turn = player.turn(&dealer_card);
    assert_eq!(turn, Hit);
}

#[test]
fn player_stands_on_15_vs_5() {
    let mut player = Player::new(String::from("P9"), false, 0);
    player.add_card(&Card { suit: Hearts, rank: Eight });
    player.add_card(&Card { suit: Clubs, rank: Seven });

    let dealer_card = Card { suit: Spades, rank: Five };
    let turn = player.turn(&dealer_card);
    assert_eq!(turn, Stand);
}

#[test]
fn player_hits_on_15_vs_10() {
    let mut player = Player::new(String::from("P10"), false, 0);
    player.add_card(&Card { suit: Hearts, rank: Eight });
    player.add_card(&Card { suit: Clubs, rank: Seven });

    let dealer_card = Card { suit: Spades, rank: Queen };
    let turn = player.turn(&dealer_card);
    assert_eq!(turn, Hit);
}

#[test]
fn player_stands_on_17_vs_ace() {
    let mut player = Player::new(String::from("P11"), false, 0);
    player.add_card(&Card { suit: Hearts, rank: Ten });
    player.add_card(&Card { suit: Clubs, rank: Seven });

    let dealer_card = Card { suit: Spades, rank: Ace };
    let turn = player.turn(&dealer_card);
    assert_eq!(turn, Stand);
}

#[test]
fn player_hits_on_16_vs_ace() {
    let mut player = Player::new(String::from("P12"), false, 0);
    player.add_card(&Card { suit: Hearts, rank: Nine });
    player.add_card(&Card { suit: Clubs, rank: Seven });

    let dealer_card = Card { suit: Spades, rank: Ace };
    let turn = player.turn(&dealer_card);
    assert_eq!(turn, Hit);
}

#[test]
fn player_can_play() {
    let player = Player::new(String::from("P13"), false, 100);
    let betting = Betting { min_bet: 10, max_bet: 20 };

    let result = player.can_play(betting);

    assert_eq!(result, true);
}

#[test]
fn player_cannot_play() {
    let player = Player::new(String::from("P13"), false, 100);
    let betting = Betting { min_bet: 1000000, max_bet: 2000000 };

    let result = player.can_play(betting);

    assert_eq!(result, false);
}

#[test]
fn player_bets_valid_amount() {
    let mut player = Player::new(String::from("Landon"), false, 100);
    let betting = Betting { min_bet: 10, max_bet: 50 };

    // Player has enough cash and bet is within the valid range
    let result = player.bet(betting, 30);
    assert_eq!(result, Ok(30));
    assert_eq!(player.cash, 70); // Player's cash should decrease by the bet amount
}

#[test]
fn player_bets_too_small() {
    let mut player = Player::new(String::from("Landon"), false, 100);
    let betting = Betting { min_bet: 10, max_bet: 50 };

    // Bet is too small (below min_bet)
    let result = player.bet(betting, 5);
    assert_eq!(result, Err(TooSmall));
    assert_eq!(player.cash, 100); // Player's cash should remain unchanged
}

#[test]
fn player_bets_too_large() {
    let mut player = Player::new(String::from("Landon"), false, 100);
    let betting = Betting { min_bet: 10, max_bet: 50 };

    // Bet is too large (above max_bet)
    let result = player.bet(betting, 60);
    assert_eq!(result, Err(TooLarge));
    assert_eq!(player.cash, 100); // Player's cash should remain unchanged
}

#[test]
fn player_bets_insufficient_cash() {
    let mut player = Player::new(String::from("Landon"), false, 100);
    let betting = Betting { min_bet: 10, max_bet: 50 };

    // Bet exceeds the player's available cash
    let result = player.bet(betting, 200);
    assert_eq!(result, Err(NotEnoughCash));
    assert_eq!(player.cash, 100); // Player's cash should remain unchanged
}

#[test]
fn player_bets_exact_min_bet() {
    let mut player = Player::new(String::from("Landon"), false, 100);
    let betting = Betting { min_bet: 10, max_bet: 50 };

    // Bet is exactly equal to the min_bet
    let result = player.bet(betting, 10);
    assert_eq!(result, Ok(10));
    assert_eq!(player.cash, 90); // Player's cash should decrease by the bet amount
}

#[test]
fn player_bets_exact_max_bet() {
    let mut player = Player::new(String::from("Landon"), false, 100);
    let betting = Betting { min_bet: 10, max_bet: 50 };

    // Bet is exactly equal to the max_bet
    let result = player.bet(betting, 50);
    assert_eq!(result, Ok(50));
    assert_eq!(player.cash, 50); // Player's cash should decrease by the bet amount
}

#[test]
fn player_hits_properly() {
    let player = Player::new(String::from("Landon"), false, 0);
    let dealer_card = Card { suit: Hearts, rank: Three };

    let turn = player.turn(&dealer_card);

    assert_eq!(turn, Hit);
}
