use black_jack::betting::Play::{Hit, Split, Stand};
use black_jack::betting::{ActionError, BetError, Betting};
use black_jack::card::Card;
use black_jack::card::CardRank::{Five, Nine, Seven, Six, Ten, Two};
use black_jack::card::Suit::{Clubs, Diamonds, Hearts, Spades};
use black_jack::deck::Deck;
use black_jack::game::Game;
use black_jack::game::dealer::Dealer;
use black_jack::player::Player;
use black_jack::table::Table;
use black_jack::table::seat::{RoundStatus, Seat};

fn plain_deck(count: usize) -> Deck {
    Deck { cards: vec![Card::new(Clubs, Two); count], discard: Vec::new(), break_card_position: 0 }
}

fn seated(cards: Vec<Card>, bet: u32, cash: u32) -> Seat {
    Seat {
        player: Some(Player::new("P".to_string(), false, cash)),
        round_status: RoundStatus::Dealt,
        current_bet: bet,
        cards,
    }
}

#[test]
fn eleven_against_a_nine_doubles_and_ends_the_turn() {
    let mut seats = vec![seated(
        vec![Card::new(Spades, Six), Card::new(Hearts, Five)],
        10,
        100,
    )];
    for _ in 0..5 {
        seats.push(Seat::new());
    }
    let mut game = Game {
        betting: Betting { min_bet: 10, max_bet: 100 },
        deck: plain_deck(30),
        seats,
        dealer: Dealer { cards: vec![Card::new(Clubs, Ten), Card::new(Diamonds, Nine)] },
    };

    game.play_seat(0);

    let seat = &game.seats[0];
    assert!(matches!(
        seat.round_status,
        RoundStatus::Busted | RoundStatus::DoubledStand
    ));
    assert_eq!(seat.cards.len(), 3);
    assert_eq!(seat.current_bet, 20);
    assert_eq!(seat.player.as_ref().unwrap().cash, 90);
}

#[test]
fn dealer_stands_at_seventeen_and_hits_below() {
    let mut standing = Dealer { cards: vec![Card::new(Clubs, Ten), Card::new(Diamonds, Seven)] };
    assert_eq!(standing.turn(), Stand);

    let mut hitting = Dealer { cards: vec![Card::new(Clubs, Ten), Card::new(Diamonds, Six)] };
    assert_eq!(hitting.turn(), Hit);
    assert_eq!(hitting.face_up_card().rank, Six);
}

#[test]
fn split_is_recognized_but_unsupported() {
    let mut seat = seated(vec![Card::new(Spades, Six), Card::new(Hearts, Five)], 10, 100);
    let mut deck = plain_deck(5);
    let result = seat.apply_action(Split, &mut deck);
    assert_eq!(result, Err(ActionError::NotImplemented));
    assert_eq!(seat.cards.len(), 2);
    assert_eq!(seat.current_bet, 10);
}

#[test]
fn standing_ends_the_turn_without_a_draw() {
    let mut seat = seated(vec![Card::new(Spades, Ten), Card::new(Hearts, Seven)], 10, 100);
    let mut deck = plain_deck(5);
    assert_eq!(seat.apply_action(Stand, &mut deck), Ok(()));
    assert!(matches!(seat.round_status, RoundStatus::Stood));
    assert_eq!(deck.cards.len(), 5);
}

#[test]
fn hitting_past_twenty_one_busts() {
    let mut seat = seated(vec![Card::new(Spades, Ten), Card::new(Hearts, Ten)], 10, 100);
    let mut deck = plain_deck(5);
    assert_eq!(seat.apply_action(Hit, &mut deck), Ok(()));
    assert!(matches!(seat.round_status, RoundStatus::Busted));
    assert_eq!(seat.cards.len(), 3);
    assert_eq!(deck.cards.len(), 4);
}

#[test]
fn a_full_round_returns_every_card_to_the_shoe() {
    let mut game = Game::new();
    game.generate_players();

    for index in 0..6 {
        assert_eq!(game.place_bet(index, 10), Ok(10));
    }
    game.initialize_round();
    for index in 0..6 {
        assert_eq!(game.seats[index].cards.len(), 2);
    }
    assert_eq!(game.dealer.cards.len(), 2);

    for index in 0..6 {
        game.play_seat(index);
        assert!(matches!(
            game.seats[index].round_status,
            RoundStatus::Stood | RoundStatus::Busted | RoundStatus::DoubledStand
        ));
    }
    game.play_dealer();
    game.settle_round();

    assert_eq!(game.dealer.cards.len(), 0);
    for index in 0..6 {
        let seat = &game.seats[index];
        assert_eq!(seat.cards.len(), 0);
        assert_eq!(seat.current_bet, 0);
        assert!(matches!(seat.round_status, RoundStatus::AwaitingBet));
    }
    assert_eq!(game.deck.cards.len() + game.deck.discard.len(), 312);
}

#[test]
fn add_and_remove_players_fill_and_free_seats() {
    let mut game = Game::new();
    assert!(game.add_player(Player::new("A".to_string(), false, 100)));
    assert!(game.seats[0].has_player());

    for _ in 0..5 {
        assert!(game.add_player(Player::new("B".to_string(), false, 100)));
    }
    assert!(!game.add_player(Player::new("C".to_string(), false, 100)));

    game.remove_player(0);
    assert!(!game.seats[0].has_player());
    assert!(game.add_player(Player::new("D".to_string(), false, 100)));
}

#[test]
fn rejected_bets_leave_the_game_untouched() {
    let mut game = Game::new();
    game.generate_players();
    assert_eq!(game.place_bet(0, 5), Err(BetError::TooSmall));
    assert_eq!(game.place_bet(0, 200), Err(BetError::NotEnoughCash));
    assert_eq!(game.seats[0].current_bet, 0);
    assert_eq!(game.seats[0].player.as_ref().unwrap().cash, 100);
}

#[test]
fn table_create_seats_the_given_players_in_order() {
    let players = vec![
        Player::new("A".to_string(), false, 100),
        Player::new("B".to_string(), false, 100),
    ];
    let table = Table::create(Betting { min_bet: 10, max_bet: 100 }, Deck::new(1), players);
    assert_eq!(table.seats.len(), 2);
    assert!(table.seats[0].has_player());
    assert!(table.seats[1].has_player());
    assert_eq!(table.seats[0].current_bet, 0);
}

#[test]
fn a_new_table_has_six_empty_seats() {
    let table = Table::new(10, 100);
    assert_eq!(table.seats.len(), 6);
    for seat in &table.seats {
        assert!(!seat.has_player());
    }
    assert_eq!(table.deck.cards.len(), 312);
    assert_eq!(table.betting.min_bet, 10);
    assert_eq!(table.betting.max_bet, 100);
}

#[test]
fn settling_pays_a_win_double_and_a_push_back() {
    let winner = seated(vec![Card::new(Spades, Ten), Card::new(Hearts, Nine)], 10, 90);
    let pusher = seated(vec![Card::new(Clubs, Ten), Card::new(Diamonds, Seven)], 10, 90);
    let loser = seated(vec![Card::new(Spades, Ten), Card::new(Hearts, Five)], 10, 90);
    let mut seats = vec![winner, pusher, loser];
    for seat in seats.iter_mut() {
        seat.round_status = RoundStatus::Stood;
    }
    let mut game = Game {
        betting: Betting { min_bet: 10, max_bet: 100 },
        deck: plain_deck(10),
        seats,
        dealer: Dealer { cards: vec![Card::new(Clubs, Ten), Card::new(Diamonds, Seven)] },
    };

    game.settle_round();

    // Dealer total is 17: 19 wins, 17 pushes, 15 loses.
    assert_eq!(game.seats[0].player.as_ref().unwrap().cash, 110);
    assert_eq!(game.seats[1].player.as_ref().unwrap().cash, 100);
    assert_eq!(game.seats[2].player.as_ref().unwrap().cash, 90);
    assert_eq!(game.deck.cards.len() + game.deck.discard.len(), 18);
}

#[test]
fn automated_bets_debit_what_they_record() {
    let mut game = Game::new();
    game.generate_players();
    let wager = game.place_automated_bet(1);
    assert!([10, 25, 50, 75, 100].contains(&wager));
    assert_eq!(game.seats[1].current_bet, wager);
    assert_eq!(game.seats[1].player.as_ref().unwrap().cash, 100 - wager);
}

#[test]
fn cut_card_policy_reshuffles_only_past_the_cut() {
    let mut game = Game::new();
    let cut = game.deck.break_card_position;

    game.reshuffle_if_cut_card_reached();
    assert_eq!(game.deck.cards.len(), 312);
    assert_eq!(game.deck.discard.len(), 0);

    for _ in 0..=cut {
        let card = game.deck.deal_card();
        game.deck.add_to_discard_pile(card);
    }
    assert!(game.deck.discard.len() > game.deck.break_card_position);

    game.reshuffle_if_cut_card_reached();
    assert_eq!(game.deck.discard.len(), 0);
    assert_eq!(game.deck.cards.len(), 312);
}

#[test]
fn a_standing_hand_takes_no_card() {
    let mut seats = vec![seated(
        vec![Card::new(Spades, Ten), Card::new(Hearts, Nine)],
        10,
        100,
    )];
    for _ in 0..5 {
        seats.push(Seat::new());
    }
    let mut game = Game {
        betting: Betting { min_bet: 10, max_bet: 100 },
        deck: plain_deck(30),
        seats,
        dealer: Dealer { cards: vec![Card::new(Clubs, Ten), Card::new(Diamonds, Nine)] },
    };

    game.play_seat(0);

    assert!(matches!(game.seats[0].round_status, RoundStatus::Stood));
    assert_eq!(game.seats[0].cards.len(), 2);
    assert_eq!(game.deck.cards.len(), 30);
}

#[test]
fn a_dealer_already_at_seventeen_takes_no_card() {
    let mut game = Game {
        betting: Betting { min_bet: 10, max_bet: 100 },
        deck: plain_deck(30),
        seats: vec![Seat::new()],
        dealer: Dealer { cards: vec![Card::new(Clubs, Ten), Card::new(Diamonds, Seven)] },
    };
    game.play_dealer();
    assert_eq!(game.dealer.cards.len(), 2);
    assert_eq!(game.deck.cards.len(), 30);
}
