use black_jack::betting::{BetError, Betting, Play};
use black_jack::betting::Play::{Double, Hit, Stand};
use black_jack::card::Card;
use black_jack::card::CardRank::{Ace, Five, Nine, Six, Ten, Three, Two};
use black_jack::card::Suit::{Clubs, Hearts, Spades};
use black_jack::player::ai::{bet, decide_play, risky_bet_amount, turn};
use black_jack::player::{PlayerData, total};

#[test]
fn total_counts_plain_cards_at_face_value() {
    let cards = vec![Card::new(Hearts, Ten), Card::new(Spades, Three)];
    assert_eq!(total(&cards), 13);
}

#[test]
fn total_reports_a_busted_sum_unchanged() {
    let cards = vec![Card::new(Hearts, Ten), Card::new(Spades, Three), Card::new(Spades, Ten)];
    assert_eq!(total(&cards), 23);
}

#[test]
fn total_keeps_an_ace_high_when_it_fits() {
    let cards = vec![Card::new(Hearts, Ten), Card::new(Spades, Ace)];
    assert_eq!(total(&cards), 21);
}

#[test]
fn total_softens_every_ace_when_the_sum_busts() {
    let cards = vec![Card::new(Hearts, Ten), Card::new(Spades, Ace), Card::new(Spades, Two)];
    assert_eq!(total(&cards), 13);
}

#[test]
fn eleven_doubles_against_every_dealer_card_but_an_ace() {
    for dealer_value in 2..=10 {
        assert_eq!(decide_play(11, dealer_value), Double);
    }
    assert_eq!(decide_play(11, 11), Hit);
}

#[test]
fn twelve_stands_against_a_dealer_five() {
    assert_eq!(decide_play(12, 5), Stand);
}

#[test]
fn twelve_hits_against_a_dealer_three() {
    assert_eq!(decide_play(12, 3), Hit);
}

#[test]
fn seventeen_through_twenty_one_always_stand() {
    for own_total in 17..=21 {
        for dealer_value in 2..=11 {
            assert_eq!(decide_play(own_total, dealer_value), Stand);
        }
    }
}

#[test]
fn automated_turn_reads_the_hand_and_the_visible_card() {
    let mut data = PlayerData::new("A".to_string());
    data.deal_card(Card::new(Hearts, Six));
    data.deal_card(Card::new(Clubs, Five));
    assert_eq!(turn(&data, &Card::new(Spades, Nine)), Double);
}

#[test]
fn risky_bet_caps_at_the_table_maximum() {
    let limits = Betting { min_bet: 10, max_bet: 50 };
    assert_eq!(risky_bet_amount(100, &limits, 96), 50);
    assert_eq!(risky_bet_amount(40, &limits, 96), 40);
}

#[test]
fn risky_bet_takes_rounded_fractions_of_the_bankroll() {
    let limits = Betting { min_bet: 10, max_bet: 100 };
    assert_eq!(risky_bet_amount(100, &limits, 80), 75);
    assert_eq!(risky_bet_amount(100, &limits, 60), 50);
    assert_eq!(risky_bet_amount(100, &limits, 10), 25);
    // 0.75 * 9 = 6.75 rounds up; 0.5 * 9 = 4.5 rounds up; 0.25 * 9 = 2.25
    // rounds down.
    assert_eq!(risky_bet_amount(9, &limits, 80), 7);
    assert_eq!(risky_bet_amount(9, &limits, 60), 5);
    assert_eq!(risky_bet_amount(9, &limits, 10), 2);
}

#[test]
fn automated_bet_debits_exactly_what_it_wagers() {
    let limits = Betting { min_bet: 10, max_bet: 100 };
    let mut data = PlayerData::new("A".to_string());
    let wager = bet(&mut data, &limits);
    assert_eq!(data.cash, 100 - wager);
    assert!([10, 25, 50, 75, 100].contains(&wager));
}

#[test]
fn possible_plays_offer_doubling_only_on_two_cards() {
    let mut data = PlayerData::new("A".to_string());
    data.deal_card(Card::new(Hearts, Six));
    assert_eq!(data.possible_plays(), vec![Play::Hit, Play::Stand]);
    data.deal_card(Card::new(Clubs, Five));
    assert_eq!(data.possible_plays(), vec![Play::Hit, Play::Stand, Play::Double]);
    data.deal_card(Card::new(Clubs, Two));
    assert_eq!(data.possible_plays(), vec![Play::Hit, Play::Stand]);
    assert!(!data.can_split());
}

#[test]
fn player_data_bet_and_winnings_move_the_bankroll() {
    let limits = Betting { min_bet: 10, max_bet: 50 };
    let mut data = PlayerData::new("A".to_string());
    assert_eq!(data.bet(30, &limits), Ok(30));
    assert_eq!(data.cash, 70);
    assert_eq!(data.bet(5, &limits), Err(BetError::TooSmall));
    assert_eq!(data.cash, 70);
    data.give_winnings(60);
    assert_eq!(data.cash, 130);
}
