use poker::cards::suit::Suit;
use poker::cards::traits::shoe::Shoe as ShoeTrait;
use poker::cards::traits::shoe::ShoeError;
use poker::cards::traits::value::Value;
use poker::games::baccarat::card::Card;
use poker::games::baccarat::game::{Game, Winner};
use poker::games::baccarat::hand::{Hand, Hands};
use poker::games::baccarat::number::Number;
use poker::games::baccarat::rule::{
    contain_natural, is_natural, should_banker_hit, should_player_hit,
};

fn card(number: Number) -> Card {
    Card::new(Suit::Heart, number)
}

fn number_of(value: i32) -> Number {
    match value {
        0 => Number::Queen,
        1 => Number::Ace,
        2 => Number::Two,
        3 => Number::Three,
        4 => Number::Four,
        5 => Number::Five,
        6 => Number::Six,
        7 => Number::Seven,
        8 => Number::Eight,
        _ => Number::Nine,
    }
}

fn hand_of(total: i32) -> Hand {
    Hand::new(card(Number::King), card(number_of(total)))
}

fn game_dealing(numbers: &[Number]) -> Game {
    let mut game = Game::new(2);
    for number in numbers.iter() {
        assert_eq!(game.shoe.set_card(&card(*number)), Ok(()));
    }
    game.shoe.reset_card_idx();
    game
}

#[test]
fn card_values_are_the_points_of_baccarat() {
    let expected = [
        (Number::Ace, 1),
        (Number::Two, 2),
        (Number::Three, 3),
        (Number::Four, 4),
        (Number::Five, 5),
        (Number::Six, 6),
        (Number::Seven, 7),
        (Number::Eight, 8),
        (Number::Nine, 9),
        (Number::Ten, 0),
        (Number::Jack, 0),
        (Number::Queen, 0),
        (Number::King, 0),
    ];
    for (number, value) in expected.iter() {
        assert_eq!(number.value(), *value);
        assert_eq!(Card::new(Suit::Club, *number).value(), *value);
    }
}

#[test]
fn hand_new_holds_two_cards() {
    let hand = Hand::new(card(Number::Six), card(Number::Eight));
    assert_eq!(hand.first.number, Number::Six);
    assert_eq!(hand.second.number, Number::Eight);
    assert!(hand.third.is_none());
    assert_eq!(hand.value(), 4);
    let hands = Hands::new(Some(hand), None);
    assert_eq!(hands.player.unwrap().value(), 4);
    assert!(hands.banker.is_none());
}

#[test]
fn ace_three_loses_to_two_four_on_points() {
    let player = Hand::new(card(Number::Ace), card(Number::Three));
    let banker = Hand::new(card(Number::Two), card(Number::Four));
    assert_eq!(player.value(), 4);
    assert_eq!(banker.value(), 6);
    assert!(player.value() < banker.value());
    assert!(!contain_natural(&player, &banker));
}

#[test]
fn naturals_are_eight_and_nine() {
    for total in 0..10 {
        assert_eq!(is_natural(&hand_of(total)), total == 8 || total == 9);
        assert_eq!(should_player_hit(&hand_of(total)), total <= 5);
        assert_eq!(
            contain_natural(&hand_of(total), &hand_of(3)),
            total == 8 || total == 9
        );
        assert_eq!(
            contain_natural(&hand_of(3), &hand_of(total)),
            total == 8 || total == 9
        );
    }
}

#[test]
fn banker_follows_the_table() {
    for total in 0..10 {
        assert_eq!(should_banker_hit(&None, &hand_of(total)), total <= 5);
        for third in 0..10 {
            let expected = match total {
                0 | 1 | 2 => true,
                3 => third != 8,
                4 => (2..=7).contains(&third),
                5 => (4..=7).contains(&third),
                6 => third == 6 || third == 7,
                _ => false,
            };
            let player_third = Some(card(number_of(third)));
            assert_eq!(should_banker_hit(&player_third, &hand_of(total)), expected);
        }
    }
}

#[test]
fn new_game_has_a_fresh_shoe() {
    let game = Game::new(3);
    assert_eq!(game.shoe.deck_num, 3);
    assert_eq!(game.shoe.cards.len(), 156);
    assert_eq!(game.shoe.get_card_idx(), 0);
    assert!(game.hands.player.is_none());
    assert!(game.hands.banker.is_none());
    assert!(game.results.is_empty());
}

#[test]
fn first_round_of_a_fresh_shoe() {
    let mut game = Game::new(1);
    assert_eq!(game.play_one_round(), Ok(()));
    assert_eq!(game.shoe.get_card_idx(), 5);
    assert_eq!(game.results.len(), 1);
    assert!(game.hands.player.is_none());
    assert!(game.hands.banker.is_none());
    let result = &game.results[0];
    let player = result.hands.player.unwrap();
    let banker = result.hands.banker.unwrap();
    assert_eq!(player.first.number, Number::Ace);
    assert_eq!(player.second.number, Number::Three);
    assert_eq!(player.third.unwrap().number, Number::Five);
    assert_eq!(banker.first.number, Number::Two);
    assert_eq!(banker.second.number, Number::Four);
    assert!(banker.third.is_none());
    assert_eq!(player.value(), 9);
    assert_eq!(banker.value(), 6);
    assert_eq!(result.winner, Winner::PLAYER);
}

#[test]
fn six_eight_against_seven_nine() {
    let mut game = game_dealing(&[
        Number::Six,
        Number::Seven,
        Number::Eight,
        Number::Nine,
        Number::Ten,
    ]);
    assert_eq!(game.play_one_round(), Ok(()));
    let result = game.results.last().unwrap();
    let player = result.hands.player.unwrap();
    let banker = result.hands.banker.unwrap();
    assert_eq!(player.third.unwrap().number, Number::Ten);
    assert!(banker.third.is_none());
    assert_eq!(player.value(), 4);
    assert_eq!(banker.value(), 6);
    assert_eq!(result.winner, Winner::BANKER);
    assert_eq!(game.shoe.get_card_idx(), 5);
}

#[test]
fn a_natural_ends_the_round() {
    let mut game = game_dealing(&[Number::Four, Number::Two, Number::Four, Number::Ace]);
    assert_eq!(game.play_one_round(), Ok(()));
    let result = game.results.last().unwrap();
    let player = result.hands.player.unwrap();
    let banker = result.hands.banker.unwrap();
    assert_eq!(player.value(), 8);
    assert_eq!(banker.value(), 3);
    assert!(player.third.is_none());
    assert!(banker.third.is_none());
    assert_eq!(result.winner, Winner::PLAYER);
    assert_eq!(game.shoe.get_card_idx(), 4);

    let mut game = game_dealing(&[Number::Ace, Number::Nine, Number::Ace, Number::King]);
    assert_eq!(game.play_one_round(), Ok(()));
    let result = game.results.last().unwrap();
    assert!(result.hands.player.unwrap().third.is_none());
    assert!(result.hands.banker.unwrap().third.is_none());
    assert_eq!(result.winner, Winner::BANKER);
    assert_eq!(game.shoe.get_card_idx(), 4);
}

#[test]
fn both_hands_take_a_third_card() {
    let mut game = game_dealing(&[
        Number::Jack,
        Number::Queen,
        Number::King,
        Number::Ace,
        Number::Two,
        Number::Three,
    ]);
    assert_eq!(game.play_one_round(), Ok(()));
    let result = game.results.last().unwrap();
    let player = result.hands.player.unwrap();
    let banker = result.hands.banker.unwrap();
    assert_eq!(player.third.unwrap().number, Number::Two);
    assert_eq!(banker.third.unwrap().number, Number::Three);
    assert_eq!(player.value(), 2);
    assert_eq!(banker.value(), 4);
    assert_eq!(result.winner, Winner::BANKER);
    assert_eq!(game.shoe.get_card_idx(), 6);
}

#[test]
fn banker_alone_takes_a_third_card() {
    let mut game = game_dealing(&[
        Number::Three,
        Number::Two,
        Number::Four,
        Number::Three,
        Number::Two,
    ]);
    assert_eq!(game.play_one_round(), Ok(()));
    let result = game.results.last().unwrap();
    let player = result.hands.player.unwrap();
    let banker = result.hands.banker.unwrap();
    assert!(player.third.is_none());
    assert_eq!(banker.third.unwrap().number, Number::Two);
    assert_eq!(player.value(), 7);
    assert_eq!(banker.value(), 7);
    assert_eq!(result.winner, Winner::TIE);
    assert_eq!(game.shoe.get_card_idx(), 5);
}

#[test]
fn rounds_are_recorded_in_order() {
    let mut game = Game::new(8);
    let expected = [
        Winner::PLAYER,
        Winner::BANKER,
        Winner::BANKER,
        Winner::PLAYER,
        Winner::BANKER,
        Winner::PLAYER,
        Winner::BANKER,
    ];
    for round in 0..expected.len() {
        assert_eq!(game.play_one_round(), Ok(()));
        assert_eq!(game.results.len(), round + 1);
    }
    for round in 0..expected.len() {
        assert_eq!(game.results[round].winner, expected[round]);
    }
    assert_eq!(game.shoe.get_card_idx(), 5 + 5 + 6 + 6 + 6 + 4 + 4);
}

#[test]
fn a_round_that_does_not_fit_changes_nothing() {
    let mut game = Game::new(1);
    let mut rounds = 0;
    loop {
        let before = game.shoe.get_card_idx();
        match game.play_one_round() {
            Ok(()) => {
                rounds += 1;
                assert_eq!(game.results.len(), rounds);
                assert!(game.shoe.get_card_idx() >= before + 4);
                assert!(game.shoe.get_card_idx() <= before + 6);
            }
            Err(error) => {
                assert_eq!(error, ShoeError::ExhaustedShoe);
                assert_eq!(game.shoe.get_card_idx(), before);
                assert_eq!(game.results.len(), rounds);
                assert!(game.hands.player.is_none());
                assert!(game.hands.banker.is_none());
                assert!(52 - before < 6);
                break;
            }
        }
    }
    assert!(rounds >= 8);
    assert_eq!(game.play_one_round(), Err(ShoeError::ExhaustedShoe));
    game.shoe.shuffle();
    assert_eq!(game.play_one_round(), Ok(()));
    assert_eq!(game.results.len(), rounds + 1);
}

#[test]
fn a_round_cut_short_by_the_shoe_is_taken_back() {
    let mut game = Game::new(1);
    for _ in 0..48 {
        game.shoe.inc_card_idx();
    }
    // ten, jack, queen and king are left: both hands count for nothing and ask for a card
    assert_eq!(game.play_one_round(), Err(ShoeError::ExhaustedShoe));
    assert_eq!(game.shoe.get_card_idx(), 48);
    assert!(game.results.is_empty());
    assert!(game.hands.player.is_none());
    assert!(game.hands.banker.is_none());
    for _ in 0..2 {
        game.shoe.inc_card_idx();
    }
    assert_eq!(game.play_one_round(), Err(ShoeError::ExhaustedShoe));
    assert_eq!(game.shoe.get_card_idx(), 50);
}
