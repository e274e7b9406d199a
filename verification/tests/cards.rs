use poker::cards::card::{all_cards, Card, ALL_CARDS_NUM};
use poker::cards::deck::Deck;
use poker::cards::number::{all_numbers, Number, ALL_NUMBER_NUM};
use poker::cards::shoe::Shoe;
use poker::cards::suit::{all_suits, Suit, ALL_SUIT_NUM};
use poker::cards::traits::deck::Deck as DeckTrait;
use poker::cards::traits::hash::{UniqueHash, ValueHash};
use poker::cards::traits::order::Order;
use poker::cards::traits::shoe::ShoeError;
use poker::cards::traits::value::Value as ValueTrait;
use poker::cards::value::Value;
use std::collections::HashMap;
use std::collections::HashSet;

#[test]
fn value_value_test() {
    assert_eq!(Value::Two, Value::Two);
    assert_ne!(Value::Two, Value::Three);
    assert!(Value::Two != Value::Three);
    assert!(Value::Two < Value::Three);
    assert!(Value::Three < Value::Four);
    assert!(Value::Four < Value::Five);
    assert!(Value::Five < Value::Six);
    assert!(Value::Six < Value::Seven);
    assert!(Value::Seven < Value::Eight);
    assert!(Value::Eight < Value::Nine);
    assert!(Value::Nine < Value::Ten);
    assert!(Value::Ten < Value::Jack);
    assert!(Value::Jack < Value::Queen);
    assert!(Value::Queen < Value::King);
    assert!(Value::King < Value::Ace);
}

#[test]
fn all_values_rise() {
    let values = Value::all_values();
    assert_eq!(values.len(), 13);
    assert_eq!(values[0], Value::Two);
    assert_eq!(values[8], Value::Ten);
    assert_eq!(values[12], Value::Ace);
    for idx in 1..values.len() {
        assert!(values[idx - 1] < values[idx]);
    }
}

#[test]
fn number_order_test() {
    assert_eq!(Number::Two.order(), Number::Two.order());
    assert_ne!(Number::Two.order(), Number::Three.order());
    assert!(Number::Three.order() != Number::Four.order());
    assert!(Number::King.order() != Number::Ten.order());
}

#[test]
fn number_value_test() {
    let num1 = Number::Ace;
    let num2 = Number::Ace;
    assert_eq!(num1.value(), num2.value());
    let num1 = Number::Two;
    let num2 = Number::Two;
    assert_eq!(num1.value(), num2.value());
}

#[test]
fn number_hash_test() {
    // value_hash
    let num1 = Number::Ace;
    let num2 = Number::Ace;
    assert_eq!(num1.value_hash(), num2.value_hash());
    let num1 = Number::Two;
    let num2 = Number::Two;
    assert_eq!(num1.value_hash(), num2.value_hash());
}

#[test]
fn number_order_value_and_hash_are_the_place() {
    let numbers = all_numbers();
    assert_eq!(numbers.len(), ALL_NUMBER_NUM);
    for idx in 0..ALL_NUMBER_NUM {
        assert_eq!(numbers[idx].order(), idx as u64);
        assert_eq!(numbers[idx].value(), idx as i32);
        assert_eq!(numbers[idx].value_hash(), idx as u32);
    }
    assert_eq!(Number::Ace.order(), 0);
    assert_eq!(Number::Ten.order(), 9);
    assert_eq!(Number::King.order(), 12);
}

#[test]
fn suit_order_test() {
    let suit1 = Suit::Spade;
    let suit2 = Suit::Spade;
    assert_eq!(suit1.order(), suit2.order());
    assert_ne!(Suit::Spade.order(), Suit::Heart.order());
    assert_ne!(Suit::Spade.order(), Suit::Diamond.order());
    assert_ne!(Suit::Spade.order(), Suit::Club.order());
}

#[test]
fn suit_value_test() {
    let suit1 = Suit::Spade;
    let suit2 = Suit::Spade;
    assert_eq!(suit1.value(), suit2.value());
    let suit1 = Suit::Heart;
    let suit2 = Suit::Heart;
    assert_eq!(suit1.value(), suit2.value());
}

#[test]
fn suit_hash_test() {
    // value_hash
    let suit1 = Suit::Spade;
    let suit2 = Suit::Spade;
    assert_eq!(suit1.value_hash(), suit2.value_hash());
    let suit1 = Suit::Heart;
    let suit2 = Suit::Heart;
    assert_eq!(suit1.value_hash(), suit2.value_hash());
}

#[test]
fn suit_order_value_and_hash_are_the_place() {
    let suits = all_suits();
    assert_eq!(suits.len(), ALL_SUIT_NUM);
    for idx in 0..ALL_SUIT_NUM {
        assert_eq!(suits[idx].order(), idx as u64);
        assert_eq!(suits[idx].value(), idx as i32);
        assert_eq!(suits[idx].value_hash(), idx as u32);
    }
    assert_eq!(Suit::Spade.order(), 0);
    assert_eq!(Suit::Heart.order(), 1);
    assert_eq!(Suit::Diamond.order(), 2);
    assert_eq!(Suit::Club.order(), 3);
}

#[test]
fn card_order_test() {
    let card1 = Card::new(Suit::Spade, Number::Ace);
    let card2 = Card::new(Suit::Spade, Number::Ace);
    assert_eq!(card1.order(), card2.order());
    assert_ne!(
        Card::new(Suit::Spade, Number::Ace).order(),
        Card::new(Suit::Spade, Number::Two).order()
    );
}

#[test]
fn card_value_test() {
    let card1 = Card::new(Suit::Spade, Number::Ace);
    let card2 = Card::new(Suit::Spade, Number::Ace);
    assert_eq!(card1.value(), card2.value());
    let card1 = Card::new(Suit::Spade, Number::Ace);
    let card2 = Card::new(Suit::Heart, Number::Ace);
    assert_eq!(card1.value(), card2.value());
    let card1 = Card::new(Suit::Spade, Number::Ace);
    let card2 = Card::new(Suit::Spade, Number::Two);
    assert_ne!(card1.value(), card2.value());
}

#[test]
fn card_hash_test() {
    // value_hash
    let card1 = Card::new(Suit::Spade, Number::Ace);
    let card2 = Card::new(Suit::Spade, Number::Ace);
    assert_eq!(card1.value_hash(), card2.value_hash());
    let card1 = Card::new(Suit::Spade, Number::Ace);
    let card2 = Card::new(Suit::Heart, Number::Ace);
    assert_ne!(card1.value_hash(), card2.value_hash());
    // unique_hash
    let card1 = Card::new(Suit::Spade, Number::Ace);
    let card2 = Card::new(Suit::Spade, Number::Ace);
    assert_ne!(card1.unique_hash(), card2.unique_hash());
    let card1 = Card::new(Suit::Spade, Number::Ace);
    let card2 = Card::new(Suit::Heart, Number::Ace);
    assert_ne!(card1.unique_hash(), card2.unique_hash());
}

#[test]
fn card_unique_hash_test() {
    // Every card has unique value.
    let mut hs = HashSet::new();
    let all_cards = all_cards();
    for card in all_cards {
        hs.insert(card.unique_hash());
    }
    assert_eq!(hs.len(), ALL_CARDS_NUM);
}

#[test]
fn card_order_is_suit_times_thirteen_plus_number() {
    assert_eq!(Card::new(Suit::Spade, Number::Ace).order(), 0);
    assert_eq!(Card::new(Suit::Spade, Number::King).order(), 12);
    assert_eq!(Card::new(Suit::Heart, Number::Ace).order(), 13);
    assert_eq!(Card::new(Suit::Diamond, Number::Five).order(), 30);
    assert_eq!(Card::new(Suit::Club, Number::King).order(), 51);
    assert_eq!(Card::new(Suit::Club, Number::King).value(), 12);
}

#[test]
fn all_cards_stand_in_their_order() {
    let cards = all_cards();
    assert_eq!(cards.len(), ALL_CARDS_NUM);
    assert_eq!(ALL_CARDS_NUM, 52);
    for (idx, card) in cards.iter().enumerate() {
        assert_eq!(card.order(), idx as u64);
    }
    assert_eq!(cards[14], Card::new(Suit::Heart, Number::Two));
}

#[test]
fn card_equality_ignores_the_token() {
    let card1 = Card::new(Suit::Heart, Number::Nine);
    let card2 = Card::new(Suit::Heart, Number::Nine);
    assert_ne!(card1.unique_hash(), card2.unique_hash());
    assert_eq!(card1, card2);
    assert_ne!(card1, Card::new(Suit::Heart, Number::Ten));
    assert_ne!(card1, Card::new(Suit::Club, Number::Nine));
}

#[test]
fn card_token_can_be_set_and_renewed() {
    let mut card = Card::new(Suit::Heart, Number::Nine);
    card.set_unique_hash(77);
    assert_eq!(card.unique_hash(), 77);
    assert_eq!(card.suit, Suit::Heart);
    assert_eq!(card.number, Number::Nine);
    card.update_unique_hash();
    assert_ne!(card.unique_hash(), 77);
    assert_eq!(card.suit, Suit::Heart);
    assert_eq!(card.number, Number::Nine);
    let hash = card.value_hash();
    card.set_unique_hash(1);
    assert_eq!(card.value_hash(), hash);
    assert_ne!(card.calculate_unique_hash_from_instance(), Card::calculate_unique_hash());
}

#[test]
fn value_hashes_of_the_deck_differ() {
    let mut hs = HashSet::new();
    for card in all_cards().iter() {
        hs.insert(card.value_hash());
    }
    assert_eq!(hs.len(), ALL_CARDS_NUM);
}

#[test]
fn deck_shuffle_test() {
    // card uniqueness
    let mut deck = Deck::new();
    let mut hs_value_hash = HashSet::new();
    let mut hs_unique_hash = HashSet::new();
    for card in deck.cards.iter() {
        hs_value_hash.insert(card.value_hash());
        hs_unique_hash.insert(card.unique_hash());
    }
    assert_eq!(hs_value_hash.len(), ALL_CARDS_NUM);
    assert_eq!(hs_unique_hash.len(), ALL_CARDS_NUM);

    // no card missing
    deck.shuffle();
    for card in deck.cards.iter() {
        assert!(hs_value_hash.contains(&card.value_hash()));
        assert!(hs_unique_hash.contains(&card.unique_hash()));
    }

    // shuffle from 1
    let mut diff = false;
    let card0 = deck.cards[0].unique_hash();
    for _ in 0..1000 {
        deck.shuffle_from(1);
        let card1 = deck.cards[0].unique_hash();
        if card0 != card1 {
            diff = true;
            break;
        }
    }
    assert!(!diff);

    // shuffle completely
    let mut diff = false;
    let card0 = deck.cards[0].unique_hash();
    for _ in 0..1000 {
        deck.shuffle();
        let card1 = deck.cards[0].unique_hash();
        if card0 != card1 {
            diff = true;
            break;
        }
    }
    assert!(diff);
}

#[test]
fn deck_swap_exchanges_two_cards() {
    let mut deck = Deck::new();
    assert_eq!(deck.card_num(), 52);
    let before = deck.clone();
    deck.swap(3, 40);
    assert_eq!(deck.cards[3].unique_hash(), before.cards[40].unique_hash());
    assert_eq!(deck.cards[40].unique_hash(), before.cards[3].unique_hash());
    for idx in 0..52 {
        if idx != 3 && idx != 40 {
            assert_eq!(deck.cards[idx].unique_hash(), before.cards[idx].unique_hash());
        }
    }
    deck.swap(7, 7);
    assert_eq!(deck.cards[7].unique_hash(), before.cards[7].unique_hash());
}

#[test]
fn shoe_unique_cards_test() {
    let deck_num = 8;
    let shoe = Shoe::new(deck_num);
    let mut map: HashMap<u64, usize> = HashMap::new();
    for card in shoe.cards.iter() {
        let value = map.entry(card.order()).or_insert(0);
        *value += 1;
    }
    let all_cards = all_cards();
    for card in all_cards.iter() {
        assert_eq!(*map.get(&card.order()).unwrap(), deck_num);
    }
}

#[test]
fn shoe_shuffle_test() {
    let deck_num = 8;
    let ref_shoe = Shoe::new(deck_num);

    // shuffle from middle
    let mut shoe = ref_shoe.clone();
    let shuffle_from = 5;
    shoe.shuffle_from(shuffle_from);
    for idx in 0..shuffle_from {
        assert_eq!(ref_shoe.cards[idx], shoe.cards[idx]);
    }

    // no shuffle
    let mut shoe = ref_shoe.clone();
    let shuffle_from = deck_num * 52;
    shoe.shuffle_from(shuffle_from);
    for idx in 0..shuffle_from {
        assert_eq!(ref_shoe.cards[idx], shoe.cards[idx]);
    }
}

#[test]
fn shoe_draw_test() {
    let ref_cards = all_cards();
    let deck_num = 8;
    let mut shoe = Shoe::new(deck_num);
    let card = shoe.draw().unwrap();
    assert_eq!(card, ref_cards[0]);
    assert_eq!(shoe.card_idx, 1);
    let cards = shoe.draw_two().unwrap();
    assert_eq!(cards[0], ref_cards[1]);
    assert_eq!(cards[1], ref_cards[2]);
    assert_eq!(shoe.card_idx, 3);
    let cards = shoe.draw_three().unwrap();
    assert_eq!(cards[0], ref_cards[3]);
    assert_eq!(cards[1], ref_cards[4]);
    assert_eq!(cards[2], ref_cards[5]);
    assert_eq!(shoe.card_idx, 6);
}

#[test]
fn plain_shoe_repeats_one_deck() {
    let shoe = Shoe::new(3);
    assert_eq!(shoe.cards.len(), 156);
    assert_eq!(shoe.card_idx, 0);
    for idx in 0..156 {
        assert_eq!(shoe.cards[idx].order(), (idx % 52) as u64);
        assert_eq!(shoe.cards[idx].unique_hash(), shoe.cards[idx % 52].unique_hash());
    }
    let empty = Shoe::new(0);
    assert_eq!(empty.cards.len(), 0);
}

#[test]
fn plain_shoe_shuffle_keeps_cards_and_position() {
    let mut shoe = Shoe::new(2);
    shoe.draw_four().unwrap();
    let mut before: Vec<u64> = shoe.cards.iter().map(|card| card.order()).collect();
    shoe.shuffle();
    assert_eq!(shoe.card_idx, 4);
    let mut after: Vec<u64> = shoe.cards.iter().map(|card| card.order()).collect();
    assert_ne!(before, after);
    before.sort();
    after.sort();
    assert_eq!(before, after);
    shoe.redraw();
    assert_eq!(shoe.card_idx, 0);
    assert_eq!(shoe.cards.len(), 104);
}

#[test]
fn plain_shoe_runs_out() {
    let mut shoe = Shoe::new(1);
    for _ in 0..12 {
        let cards = shoe.draw_four().unwrap();
        assert_eq!(cards.len(), 4);
    }
    assert_eq!(shoe.card_idx, 48);
    assert_eq!(shoe.draw_n::<5>().err(), Some(ShoeError::ExhaustedShoe));
    assert_eq!(shoe.card_idx, 48);
    let cards = shoe.draw_n::<4>().unwrap();
    assert_eq!(cards[3].order(), 51);
    assert_eq!(shoe.card_idx, 52);
    assert_eq!(shoe.draw().err(), Some(ShoeError::ExhaustedShoe));
    assert_eq!(shoe.draw_two().err(), Some(ShoeError::ExhaustedShoe));
    assert_eq!(shoe.draw_three().err(), Some(ShoeError::ExhaustedShoe));
    assert_eq!(shoe.draw_four().err(), Some(ShoeError::ExhaustedShoe));
    assert_eq!(shoe.card_idx, 52);
    assert_eq!(shoe.draw_n::<0>().unwrap().len(), 0);
    shoe.card_idx = 60;
    assert_eq!(shoe.draw_n::<0>().err(), Some(ShoeError::ExhaustedShoe));
    assert_eq!(shoe.card_idx, 60);
}

#[test]
fn plain_shoe_shuffle_from_moves_only_what_follows() {
    let mut shoe = Shoe::new(1);
    let tokens: Vec<u128> = shoe.cards.iter().map(|card| card.unique_hash()).collect();
    shoe.shuffle_from(51);
    let now: Vec<u128> = shoe.cards.iter().map(|card| card.unique_hash()).collect();
    assert_eq!(now, tokens);
    shoe.shuffle_from(52);
    shoe.shuffle_from(6000);
    let now: Vec<u128> = shoe.cards.iter().map(|card| card.unique_hash()).collect();
    assert_eq!(now, tokens);
    let mut moved = false;
    for _ in 0..200 {
        shoe.shuffle_from(50);
        let now: Vec<u128> = shoe.cards.iter().map(|card| card.unique_hash()).collect();
        assert_eq!(now[..50], tokens[..50]);
        let mut tail = vec![now[50], now[51]];
        tail.sort();
        let mut expected = vec![tokens[50], tokens[51]];
        expected.sort();
        assert_eq!(tail, expected);
        if now[50] != tokens[50] {
            moved = true;
        }
    }
    assert!(moved);
    assert_eq!(shoe.card_idx, 0);
}
