use poker::card::Card;
use poker::suit::{OrderedSuit, Suit};
use poker::value::Value;

#[test]
fn value_test() {
    assert_eq!(Value::Two, Value::Two);
    assert_ne!(Value::Two, Value::Three);
    assert!(Value::Two != Value::Three);
    assert!(Value::Two < Value::Three);
    assert!(Value::Three < Value::Four);
    assert!(Value::Four < Value::Five);
    assert!(Value::Five < Value::Six);
    assert!(Value::Six < Value::Seven);
    assert!(Value::Seven < Value::Eight);
    assert!(Value::Eight < Value::Nine);
    assert!(Value::Nine < Value::Ten);
    assert!(Value::Ten < Value::Jack);
    assert!(Value::Jack < Value::Queen);
    assert!(Value::Queen < Value::King);
    assert!(Value::King < Value::Ace);
}

#[test]
fn suit_test() {
    assert_eq!(Suit::Spade, Suit::Spade);
    assert_ne!(Suit::Spade, Suit::Heart);
}

#[test]
fn ordered_suit_test() {
    assert_eq!(OrderedSuit::Spade, OrderedSuit::Spade);
    assert_ne!(OrderedSuit::Spade, OrderedSuit::Heart);
    assert!(OrderedSuit::Spade != OrderedSuit::Heart);
    assert!(OrderedSuit::Spade > OrderedSuit::Heart);
    assert!(OrderedSuit::Heart > OrderedSuit::Diamond);
    assert!(OrderedSuit::Diamond > OrderedSuit::Club);
}

#[test]
fn card_test() {
    assert_eq!(
        Card::new(Suit::Spade, Value::Ace),
        Card::new(Suit::Spade, Value::Ace)
    );
    assert_ne!(
        Card::new(Suit::Spade, Value::Ace),
        Card::new(Suit::Spade, Value::Two)
    );
    assert!(Card::new(Suit::Spade, Value::Ace) == Card::new(Suit::Spade, Value::Ace));
    assert!(Card::new(Suit::Spade, Value::Ace) == Card::new(Suit::Heart, Value::Ace));
    assert!(Card::new(Suit::Spade, Value::Ace) != Card::new(Suit::Spade, Value::King));
    assert!(Card::new(Suit::Spade, Value::Ace) > Card::new(Suit::Spade, Value::King));
    assert!(Card::new(Suit::Spade, Value::King) < Card::new(Suit::Spade, Value::Ace));
}

#[test]
fn value_strength_runs_from_two_to_ace() {
    assert_eq!(Value::Two.strength(), 0);
    assert_eq!(Value::Ten.strength(), 8);
    assert_eq!(Value::King.strength(), 11);
    assert_eq!(Value::Ace.strength(), 12);
}

#[test]
fn card_order_ignores_the_suit() {
    let low = Card::new(Suit::Club, Value::Two);
    let high = Card::new(Suit::Spade, Value::Three);
    assert!(low < high);
    assert!(!(low > high));
    assert!(Card::new(Suit::Club, Value::Ten) <= Card::new(Suit::Heart, Value::Ten));
    assert!(Card::new(Suit::Club, Value::Ten) >= Card::new(Suit::Heart, Value::Ten));
    assert_eq!(
        Card::new(Suit::Club, Value::Ace).partial_cmp(&Card::new(Suit::Heart, Value::Two)),
        Some(std::cmp::Ordering::Greater)
    );
    assert_eq!(
        Card::new(Suit::Club, Value::Two).cmp(&Card::new(Suit::Heart, Value::Ace)),
        std::cmp::Ordering::Less
    );
    assert_eq!(
        Card::new(Suit::Club, Value::Nine).cmp(&Card::new(Suit::Heart, Value::Nine)),
        std::cmp::Ordering::Equal
    );
    assert_eq!(
        Card::new(Suit::Diamond, Value::King).cmp(&Card::new(Suit::Spade, Value::Queen)),
        std::cmp::Ordering::Greater
    );
}
