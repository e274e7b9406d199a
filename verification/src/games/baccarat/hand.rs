use super::card::Card;
use crate::cards::traits::value::Value;
use vstd::prelude::*;

verus! {

/// The two cards that a side is dealt, and the third where it took one.
#[derive(Clone, Copy, Debug)]
pub struct Hand {
    pub first: Card,
    pub second: Card,
    pub third: Option<Card>,
}

impl Hand {
    /// A hand of two cards.
    pub fn new(first: Card, second: Card) -> (hand: Hand)
        ensures
            hand == (Hand { first: first, second: second, third: None }),
    {
        Hand { first: first, second: second, third: None }
    }
}

impl Value for Hand {
    /// A hand counts for the last digit of what its cards count for together.
    open spec fn value_spec(&self) -> i32 {
        let third = match self.third {
            Some(card) => card.value_spec(),
            None => 0,
        };
        ((self.first.value_spec() + self.second.value_spec() + third) % 10) as i32
    }

    fn value(&self) -> (value: i32) {
        let first = self.first.value();
        let second = self.second.value();
        let third = match self.third {
            Some(ref card) => card.value(),
            None => 0,
        };
        (first + second + third) % 10
    }
}

/// The hands of the two sides, as far as they are dealt.
#[derive(Clone, Copy, Debug)]
pub struct Hands {
    pub player: Option<Hand>,
    pub banker: Option<Hand>,
}

impl Hands {
    pub fn new(player_hand: Option<Hand>, banker_hand: Option<Hand>) -> (hands: Hands)
        ensures
            hands == (Hands { player: player_hand, banker: banker_hand }),
    {
        Hands { player: player_hand, banker: banker_hand }
    }
}

} // verus!
